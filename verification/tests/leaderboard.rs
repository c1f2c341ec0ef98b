use wiki_rt_monitor::component_d::domain_counts::DomainCounts;
use wiki_rt_monitor::component_d::leaderboard::{known_domain, known_domain_slot, DOMAIN_SLOTS};
use wiki_rt_monitor::component_d::sync_benchmark::evaluate;
use wiki_rt_monitor::component_d::{Leaderboard, SyncStrategy};
use wiki_rt_monitor::metrics::new_metrics;
use wiki_rt_monitor::text::str_eq;

fn fill(strategy: SyncStrategy) -> Leaderboard {
    let mut lb = Leaderboard::new(strategy);
    for d in [
        "fr.wikipedia.org",
        "en.wikipedia.org",
        "xx.example.org",
        "en.wikipedia.org",
        "en.wikipedia.org",
        "fr.wikipedia.org",
        "xx.example.org",
        "de.wikipedia.org",
    ] {
        assert!(lb.has_room_for(d));
        lb.increment(d, None);
    }
    lb
}

fn named(entries: &[(&str, u64)]) -> Vec<(String, u64)> {
    entries.iter().map(|(d, n)| (d.to_string(), *n)).collect()
}

#[test]
fn lock_strategies_count_every_domain() {
    for strategy in [SyncStrategy::Mutex, SyncStrategy::RwLock] {
        let lb = fill(strategy);
        assert_eq!(lb.strategy(), strategy);
        assert_eq!(
            lb.top_n(10),
            named(&[
                ("en.wikipedia.org", 3),
                ("fr.wikipedia.org", 2),
                ("xx.example.org", 2),
                ("de.wikipedia.org", 1),
            ])
        );
        assert_eq!(lb.top_n(1), named(&[("en.wikipedia.org", 3)]));
        assert!(lb.top_n(0).is_empty());
    }
}

#[test]
fn atomic_strategy_passes_over_unknown_domains() {
    let lb = fill(SyncStrategy::Atomic);
    assert_eq!(
        lb.top_n(10),
        named(&[("en.wikipedia.org", 3), ("fr.wikipedia.org", 2), ("de.wikipedia.org", 1)])
    );
}

#[test]
fn writes_are_counted_per_strategy() {
    let mut m = new_metrics();
    let mut lb = Leaderboard::new(SyncStrategy::Atomic);
    lb.increment("nowhere", Some(&mut m));
    lb.increment("nl.wikipedia.org", Some(&mut m));
    let mut lb = Leaderboard::new(SyncStrategy::Mutex);
    lb.increment("a", Some(&mut m));
    assert_eq!((m.mutex_write_ops, m.rwlock_write_ops, m.atomic_write_ops), (1, 0, 2));
}

#[test]
fn known_domains_have_slots() {
    for slot in 0..DOMAIN_SLOTS {
        assert_eq!(known_domain_slot(known_domain(slot)), Some(slot));
    }
    assert_eq!(known_domain(0), "en.wikipedia.org");
    assert_eq!(known_domain(9), "nl.wikipedia.org");
    assert_eq!(known_domain_slot("en.wikipedia.or"), None);
    assert_eq!(known_domain_slot(""), None);
}

#[test]
fn leaderboard_from_counters() {
    let mut slots = vec![0u64; DOMAIN_SLOTS];
    slots[2] = 7;
    slots[5] = 9;
    let lb = Leaderboard::from_slots(slots);
    assert_eq!(lb.top_n(3), named(&[("ja.wikipedia.org", 9), ("fr.wikipedia.org", 7)]));
}

#[test]
fn counts_of_domains() {
    let mut c = DomainCounts::new();
    assert_eq!(c.count("a"), 0);
    c.increment("a");
    c.increment("b");
    c.increment("b");
    assert_eq!((c.count("a"), c.count("b"), c.count("c")), (1, 2, 0));
    let top = c.top_n(1);
    assert_eq!((top[0].domain.as_str(), top[0].edits), ("b", 2));
}

#[test]
fn benchmark_is_evaluated() {
    let latencies: Vec<u64> = (0..200).rev().collect();
    let r = evaluate(SyncStrategy::RwLock, 4, 50, &latencies, 2_000_000_000);
    assert_eq!(r.strategy, "RwLock");
    assert_eq!(r.writers, 4);
    assert_eq!((r.ops_per_sec.num, r.ops_per_sec.den), (200_000_000_000, 2_000_000_000));
    assert_eq!((r.mean_ns.num, r.mean_ns.den), (19_900, 200));
    assert_eq!(r.p99_ns, 198);
}

#[test]
fn benchmark_without_samples() {
    let r = evaluate(SyncStrategy::Atomic, 0, 10, &Vec::new(), 0);
    assert_eq!(r.strategy, "Atomic");
    assert_eq!((r.ops_per_sec.num, r.ops_per_sec.den), (0, 0));
    assert_eq!((r.mean_ns.num, r.mean_ns.den), (0, 1));
    assert_eq!(r.p99_ns, 0);
}

#[test]
fn names_of_strategies() {
    assert_eq!(SyncStrategy::Mutex.name(), "Mutex");
}

#[test]
fn strategies_agree_on_known_domains() {
    for strategy in [SyncStrategy::Mutex, SyncStrategy::RwLock, SyncStrategy::Atomic] {
        let mut lb = Leaderboard::new(strategy);
        for slot in 0..DOMAIN_SLOTS {
            for _ in 0..=slot * slot {
                lb.increment(known_domain(slot), None);
            }
        }
        let top = lb.top_n(10);
        assert_eq!(top.len(), DOMAIN_SLOTS);
        for (i, (domain, count)) in top.iter().enumerate() {
            let slot = DOMAIN_SLOTS - 1 - i;
            assert_eq!(domain, known_domain(slot));
            assert_eq!(*count, (slot * slot + 1) as u64);
        }
        assert_eq!(top.iter().map(|e| e.1).sum::<u64>(), 295);
    }
}

#[test]
fn increment_changes_one_entry() {
    for strategy in [SyncStrategy::Mutex, SyncStrategy::RwLock, SyncStrategy::Atomic] {
        let mut lb = fill(strategy);
        let before = lb.top_n(10);
        lb.increment("en.wikipedia.org", None);
        let mut after = lb.top_n(10);
        assert_eq!(after[0], ("en.wikipedia.org".to_owned(), 4));
        after[0].1 = 3;
        assert_eq!(after, before);
    }
}

#[test]
fn equal_texts() {
    assert!(str_eq("", ""));
    assert!(str_eq("žluťoučký", "žluťoučký"));
    assert!(!str_eq("é", "e"));
    assert!(!str_eq("abc", "abd"));
    assert!(!str_eq("ab", "abc"));
    assert!(!str_eq("abc", "ab"));
}
