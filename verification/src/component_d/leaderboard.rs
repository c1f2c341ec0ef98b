//! The leaderboard: live edit counts per domain.
//!
//! Three strategies share one face. Under the two lock strategies every domain
//! is counted. Under the atomic strategy a fixed set of ten known domains has a
//! counter each, and other domains are not counted.

use vstd::prelude::*;

use crate::component_d::domain_counts::{
    count_of, counted, lemma_counted, lemma_ranked, name_index, names_distinct, pairs, ranked, top,
    top_entries, total_of, DomainCounts, LeaderboardEntry,
};
use crate::metrics::{MetricsView, SharedMetrics};
use crate::text::str_eq;

verus! {

/// Domains that the atomic strategy counts.
pub const DOMAIN_SLOTS: usize = 10;

/// How access to the leaderboard is synchronised.
#[derive(Debug, Clone, Copy, PartialEq, Eq, Structural)]
pub enum SyncStrategy {
    Mutex,
    RwLock,
    Atomic,
}

/// The domain of an atomic counter.
pub open spec fn known_domain_text(slot: int) -> Seq<char> {
    if slot == 0 {
        "en.wikipedia.org"@
    } else if slot == 1 {
        "de.wikipedia.org"@
    } else if slot == 2 {
        "fr.wikipedia.org"@
    } else if slot == 3 {
        "es.wikipedia.org"@
    } else if slot == 4 {
        "ru.wikipedia.org"@
    } else if slot == 5 {
        "ja.wikipedia.org"@
    } else if slot == 6 {
        "zh.wikipedia.org"@
    } else if slot == 7 {
        "pt.wikipedia.org"@
    } else if slot == 8 {
        "it.wikipedia.org"@
    } else {
        "nl.wikipedia.org"@
    }
}

pub fn known_domain(slot: usize) -> (domain: &'static str)
    requires
        slot < DOMAIN_SLOTS,
    ensures
        domain@ == known_domain_text(slot as int),
{
    if slot == 0 {
        "en.wikipedia.org"
    } else if slot == 1 {
        "de.wikipedia.org"
    } else if slot == 2 {
        "fr.wikipedia.org"
    } else if slot == 3 {
        "es.wikipedia.org"
    } else if slot == 4 {
        "ru.wikipedia.org"
    } else if slot == 5 {
        "ja.wikipedia.org"
    } else if slot == 6 {
        "zh.wikipedia.org"
    } else if slot == 7 {
        "pt.wikipedia.org"
    } else if slot == 8 {
        "it.wikipedia.org"
    } else {
        "nl.wikipedia.org"
    }
}

/// No two atomic counters share a domain.
pub proof fn lemma_known_domains_distinct(i: int, j: int)
    requires
        0 <= i < DOMAIN_SLOTS,
        0 <= j < DOMAIN_SLOTS,
        known_domain_text(i) == known_domain_text(j),
    ensures
        i == j,
{
    reveal_strlit("en.wikipedia.org");
    reveal_strlit("de.wikipedia.org");
    reveal_strlit("fr.wikipedia.org");
    reveal_strlit("es.wikipedia.org");
    reveal_strlit("ru.wikipedia.org");
    reveal_strlit("ja.wikipedia.org");
    reveal_strlit("zh.wikipedia.org");
    reveal_strlit("pt.wikipedia.org");
    reveal_strlit("it.wikipedia.org");
    reveal_strlit("nl.wikipedia.org");
    assert("en.wikipedia.org"@[0] == 'e' && "en.wikipedia.org"@[1] == 'n');
    assert("de.wikipedia.org"@[0] == 'd' && "de.wikipedia.org"@[1] == 'e');
    assert("fr.wikipedia.org"@[0] == 'f' && "fr.wikipedia.org"@[1] == 'r');
    assert("es.wikipedia.org"@[0] == 'e' && "es.wikipedia.org"@[1] == 's');
    assert("ru.wikipedia.org"@[0] == 'r' && "ru.wikipedia.org"@[1] == 'u');
    assert("ja.wikipedia.org"@[0] == 'j' && "ja.wikipedia.org"@[1] == 'a');
    assert("zh.wikipedia.org"@[0] == 'z' && "zh.wikipedia.org"@[1] == 'h');
    assert("pt.wikipedia.org"@[0] == 'p' && "pt.wikipedia.org"@[1] == 't');
    assert("it.wikipedia.org"@[0] == 'i' && "it.wikipedia.org"@[1] == 't');
    assert("nl.wikipedia.org"@[0] == 'n' && "nl.wikipedia.org"@[1] == 'l');
}

/// The domain has an atomic counter.
pub open spec fn is_known(domain: Seq<char>) -> bool {
    exists|i: int| 0 <= i < DOMAIN_SLOTS && #[trigger] known_domain_text(i) == domain
}

/// The atomic counter of a domain.
pub open spec fn slot_of(domain: Seq<char>) -> int {
    choose|i: int| 0 <= i < DOMAIN_SLOTS && #[trigger] known_domain_text(i) == domain
}

/// The atomic counter of a domain, if it has one.
pub fn known_domain_slot(domain: &str) -> (slot: Option<usize>)
    ensures
        slot is Some <==> is_known(domain@),
        slot matches Some(i) ==> i == slot_of(domain@) && i < DOMAIN_SLOTS,
{
    let mut i: usize = 0;
    while i < DOMAIN_SLOTS
        invariant
            i <= DOMAIN_SLOTS,
            forall|k: int| 0 <= k < i ==> #[trigger] known_domain_text(k) != domain@,
        decreases DOMAIN_SLOTS - i,
    {
        if str_eq(known_domain(i), domain) {
            proof {
                lemma_known_domains_distinct(i as int, slot_of(domain@));
            }
            return Some(i);
        }
        i += 1;
    }
    None
}

/// The counters that are not 0, among the first `n`, with their domains.
pub open spec fn slot_entries(slots: Seq<u64>, n: int) -> Seq<(Seq<char>, u64)>
    decreases n,
{
    if n <= 0 {
        Seq::empty()
    } else if slots[n - 1] > 0 {
        slot_entries(slots, n - 1).push((known_domain_text(n - 1), slots[n - 1]))
    } else {
        slot_entries(slots, n - 1)
    }
}

/// What a leaderboard holds.
#[verifier::ext_equal]
pub struct LeaderboardView {
    pub strategy: SyncStrategy,
    /// Counts of the lock strategies.
    pub counts: Seq<(Seq<char>, u64)>,
    /// Counters of the atomic strategy.
    pub slots: Seq<u64>,
}

impl LeaderboardView {
    /// The domains that were counted, with their counts.
    pub open spec fn entries(self) -> Seq<(Seq<char>, u64)> {
        match self.strategy {
            SyncStrategy::Atomic => slot_entries(self.slots, DOMAIN_SLOTS as int),
            _ => self.counts,
        }
    }

    /// Edits counted for a domain.
    pub open spec fn edits(self, domain: Seq<char>) -> u64 {
        match self.strategy {
            SyncStrategy::Atomic => if is_known(domain) {
                self.slots[slot_of(domain)]
            } else {
                0
            },
            _ => count_of(self.counts, domain),
        }
    }

    /// One more edit of the domain.
    pub open spec fn incremented(self, domain: Seq<char>) -> Self {
        match self.strategy {
            SyncStrategy::Atomic => if is_known(domain) {
                LeaderboardView {
                    slots: self.slots.update(
                        slot_of(domain),
                        self.slots[slot_of(domain)].wrapping_add(1),
                    ),
                    ..self
                }
            } else {
                self
            },
            _ => LeaderboardView { counts: counted(self.counts, domain), ..self },
        }
    }

    /// One more edit of each of the domains, in turn.
    pub open spec fn incremented_all(self, domains: Seq<Seq<char>>) -> Self
        decreases domains.len(),
    {
        if domains.len() == 0 {
            self
        } else {
            self.incremented_all(domains.drop_last()).incremented(domains.last())
        }
    }

    /// The count of the domain can go up. The atomic counters wrap around.
    pub open spec fn has_room_for(self, domain: Seq<char>) -> bool {
        self.strategy != SyncStrategy::Atomic ==> count_of(self.counts, domain) < u64::MAX
    }

    pub open spec fn wf(self) -> bool {
        &&& self.slots.len() == DOMAIN_SLOTS
        &&& names_distinct(self.counts)
        &&& forall|i: int| 0 <= i < self.counts.len() ==> (#[trigger] self.counts[i]).1 > 0
    }

    pub open spec fn empty(strategy: SyncStrategy) -> Self {
        LeaderboardView {
            strategy,
            counts: Seq::empty(),
            slots: Seq::new(DOMAIN_SLOTS as nat, |i: int| 0u64),
        }
    }
}

/// The store after one more leaderboard write under the strategy.
pub open spec fn write_recorded(m: MetricsView, strategy: SyncStrategy) -> MetricsView {
    match strategy {
        SyncStrategy::Mutex => MetricsView {
            mutex_write_ops: (m.mutex_write_ops + 1) as u64,
            ..m
        },
        SyncStrategy::RwLock => MetricsView {
            rwlock_write_ops: (m.rwlock_write_ops + 1) as u64,
            ..m
        },
        SyncStrategy::Atomic => MetricsView {
            atomic_write_ops: (m.atomic_write_ops + 1) as u64,
            ..m
        },
    }
}

/// Leaderboard writes under the strategy.
pub open spec fn writes_of(m: MetricsView, strategy: SyncStrategy) -> u64 {
    match strategy {
        SyncStrategy::Mutex => m.mutex_write_ops,
        SyncStrategy::RwLock => m.rwlock_write_ops,
        SyncStrategy::Atomic => m.atomic_write_ops,
    }
}

/// Leaderboard writes under the strategy.
pub fn writes_of_strategy(metrics: &SharedMetrics, strategy: SyncStrategy) -> (writes: u64)
    ensures
        writes == writes_of(metrics@, strategy),
{
    match strategy {
        SyncStrategy::Mutex => metrics.mutex_write_ops,
        SyncStrategy::RwLock => metrics.rwlock_write_ops,
        SyncStrategy::Atomic => metrics.atomic_write_ops,
    }
}

/// Counts a leaderboard write under the strategy.
pub fn record_write(metrics: &mut SharedMetrics, strategy: SyncStrategy)
    requires
        writes_of(old(metrics)@, strategy) < u64::MAX,
    ensures
        final(metrics)@ == write_recorded(old(metrics)@, strategy),
        final(metrics).wf() == old(metrics).wf(),
{
    match strategy {
        SyncStrategy::Mutex => {
            metrics.mutex_write_ops = metrics.mutex_write_ops + 1;
        },
        SyncStrategy::RwLock => {
            metrics.rwlock_write_ops = metrics.rwlock_write_ops + 1;
        },
        SyncStrategy::Atomic => {
            metrics.atomic_write_ops = metrics.atomic_write_ops + 1;
        },
    }
}

/// How often a domain occurs.
pub open spec fn occurrences(domains: Seq<Seq<char>>, domain: Seq<char>) -> nat
    decreases domains.len(),
{
    if domains.len() == 0 {
        0
    } else {
        occurrences(domains.drop_last(), domain) + if domains.last() == domain {
            1nat
        } else {
            0nat
        }
    }
}

/// What is read is what was written: the count of a domain is the number of
/// its edits; only the atomic strategy does not count a domain it does not
/// know. So all strategies agree on the known domains.
pub proof fn lemma_edits_are_occurrences(
    strategy: SyncStrategy,
    domains: Seq<Seq<char>>,
    domain: Seq<char>,
)
    requires
        domains.len() <= u64::MAX,
    ensures
        ({
            let v = LeaderboardView::empty(strategy).incremented_all(domains);
            &&& v.wf()
            &&& v.strategy == strategy
            &&& v.edits(domain) == (if strategy == SyncStrategy::Atomic && !is_known(domain) {
                0
            } else {
                occurrences(domains, domain)
            })
            &&& occurrences(domains, domain) <= domains.len()
        }),
    decreases domains.len(),
{
    let empty = LeaderboardView::empty(strategy);
    if domains.len() > 0 {
        let before = domains.drop_last();
        let last = domains.last();
        let v = empty.incremented_all(before);
        lemma_edits_are_occurrences(strategy, before, domain);
        lemma_edits_are_occurrences(strategy, before, last);
        lemma_increment_raises_one_count(v, last);
    }
}

/// The domains that the atomic strategy knows, in the order of its counters.
pub proof fn lemma_known_domains()
    ensures
        DOMAIN_SLOTS == 10,
        known_domain_text(0) == "en.wikipedia.org"@,
        known_domain_text(1) == "de.wikipedia.org"@,
        known_domain_text(2) == "fr.wikipedia.org"@,
        known_domain_text(3) == "es.wikipedia.org"@,
        known_domain_text(4) == "ru.wikipedia.org"@,
        known_domain_text(5) == "ja.wikipedia.org"@,
        known_domain_text(6) == "zh.wikipedia.org"@,
        known_domain_text(7) == "pt.wikipedia.org"@,
        known_domain_text(8) == "it.wikipedia.org"@,
        known_domain_text(9) == "nl.wikipedia.org"@,
        forall|d: Seq<char>| #[trigger]
            is_known(d) <==> exists|k: int| 0 <= k < 10 && #[trigger] known_domain_text(k) == d,
{
}

/// How often a domain occurs goes up by one where it is added, and stays where
/// another one is.
pub proof fn lemma_occurrences(domains: Seq<Seq<char>>, added: Seq<char>, domain: Seq<char>)
    ensures
        occurrences(Seq::empty(), domain) == 0,
        occurrences(domains.push(added), domain) == occurrences(domains, domain) + (if added
            == domain {
            1int
        } else {
            0int
        }),
{
    assert(domains.push(added).drop_last() =~= domains);
}

/// One more edit raises the count of its own domain by one and leaves every
/// other count. An atomic board passes over a domain that it does not know.
pub proof fn lemma_increment_raises_one_count(v: LeaderboardView, domain: Seq<char>)
    requires
        v.wf(),
        v.edits(domain) < u64::MAX,
    ensures
        v.incremented(domain).wf(),
        v.incremented(domain).strategy == v.strategy,
        forall|d: Seq<char>| #[trigger]
            v.incremented(domain).edits(d) == v.edits(d) + (if d == domain && (v.strategy
                != SyncStrategy::Atomic || is_known(domain)) {
                1int
            } else {
                0int
            }),
{
    if v.strategy != SyncStrategy::Atomic {
        lemma_counted(v.counts, domain);
        let after = v.incremented(domain).counts;
        assert forall|i: int| 0 <= i < after.len() implies (#[trigger] after[i]).1 > 0 by {
            if i < v.counts.len() {
                assert(v.counts[i].1 > 0);
            }
        }
    } else {
        assert forall|d: Seq<char>| #[trigger]
            v.incremented(domain).edits(d) == v.edits(d) + (if d == domain && is_known(domain) {
                1int
            } else {
                0int
            }) by {
            if is_known(d) && is_known(domain) {
                assert(known_domain_text(slot_of(d)) == d);
                assert(known_domain_text(slot_of(domain)) == domain);
            }
        }
    }
}

/// A write changes one of the three write counts and nothing else.
pub proof fn lemma_write_changes_one_count(m: MetricsView, strategy: SyncStrategy)
    ensures
        ({
            let after = write_recorded(m, strategy);
            after == (MetricsView {
                mutex_write_ops: after.mutex_write_ops,
                rwlock_write_ops: after.rwlock_write_ops,
                atomic_write_ops: after.atomic_write_ops,
                ..m
            })
        }),
        writes_of(m, SyncStrategy::Mutex) == m.mutex_write_ops,
        writes_of(m, SyncStrategy::RwLock) == m.rwlock_write_ops,
        writes_of(m, SyncStrategy::Atomic) == m.atomic_write_ops,
{
}

/// A write counts for its own strategy alone.
pub proof fn lemma_write_counts_once(m: MetricsView, strategy: SyncStrategy, other: SyncStrategy)
    requires
        writes_of(m, strategy) < u64::MAX,
    ensures
        writes_of(write_recorded(m, strategy), other) == writes_of(m, other) + (if other
            == strategy {
            1int
        } else {
            0int
        }),
{
}

/// The entry comes from the counter `k`, one of the first `n`.
spec fn is_slot_entry(slots: Seq<u64>, n: int, k: int, d: Seq<char>, c: u64) -> bool {
    0 <= k < n && known_domain_text(k) == d && slots[k] == c && c > 0
}

proof fn lemma_slot_entries(slots: Seq<u64>, n: int)
    requires
        slots.len() == DOMAIN_SLOTS,
        0 <= n <= DOMAIN_SLOTS,
    ensures
        names_distinct(slot_entries(slots, n)),
        slot_entries(slots, n).len() <= n,
        forall|d: Seq<char>, c: u64| #[trigger]
            slot_entries(slots, n).contains((d, c)) <==> exists|k: int|
                is_slot_entry(slots, n, k, d, c),
    decreases n,
{
    let s = slot_entries(slots, n);
    if n > 0 {
        let m = n - 1;
        let before = slot_entries(slots, m);
        lemma_slot_entries(slots, m);
        let last = (known_domain_text(n - 1), slots[n - 1]);
        assert forall|i: int| 0 <= i < before.len() implies (#[trigger] before[i]).0 != last.0 by {
            assert(before.contains((before[i].0, before[i].1)));
            let (d, c) = before[i];
            let k = choose|k: int| is_slot_entry(slots, m, k, d, c);
            if d == last.0 {
                lemma_known_domains_distinct(k, n - 1);
            }
        }
        assert forall|d: Seq<char>, c: u64| #[trigger] s.contains((d, c)) <==> exists|k: int|
            is_slot_entry(slots, n, k, d, c) by {
            if s.contains((d, c)) {
                let i = choose|i: int| 0 <= i < s.len() && s[i] == (d, c);
                if i < before.len() {
                    assert(before[i] == (d, c));
                    assert(before.contains((d, c)));
                    let k = choose|k: int| is_slot_entry(slots, m, k, d, c);
                    assert(is_slot_entry(slots, n, k, d, c));
                } else {
                    assert(is_slot_entry(slots, n, m, d, c));
                }
            }
            if exists|k: int| is_slot_entry(slots, n, k, d, c) {
                let k = choose|k: int| is_slot_entry(slots, n, k, d, c);
                if k == n - 1 {
                    assert(s[before.len() as int] == (d, c));
                } else {
                    assert(is_slot_entry(slots, m, k, d, c));
                    assert(before.contains((d, c)));
                    let i = choose|i: int| 0 <= i < before.len() && before[i] == (d, c);
                    assert(s[i] == (d, c));
                }
            }
        }
    }
}

proof fn lemma_slots_stay_in_order(slots: Seq<u64>, n: int, i: int, j: int)
    requires
        slots.len() == DOMAIN_SLOTS,
        0 <= n <= DOMAIN_SLOTS,
        0 <= i < j < slot_entries(slots, n).len(),
    ensures
        slot_of(slot_entries(slots, n)[i].0) < slot_of(slot_entries(slots, n)[j].0) < n,
        is_known(slot_entries(slots, n)[i].0) && is_known(slot_entries(slots, n)[j].0),
    decreases n,
{
    let s = slot_entries(slots, n);
    if n > 0 {
        let m = n - 1;
        let before = slot_entries(slots, m);
        if j < before.len() {
            assert(s[i] == before[i] && s[j] == before[j]);
            lemma_slots_stay_in_order(slots, m, i, j);
        } else {
            let last = known_domain_text(m);
            assert(is_known(last));
            lemma_known_domains_distinct(m, slot_of(last));
            lemma_slot_entries(slots, m);
            let (d, c) = before[i];
            assert(before.contains((d, c)));
            let k = choose|k: int| is_slot_entry(slots, m, k, d, c);
            assert(is_known(d));
            lemma_known_domains_distinct(k, slot_of(d));
        }
    }
}

/// An atomic board lists its domains in the order of its counters.
pub proof fn lemma_atomic_entries_in_order(v: LeaderboardView, i: int, j: int)
    requires
        v.wf(),
        v.strategy == SyncStrategy::Atomic,
        0 <= i < j < v.entries().len(),
    ensures
        slot_of(v.entries()[i].0) < slot_of(v.entries()[j].0),
{
    lemma_slots_stay_in_order(v.slots, DOMAIN_SLOTS as int, i, j);
}

/// A board lists a domain, once, exactly where it counted edits of it, and
/// with their number.
pub proof fn lemma_entries_are_edits(v: LeaderboardView)
    requires
        v.wf(),
    ensures
        names_distinct(v.entries()),
        forall|d: Seq<char>, c: u64| #[trigger]
            v.entries().contains((d, c)) <==> c > 0 && v.edits(d) == c,
{
    let s = v.entries();
    if v.strategy == SyncStrategy::Atomic {
        let n = DOMAIN_SLOTS as int;
        lemma_slot_entries(v.slots, n);
        assert forall|d: Seq<char>, c: u64| #[trigger] s.contains((d, c)) <==> c > 0 && v.edits(d)
            == c by {
            if s.contains((d, c)) {
                let k = choose|k: int| is_slot_entry(v.slots, n, k, d, c);
                assert(is_known(d));
                lemma_known_domains_distinct(k, slot_of(d));
            }
            if c > 0 && v.edits(d) == c {
                assert(is_slot_entry(v.slots, n, slot_of(d), d, c));
            }
        }
    } else {
        assert forall|d: Seq<char>, c: u64| #[trigger] s.contains((d, c)) <==> c > 0 && v.edits(d)
            == c by {
            if s.contains((d, c)) {
                let i = choose|i: int| 0 <= i < s.len() && s[i] == (d, c);
                assert(s[i].0 == d);
                assert(name_index(s, d) == i);
            }
            if c > 0 && v.edits(d) == c {
                assert(s[name_index(s, d)] == (d, c));
            }
        }
    }
}

/// The whole ranking lists what the board counted: each domain with edits,
/// once, with their number.
pub proof fn lemma_top_lists_edits(v: LeaderboardView, n: int)
    requires
        v.wf(),
        n >= v.entries().len(),
    ensures
        names_distinct(top(v.entries(), n)),
        top(v.entries(), n).len() == v.entries().len(),
        forall|d: Seq<char>, c: u64| #[trigger]
            top(v.entries(), n).contains((d, c)) <==> c > 0 && v.edits(d) == c,
{
    broadcast use vstd::seq_lib::group_to_multiset_ensures;

    let s = v.entries();
    let r = ranked(s);
    lemma_entries_are_edits(v);
    lemma_ranked(s);
    assert(top(s, n) =~= r);
    assert forall|x: (Seq<char>, u64)| r.contains(x) <==> s.contains(x) by {
        assert(r.contains(x) <==> r.to_multiset().count(x) > 0);
        assert(s.contains(x) <==> s.to_multiset().count(x) > 0);
    }
    assert forall|d: Seq<char>, c: u64| #[trigger] r.contains((d, c)) <==> c > 0 && v.edits(d)
        == c by {
        assert(r.contains((d, c)) <==> s.contains((d, c)));
    }
    assert(s.no_duplicates());
    s.lemma_multiset_has_no_duplicates();
    r.lemma_multiset_has_no_duplicates_conv();
    assert forall|i: int, j: int|
        0 <= i < r.len() && 0 <= j < r.len() && r[i].0 == r[j].0 implies i == j by {
        assert(r.contains((r[i].0, r[i].1)));
        assert(r.contains((r[j].0, r[j].1)));
        assert(r[i] == r[j]);
    }
}

proof fn lemma_slot_total(slots: Seq<u64>, k: int, n: int)
    requires
        slots.len() == DOMAIN_SLOTS,
        0 <= k < DOMAIN_SLOTS,
        0 <= n <= DOMAIN_SLOTS,
        slots[k] < u64::MAX,
    ensures
        total_of(slot_entries(slots.update(k, (slots[k] + 1) as u64), n)) == total_of(
            slot_entries(slots, n),
        ) + (if k < n {
            1int
        } else {
            0int
        }),
    decreases n,
{
    if n > 0 {
        let after = slots.update(k, (slots[k] + 1) as u64);
        lemma_slot_total(slots, k, n - 1);
        lemma_total_push(
            slot_entries(slots, n - 1),
            (known_domain_text(n - 1), slots[n - 1]),
        );
        lemma_total_push(
            slot_entries(after, n - 1),
            (known_domain_text(n - 1), after[n - 1]),
        );
    }
}

proof fn lemma_total_push(s: Seq<(Seq<char>, u64)>, x: (Seq<char>, u64))
    ensures
        total_of(s.push(x)) == total_of(s) + x.1,
{
    assert(s.push(x).drop_last() =~= s);
}

/// One more edit changes the listing of its own domain alone: the domain is
/// listed with one edit more, every other one as before, and the counts of the
/// listing add up to one more. An atomic board passes over a domain that it
/// does not know.
pub proof fn lemma_increment_changes_one_entry(v: LeaderboardView, domain: Seq<char>)
    requires
        v.wf(),
        v.edits(domain) < u64::MAX,
    ensures
        ({
            let counts = v.strategy != SyncStrategy::Atomic || is_known(domain);
            let before = v.entries();
            let after = v.incremented(domain).entries();
            &&& names_distinct(after)
            &&& total_of(after) == total_of(before) + (if counts {
                1int
            } else {
                0int
            })
            &&& counts ==> after.contains((domain, (v.edits(domain) + 1) as u64))
            &&& forall|d: Seq<char>, c: u64|
                d != domain || !counts ==> (#[trigger] after.contains((d, c)) <==> before.contains(
                    (d, c),
                ))
        }),
{
    lemma_increment_raises_one_count(v, domain);
    lemma_entries_are_edits(v);
    lemma_entries_are_edits(v.incremented(domain));
    let after = v.incremented(domain);
    assert(after.edits(domain) >= v.edits(domain));
    assert forall|d: Seq<char>, c: u64|
        d != domain || !(v.strategy != SyncStrategy::Atomic || is_known(domain)) implies (
    #[trigger] after.entries().contains((d, c)) <==> v.entries().contains((d, c))) by {
        assert(after.edits(d) == v.edits(d));
    }
    if v.strategy == SyncStrategy::Atomic {
        if is_known(domain) {
            lemma_slot_total(v.slots, slot_of(domain), DOMAIN_SLOTS as int);
        }
    } else {
        lemma_counted(v.counts, domain);
    }
}

proof fn lemma_empty_slots(slots: Seq<u64>, n: int)
    requires
        0 <= n <= slots.len(),
        forall|i: int| 0 <= i < slots.len() ==> slots[i] == 0,
    ensures
        slot_entries(slots, n) == Seq::<(Seq<char>, u64)>::empty(),
    decreases n,
{
    if n > 0 {
        lemma_empty_slots(slots, n - 1);
    }
}

/// Every domain is one that the atomic strategy knows.
pub open spec fn all_known(domains: Seq<Seq<char>>) -> bool {
    forall|i: int| 0 <= i < domains.len() ==> is_known(#[trigger] domains[i])
}

/// The counts of all domains together are the number of writes; under the
/// atomic strategy, of writes of known domains.
pub proof fn lemma_total_is_writes(strategy: SyncStrategy, domains: Seq<Seq<char>>)
    requires
        domains.len() <= u64::MAX,
        strategy == SyncStrategy::Atomic ==> all_known(domains),
    ensures
        total_of(LeaderboardView::empty(strategy).incremented_all(domains).entries())
            == domains.len(),
    decreases domains.len(),
{
    if domains.len() > 0 {
        let before = domains.drop_last();
        let last = domains.last();
        let v = LeaderboardView::empty(strategy).incremented_all(before);
        assert forall|i: int|
            0 <= i < before.len() && strategy == SyncStrategy::Atomic implies is_known(
            #[trigger] before[i],
        ) by {
            assert(before[i] == domains[i]);
        }
        lemma_total_is_writes(strategy, before);
        lemma_edits_are_occurrences(strategy, before, last);
        if strategy == SyncStrategy::Atomic {
            assert(is_known(domains[domains.len() - 1]));
            lemma_slot_total(v.slots, slot_of(last), DOMAIN_SLOTS as int);
        } else {
            lemma_counted(v.counts, last);
        }
    } else {
        lemma_empty_slots(LeaderboardView::empty(strategy).slots, DOMAIN_SLOTS as int);
    }
}

proof fn lemma_unknown_never_occurs(domains: Seq<Seq<char>>, d: Seq<char>)
    requires
        all_known(domains),
        !is_known(d),
    ensures
        occurrences(domains, d) == 0,
    decreases domains.len(),
{
    if domains.len() > 0 {
        let before = domains.drop_last();
        assert forall|i: int| 0 <= i < before.len() implies is_known(#[trigger] before[i]) by {
            assert(before[i] == domains[i]);
        }
        lemma_unknown_never_occurs(before, d);
        assert(is_known(domains[domains.len() - 1]));
    }
}

/// No more entries with distinct, known names than there are known domains.
proof fn lemma_few_known_names(s: Seq<(Seq<char>, u64)>)
    requires
        names_distinct(s),
        forall|i: int| 0 <= i < s.len() ==> is_known((#[trigger] s[i]).0),
    ensures
        s.len() <= DOMAIN_SLOTS,
{
    let at = Seq::new(s.len(), |i: int| slot_of(s[i].0));
    assert forall|i: int, j: int| 0 <= i < at.len() && 0 <= j < at.len() && i != j implies at[i]
        != at[j] by {
        assert(is_known(s[i].0) && is_known(s[j].0));
        assert(known_domain_text(at[i]) == s[i].0);
        assert(known_domain_text(at[j]) == s[j].0);
    }
    at.unique_seq_to_set();
    let all = vstd::set_lib::set_int_range(0, DOMAIN_SLOTS as int);
    vstd::set_lib::lemma_int_range(0, DOMAIN_SLOTS as int);
    assert(at.to_set().subset_of(all)) by {
        assert forall|k: int| at.to_set().contains(k) implies all.contains(k) by {
            let i = choose|i: int| 0 <= i < at.len() && at[i] == k;
            assert(is_known(s[i].0));
        }
    }
    vstd::set_lib::lemma_len_subset(at.to_set(), all);
}

/// On the known domains all strategies list the same: after the same edits each
/// board's top ten is the histogram of those edits, every domain once, and the
/// counts add up to the number of edits. Only the order among equal counts can
/// differ.
pub proof fn lemma_strategies_list_the_histogram(strategy: SyncStrategy, domains: Seq<Seq<char>>)
    requires
        domains.len() <= u64::MAX,
        all_known(domains),
    ensures
        ({
            let entries = LeaderboardView::empty(strategy).incremented_all(domains).entries();
            &&& names_distinct(entries)
            &&& entries.len() <= DOMAIN_SLOTS
            &&& total_of(entries) == domains.len()
            &&& names_distinct(top(entries, DOMAIN_SLOTS as int))
            &&& forall|d: Seq<char>, c: u64| #[trigger]
                entries.contains((d, c)) <==> c > 0 && c == occurrences(domains, d)
            &&& forall|d: Seq<char>, c: u64| #[trigger]
                top(entries, DOMAIN_SLOTS as int).contains((d, c)) <==> c > 0 && c == occurrences(
                    domains,
                    d,
                )
        }),
{
    let v = LeaderboardView::empty(strategy).incremented_all(domains);
    let entries = v.entries();
    lemma_edits_are_occurrences(strategy, domains, Seq::empty());
    lemma_entries_are_edits(v);
    lemma_total_is_writes(strategy, domains);
    assert forall|d: Seq<char>| #[trigger] v.edits(d) == occurrences(domains, d) by {
        lemma_edits_are_occurrences(strategy, domains, d);
        if !is_known(d) {
            lemma_unknown_never_occurs(domains, d);
        }
    }
    assert forall|i: int| 0 <= i < entries.len() implies is_known((#[trigger] entries[i]).0) by {
        let d = entries[i].0;
        assert(entries.contains((d, entries[i].1)));
        assert(v.edits(d) == occurrences(domains, d));
        if !is_known(d) {
            lemma_unknown_never_occurs(domains, d);
        }
    }
    lemma_few_known_names(entries);
    lemma_top_lists_edits(v, DOMAIN_SLOTS as int);
}

/// The pairs of name and count.
pub open spec fn named_counts(entries: Seq<(String, u64)>) -> Seq<(Seq<char>, u64)> {
    entries.map_values(|e: (String, u64)| (e.0@, e.1))
}

/// Each entry stands for its own name and count.
pub proof fn lemma_named_counts(entries: Seq<(String, u64)>, i: int)
    requires
        0 <= i < entries.len(),
    ensures
        named_counts(entries).len() == entries.len(),
        named_counts(entries)[i].0 == entries[i].0@,
        named_counts(entries)[i].1 == entries[i].1,
{
}

/// Edit counts per domain under one of the strategies.
pub struct Leaderboard {
    strategy: SyncStrategy,
    counts: DomainCounts,
    slots: Vec<u64>,
}

impl View for Leaderboard {
    type V = LeaderboardView;

    closed spec fn view(&self) -> LeaderboardView {
        LeaderboardView { strategy: self.strategy, counts: self.counts@, slots: self.slots@ }
    }
}

impl Leaderboard {
    pub closed spec fn wf(&self) -> bool {
        &&& self.counts.wf()
        &&& self@.wf()
    }

    pub proof fn lemma_view_is_wf(&self)
        requires
            self.wf(),
        ensures
            self@.wf(),
    {
    }

    pub fn new(strategy: SyncStrategy) -> (leaderboard: Self)
        ensures
            leaderboard.wf(),
            leaderboard@ == LeaderboardView::empty(strategy),
    {
        let mut slots: Vec<u64> = Vec::with_capacity(DOMAIN_SLOTS);
        for i in 0..DOMAIN_SLOTS
            invariant
                slots@ == Seq::new(i as nat, |k: int| 0u64),
        {
            slots.push(0);
            assert(slots@ =~= Seq::new(i as nat + 1, |k: int| 0u64));
        }
        Leaderboard { strategy, counts: DomainCounts::new(), slots }
    }

    /// A leaderboard of the atomic strategy with the given counters.
    pub fn from_slots(slots: Vec<u64>) -> (leaderboard: Self)
        requires
            slots.len() == DOMAIN_SLOTS,
        ensures
            leaderboard.wf(),
            leaderboard@ == (LeaderboardView {
                strategy: SyncStrategy::Atomic,
                counts: Seq::empty(),
                slots: slots@,
            }),
    {
        Leaderboard { strategy: SyncStrategy::Atomic, counts: DomainCounts::new(), slots }
    }

    pub fn strategy(&self) -> (strategy: SyncStrategy)
        ensures
            strategy == self@.strategy,
    {
        self.strategy
    }

    /// Whether the count of the domain can go up.
    pub fn has_room_for(&self, domain: &str) -> (yes: bool)
        requires
            self.wf(),
        ensures
            yes == self@.has_room_for(domain@),
    {
        match self.strategy {
            SyncStrategy::Atomic => true,
            _ => self.counts.count(domain) < u64::MAX,
        }
    }

    /// Counts one edit of the domain. The write is counted too, unless the
    /// store is out of reach.
    pub fn increment(&mut self, domain: &str, metrics: Option<&mut SharedMetrics>)
        requires
            old(self).wf(),
            old(self)@.has_room_for(domain@),
            metrics matches Some(m) ==> writes_of(m@, old(self)@.strategy) < u64::MAX,
        ensures
            final(self).wf(),
            final(self)@ == old(self)@.incremented(domain@),
            metrics matches Some(m) ==> final(m).wf() == m.wf() && final(m)@ == write_recorded(
                m@,
                old(self)@.strategy,
            ),
    {
        let ghost before = self@;
        match self.strategy {
            SyncStrategy::Atomic => {
                if let Some(slot) = known_domain_slot(domain) {
                    let edits: u64 = self.slots[slot].wrapping_add(1);
                    self.slots.set(slot, edits);
                }
            },
            _ => {
                self.counts.increment(domain);
                proof {
                    self.counts.lemma_names_distinct();
                    lemma_increment_raises_one_count(before, domain@);
                }
            },
        }
        assert(self@ =~= before.incremented(domain@));
        if let Some(m) = metrics {
            record_write(m, self.strategy);
        }
    }

    /// The `n` domains with the most edits, by falling count.
    pub fn top_n(&self, n: usize) -> (entries: Vec<(String, u64)>)
        requires
            self.wf(),
        ensures
            named_counts(entries@) == top(self@.entries(), n as int),
    {
        let ranking = match self.strategy {
            SyncStrategy::Atomic => top_entries(&self.counted_slots(), n),
            _ => self.counts.top_n(n),
        };
        let mut entries: Vec<(String, u64)> = Vec::with_capacity(ranking.len());
        for i in 0..ranking.len()
            invariant
                named_counts(entries@) == pairs(ranking@).take(i as int),
        {
            let e = &ranking[i];
            let entry = (e.domain.clone(), e.edits);
            let ghost done = entries@;
            entries.push(entry);
            assert(named_counts(entries@) =~= named_counts(done).push(pairs(ranking@)[i as int]));
            assert(named_counts(entries@) =~= pairs(ranking@).take(i as int + 1));
        }
        assert(pairs(ranking@).take(ranking.len() as int) =~= pairs(ranking@));
        entries
    }

    /// The atomic counters that are not 0.
    fn counted_slots(&self) -> (entries: Vec<LeaderboardEntry>)
        requires
            self.wf(),
        ensures
            pairs(entries@) == slot_entries(self@.slots, DOMAIN_SLOTS as int),
    {
        let mut entries: Vec<LeaderboardEntry> = Vec::new();
        assert(pairs(entries@) =~= slot_entries(self@.slots, 0));
        for i in 0..DOMAIN_SLOTS
            invariant
                self.wf(),
                pairs(entries@) == slot_entries(self@.slots, i as int),
        {
            let edits: u64 = self.slots[i];
            if edits > 0 {
                let ghost done = entries@;
                entries.push(LeaderboardEntry { domain: known_domain(i).to_owned(), edits });
                assert(pairs(entries@) =~= pairs(done).push((known_domain_text(i as int), edits)));
            }
        }
        entries
    }
}

} // verus!
