use wiki_rt_monitor::metrics::{new_metrics, DeadlineMissEvent, LatencySamples, WINDOW};
use wiki_rt_monitor::types::{OverflowEvent, Priority};

fn samples(values: &[u64]) -> LatencySamples {
    let mut s = LatencySamples::new();
    for v in values {
        s.push(*v);
    }
    s
}

#[test]
fn statistics_of_no_samples() {
    let s = LatencySamples::new();
    assert_eq!(s.count(), 0);
    assert_eq!((s.mean().num, s.mean().den), (0, 1));
    assert_eq!((s.variance().unwrap().num, s.variance().unwrap().den), (0, 1));
    assert_eq!(s.max(), None);
    assert_eq!(s.p50(), 0);
}

#[test]
fn mean_variance_and_maximum() {
    let s = samples(&[2, 4, 4, 4, 5, 5, 7, 9]);
    assert_eq!((s.mean().num, s.mean().den), (40, 8));
    let v = s.variance().unwrap();
    assert_eq!(v.num as f64 / v.den as f64, 4.0);
    assert_eq!(s.max(), Some(9));
}

#[test]
fn variance_that_does_not_fit() {
    let s = samples(&[u64::MAX, u64::MAX]);
    assert!(s.variance().is_none());
    assert_eq!(s.mean().num, 2 * u64::MAX as u128);
}

#[test]
fn percentiles_of_a_hundred() {
    let values: Vec<u64> = (1..=100).rev().collect();
    let s = samples(&values);
    // p (n - 1) / 100 is 49.5, 89.1 and 98.01 here.
    assert_eq!(s.p50(), 51);
    assert_eq!(s.p90(), 90);
    assert_eq!(s.p99(), 99);
    assert_eq!(s.percentile(0), 1);
    assert_eq!(s.percentile(100), 100);
    assert_eq!(s.percentile(1_000), 100);
}

#[test]
fn percentiles_agree_with_floating_point() {
    for n in 1..300usize {
        let values: Vec<u64> = (0..n as u64).collect();
        let s = samples(&values);
        for p in [50u64, 90, 99] {
            let idx = ((p as f64 / 100.0) * (n - 1) as f64).round() as usize;
            assert_eq!(s.percentile(p), values[idx.min(n - 1)]);
        }
    }
}

#[test]
fn window_keeps_the_latest() {
    let mut s = LatencySamples::new();
    for v in 0..(WINDOW as u64 + 5) {
        s.push(v);
    }
    assert_eq!(s.count(), WINDOW);
    let kept = s.snapshot();
    assert_eq!(kept[0], 5);
    assert_eq!(kept[WINDOW - 1], WINDOW as u64 + 4);
}

#[test]
fn logs_keep_the_latest() {
    let mut m = new_metrics();
    for n in 0..10_003u64 {
        m.push_overflow(OverflowEvent {
            dropped_at: n,
            domain: "d".to_owned(),
            priority: Priority::Low,
            total_drops: n,
        });
        m.push_deadline_miss(DeadlineMissEvent {
            occurred_at: n,
            latency_us: 3_000,
            domain: "d".to_owned(),
            priority: Priority::High,
        });
    }
    assert_eq!(m.overflow_log.len(), 10_000);
    assert_eq!(m.overflow_log[0].total_drops, 3);
    assert_eq!(m.deadline_miss_log.len(), 10_000);
    assert_eq!(m.deadline_miss_log[9_999].occurred_at, 10_002);
}

#[test]
fn fresh_store() {
    let m = new_metrics();
    assert_eq!(m.current_mode, "NORMAL");
    assert_eq!(m.deadline_misses, 0);
    assert!(m.top_domains(3).is_empty());
}

#[test]
fn top_domains_of_the_store() {
    let mut m = new_metrics();
    for d in ["a", "b", "b", "c", "c", "c", "d"] {
        m.domain_counts.increment(d);
    }
    let top: Vec<(String, u64)> = m.top_domains(2).into_iter().map(|e| (e.domain, e.edits)).collect();
    assert_eq!(top, vec![("c".to_owned(), 3), ("b".to_owned(), 2)]);
}

#[test]
fn human_edits_outrank_bot_edits() {
    assert!(Priority::High > Priority::Low);
    assert_eq!(Priority::from_bot_flag(true), Priority::Low);
    assert_eq!(Priority::from_bot_flag(false), Priority::High);
    assert_eq!(Priority::High.label(), "human");
    assert_eq!(Priority::Low.label(), "bot");
    assert_eq!(Priority::Low.name(), "Low");
}
