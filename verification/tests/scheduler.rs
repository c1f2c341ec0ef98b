use wiki_rt_monitor::component_c::{PriorityScheduler, QUEUE_DEPTH};
use wiki_rt_monitor::metrics::new_metrics;
use wiki_rt_monitor::types::{ChangePacket, Priority};

fn pkt(priority: Priority) -> ChangePacket {
    ChangePacket {
        user: "u".to_owned(),
        server_name: "en.wikipedia.org".to_owned(),
        title: "T".to_owned(),
        change_type: "edit".to_owned(),
        priority,
        wiki_timestamp: 0,
        t0: 0,
        t1: None,
        t2: None,
        t3: None,
    }
}

fn numbered(priority: Priority, n: i64) -> ChangePacket {
    let mut p = pkt(priority);
    p.wiki_timestamp = n;
    p
}

#[test]
fn high_priority_drains_before_low() {
    let mut metrics = new_metrics();
    let mut sched = PriorityScheduler::new();
    assert!(sched.enqueue(pkt(Priority::Low), 0));
    assert!(sched.enqueue(pkt(Priority::High), 0));
    assert!(sched.enqueue(pkt(Priority::Low), 0));

    assert_eq!(sched.dequeue_next(1, Some(&mut metrics)).unwrap().priority, Priority::High);
    assert_eq!(sched.dequeue_next(1, Some(&mut metrics)).unwrap().priority, Priority::Low);
    assert_eq!(sched.dequeue_next(1, Some(&mut metrics)).unwrap().priority, Priority::Low);
    assert!(sched.dequeue_next(1, Some(&mut metrics)).is_none());
}

#[test]
fn drift_is_recorded_on_dequeue() {
    let mut metrics = new_metrics();
    let mut sched = PriorityScheduler::new();
    sched.enqueue(pkt(Priority::High), 5_000_000);
    let _ = sched.dequeue_next(7_000_000, Some(&mut metrics));

    assert!(metrics.human_drift_us.p50() > 0, "drift should be recorded after a real delay");
    assert_eq!(metrics.human_drift_us.snapshot(), vec![2_000]);
    assert_eq!(metrics.bot_drift_us.count(), 0);
}

#[test]
fn bot_drift_is_kept_apart() {
    let mut metrics = new_metrics();
    let mut sched = PriorityScheduler::new();
    sched.enqueue(pkt(Priority::Low), 1_000);
    let _ = sched.dequeue_next(4_999, Some(&mut metrics));
    assert_eq!(metrics.bot_drift_us.snapshot(), vec![3]);
    assert_eq!(metrics.human_drift_us.count(), 0);
}

#[test]
fn drift_is_lost_while_the_store_is_busy() {
    let mut sched = PriorityScheduler::new();
    sched.enqueue(pkt(Priority::High), 10);
    let p = sched.dequeue_next(20, None).unwrap();
    assert_eq!(p.t1, Some(10));
    assert_eq!(p.t2, Some(20));
}

#[test]
fn each_queue_is_first_in_first_out() {
    let mut sched = PriorityScheduler::new();
    for n in 0..3 {
        assert!(sched.enqueue(numbered(Priority::Low, n), 0));
        assert!(sched.enqueue(numbered(Priority::High, 10 + n), 0));
    }
    let mut served = Vec::new();
    while let Some(p) = sched.dequeue_next(0, None) {
        served.push(p.wiki_timestamp);
    }
    assert_eq!(served, vec![10, 11, 12, 0, 1, 2]);
}

#[test]
fn full_queue_refuses_and_other_queue_does_not_care() {
    let mut sched = PriorityScheduler::new();
    for n in 0..QUEUE_DEPTH {
        assert!(sched.enqueue(numbered(Priority::Low, n as i64), 0));
    }
    assert!(!sched.enqueue(numbered(Priority::Low, 999), 0));
    assert!(sched.enqueue(numbered(Priority::High, 7), 0));
    assert_eq!(sched.dequeue_next(0, None).unwrap().wiki_timestamp, 7);
    assert_eq!(sched.dequeue_next(0, None).unwrap().wiki_timestamp, 0);
}

#[test]
fn evicting_takes_the_oldest() {
    let mut sched = PriorityScheduler::new();
    assert!(sched.evict_oldest(Priority::High).is_none());
    sched.enqueue(numbered(Priority::High, 1), 0);
    sched.enqueue(numbered(Priority::High, 2), 0);
    assert_eq!(sched.evict_oldest(Priority::High).unwrap().wiki_timestamp, 1);
    assert_eq!(sched.dequeue_next(0, None).unwrap().wiki_timestamp, 2);
    assert!(sched.dequeue_next(0, None).is_none());
}

#[test]
fn drop_oldest_keeps_the_latest() {
    let mut sched = PriorityScheduler::new();
    let mut dropped = Vec::new();
    for n in 0..(QUEUE_DEPTH + 3) {
        if let Some(p) = sched.enqueue_drop_oldest(numbered(Priority::High, n as i64), 5) {
            dropped.push(p.wiki_timestamp);
        }
    }
    assert_eq!(dropped, vec![0, 1, 2]);
    let first = sched.dequeue_next(6, None).unwrap();
    assert_eq!(first.wiki_timestamp, 3);
    assert_eq!(first.t1, Some(5));
    let mut last = 0;
    let mut waiting = 1;
    while let Some(p) = sched.dequeue_next(6, None) {
        last = p.wiki_timestamp;
        waiting += 1;
    }
    assert_eq!(waiting, QUEUE_DEPTH);
    assert_eq!(last, QUEUE_DEPTH as i64 + 2);
}
