use wiki_rt_monitor::component_b::hot_path::{
    has_room_for_packet, Admission, INJECTED_LATENCY_NS,
};
use wiki_rt_monitor::component_b::{HotPathProcessor, HOT_DEADLINE};
use wiki_rt_monitor::component_d::{Leaderboard, SyncStrategy};
use wiki_rt_monitor::component_e::FailSafe;
use wiki_rt_monitor::metrics::new_metrics;
use wiki_rt_monitor::types::{ChangePacket, Priority, StressConfig, SystemMode};

fn pkt(priority: Priority) -> ChangePacket {
    ChangePacket {
        user: "u".to_owned(),
        server_name: "de.wikipedia.org".to_owned(),
        title: "T".to_owned(),
        change_type: "edit".to_owned(),
        priority,
        wiki_timestamp: 0,
        t0: 0,
        t1: Some(1_000),
        t2: None,
        t3: None,
    }
}

#[test]
fn packet_in_time() {
    let mut m = new_metrics();
    let mut lb = Leaderboard::new(SyncStrategy::RwLock);
    let mut fs = FailSafe::new();
    let mut hp = HotPathProcessor::new(StressConfig::off(), 0);
    assert!(has_room_for_packet(&m, SyncStrategy::RwLock));
    let ok = hp.process(pkt(Priority::High), 11_000, 2_011_999, &mut lb, &mut fs, Some(&mut m));
    assert!(ok);
    assert_eq!(m.human_drift_us.snapshot(), vec![10]);
    assert_eq!(m.human_latency_us.snapshot(), vec![HOT_DEADLINE]);
    assert_eq!(m.deadline_misses, 0);
    assert!(m.deadline_miss_log.is_empty());
    assert_eq!(m.rwlock_write_ops, 1);
    assert_eq!(lb.top_n(3), vec![("de.wikipedia.org".to_owned(), 1)]);
}

#[test]
fn late_packet_is_counted_logged_and_degrades() {
    let mut m = new_metrics();
    let mut lb = Leaderboard::new(SyncStrategy::Mutex);
    let mut fs = FailSafe::new();
    let mut hp = HotPathProcessor::new(StressConfig::off(), 0);
    let ok = hp.process(pkt(Priority::Low), 0, 2_001_000, &mut lb, &mut fs, Some(&mut m));
    assert!(!ok);
    assert_eq!(m.deadline_misses, 1);
    assert_eq!(m.deadline_miss_log.len(), 1);
    assert_eq!(m.deadline_miss_log[0].latency_us, 2_001);
    assert_eq!(m.deadline_miss_log[0].domain, "de.wikipedia.org");
    assert_eq!(m.deadline_miss_log[0].priority, Priority::Low);
    assert_eq!(m.deadline_miss_log[0].occurred_at, 2_001_000);
    assert_eq!(m.bot_latency_us.snapshot(), vec![2_001]);
    assert_eq!(fs.current_mode(), SystemMode::Degraded);
    assert_eq!(m.current_mode, "DEGRADED");
    assert_eq!(m.fail_safe_activations, 1);
}

#[test]
fn degraded_mode_skips_bots_but_measures_their_drift() {
    let mut m = new_metrics();
    let mut lb = Leaderboard::new(SyncStrategy::Mutex);
    let mut fs = FailSafe::new();
    fs.record_latency(5_000, None);
    let mut hp = HotPathProcessor::new(StressConfig::off(), 0);
    assert!(hp.process(pkt(Priority::Low), 3_000, 9_999_999, &mut lb, &mut fs, Some(&mut m)));
    assert_eq!(m.bot_drift_us.snapshot(), vec![2]);
    assert_eq!(m.bot_latency_us.count(), 0);
    assert_eq!(m.mutex_write_ops, 0);
    assert_eq!(m.deadline_misses, 0);
    assert!(lb.top_n(3).is_empty());
    assert!(hp.process(pkt(Priority::High), 3_000, 4_000, &mut lb, &mut fs, Some(&mut m)));
    assert_eq!(m.mutex_write_ops, 1);
}

#[test]
fn recovery_admits_every_other_bot() {
    let mut lb = Leaderboard::new(SyncStrategy::Atomic);
    let mut fs = FailSafe::new();
    fs.record_latency(5_000, None);
    fs.record_latency(0, None);
    assert!(fs.is_recovery());
    let mut hp = HotPathProcessor::new(StressConfig::off(), 0);
    for _ in 0..4 {
        hp.process(pkt(Priority::Low), 0, 0, &mut lb, &mut fs, None);
    }
    assert_eq!(lb.top_n(1), vec![("de.wikipedia.org".to_owned(), 2)]);
}

#[test]
fn stress_delays_every_nth_packet() {
    let mut fs = FailSafe::new();
    let mut hp = HotPathProcessor::new(StressConfig::default_stress(), 0);
    let mut delayed = Vec::new();
    for n in 0..101 {
        match hp.enter(pkt(Priority::High), 0, &mut fs, None) {
            Admission::Process { pkt, delay } => {
                assert_eq!(pkt.t2, Some(0));
                if delay {
                    delayed.push(n);
                }
            }
            Admission::Skip => panic!("human edits are never skipped"),
        }
    }
    assert_eq!(delayed, vec![0, 50, 100]);
}

#[test]
fn demo_delays_only_within_its_window() {
    let mut fs = FailSafe::new();
    let mut stress = StressConfig::default_demo();
    stress.program_start = Some(1_000);
    let mut hp = HotPathProcessor::new(stress, 77);
    let mut delays = |t2: u64, fs: &mut FailSafe| match hp.enter(pkt(Priority::High), t2, fs, None) {
        Admission::Process { delay, .. } => delay,
        Admission::Skip => false,
    };
    assert!(!delays(15_000_000_999, &mut fs));
    assert!(delays(15_000_001_000, &mut fs));
    assert!(!delays(15_000_001_001, &mut fs));
    assert!(!delays(25_000_001_000, &mut fs));
}

#[test]
fn concluding_stamps_the_packet() {
    let mut fs = FailSafe::new();
    let hp = HotPathProcessor::new(StressConfig::off(), 0);
    let done = hp.conclude(pkt(Priority::High), 1_000, 5_500, &mut fs, None);
    assert_eq!(done.pkt.t3, Some(5_500));
    assert_eq!(done.latency_us, 4);
    assert!(done.deadline_ok);
    assert_eq!(done.entered, None);
}

#[test]
fn delayed_packets_miss_on_schedule() {
    let stress = StressConfig {
        enabled: true,
        inject_latency_every_nth: 3,
        inject_window: None,
        silence_window: None,
        program_start: None,
    };
    let mut lb = Leaderboard::new(SyncStrategy::Mutex);
    let mut hp = HotPathProcessor::new(stress, 0);
    let mut kept = Vec::new();
    for n in 0..8u64 {
        let mut fs = FailSafe::new();
        let t2 = n * 10_000_000;
        match hp.enter(pkt(Priority::High), t2, &mut fs, None) {
            Admission::Skip => panic!("a human edit is never skipped"),
            Admission::Process { pkt, delay } => {
                let t3 = if delay { t2 + INJECTED_LATENCY_NS } else { t2 + 1_000 };
                lb.increment(&pkt.server_name, None);
                kept.push(hp.conclude(pkt, t2, t3, &mut fs, None).deadline_ok);
            }
        }
    }
    assert_eq!(kept, vec![false, true, true, false, true, true, false, true]);
    assert_eq!(lb.top_n(1), vec![("de.wikipedia.org".to_owned(), 8)]);
}

#[test]
fn recovery_processes_one_of_two_bots() {
    for odd in [false, true] {
        let mut m = new_metrics();
        let mut lb = Leaderboard::new(SyncStrategy::RwLock);
        let mut fs = FailSafe::new();
        fs.record_latency(5_000, None);
        fs.record_latency(0, None);
        if odd {
            fs.allow_bot_packet();
        }
        let mut hp = HotPathProcessor::new(StressConfig::off(), 0);
        assert!(hp.process(pkt(Priority::Low), 0, 70_000, &mut lb, &mut fs, Some(&mut m)));
        assert!(hp.process(pkt(Priority::Low), 0, 90_000, &mut lb, &mut fs, Some(&mut m)));
        assert!(fs.is_recovery());
        assert_eq!(lb.top_n(1), vec![("de.wikipedia.org".to_owned(), 1)]);
        assert_eq!(m.bot_latency_us.snapshot(), vec![if odd { 90 } else { 70 }]);
        assert_eq!(m.bot_drift_us.count(), 2);
        assert_eq!(m.rwlock_write_ops, 1);
    }
}
