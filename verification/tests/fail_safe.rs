use wiki_rt_monitor::component_e::FailSafe;
use wiki_rt_monitor::metrics::new_metrics;
use wiki_rt_monitor::types::SystemMode;

fn degraded() -> FailSafe {
    let mut fs = FailSafe::new();
    assert_eq!(fs.record_latency(2_001, None), Some(SystemMode::Degraded));
    fs
}

fn recovering() -> FailSafe {
    let mut fs = degraded();
    assert_eq!(fs.record_latency(499, None), Some(SystemMode::Recovery));
    fs
}

#[test]
fn threshold_itself_does_not_degrade() {
    let mut fs = FailSafe::new();
    assert_eq!(fs.record_latency(2_000, None), None);
    assert_eq!(fs.current_mode(), SystemMode::Normal);
}

#[test]
fn spike_degrades_and_shows_in_the_store() {
    let mut m = new_metrics();
    let mut fs = FailSafe::new();
    fs.record_latency(2_001, Some(&mut m));
    assert!(fs.is_degraded());
    assert_eq!(m.current_mode, "DEGRADED");
    assert_eq!(m.fail_safe_activations, 1);
    fs.record_latency(9_999, Some(&mut m));
    assert_eq!(m.fail_safe_activations, 1);
}

#[test]
fn whole_cycle_back_to_normal() {
    let mut m = new_metrics();
    let mut fs = degraded();
    for n in 1..=21 {
        let entered = fs.record_latency(0, Some(&mut m));
        let expected = match n {
            1 => Some(SystemMode::Recovery),
            21 => Some(SystemMode::Normal),
            _ => None,
        };
        assert_eq!(entered, expected);
    }
    assert_eq!(m.current_mode, "NORMAL");
    assert_eq!(m.fail_safe_activations, 0);
}

#[test]
fn only_a_clean_cycle_leaves_degraded() {
    let mut fs = degraded();
    for us in [500, 1_999, 2_000, 9_000] {
        assert_eq!(fs.record_latency(us, None), None);
        assert!(fs.is_degraded());
    }
    assert_eq!(fs.record_latency(400, None), Some(SystemMode::Recovery));
    assert!(fs.is_recovery());
}

#[test]
fn unclean_cycle_restarts_the_recovery_count() {
    let mut fs = recovering();
    for _ in 0..19 {
        fs.record_latency(100, None);
    }
    fs.record_latency(1_000, None);
    for _ in 0..19 {
        fs.record_latency(100, None);
    }
    assert!(fs.is_recovery());
    fs.record_latency(100, None);
    assert_eq!(fs.current_mode(), SystemMode::Normal);
}

#[test]
fn spike_in_recovery_falls_back() {
    let mut m = new_metrics();
    let mut fs = recovering();
    assert_eq!(fs.record_latency(3_000, Some(&mut m)), Some(SystemMode::Degraded));
    assert_eq!(m.fail_safe_activations, 1);
}

#[test]
fn bots_are_admitted_by_mode() {
    let mut fs = FailSafe::new();
    assert!(fs.allow_bot_packet());
    assert!(fs.allow_bot_packet());
    let mut fs = degraded();
    assert!(!fs.allow_bot_packet());
    let mut fs = recovering();
    let admitted: Vec<bool> = (0..4).map(|_| fs.allow_bot_packet()).collect();
    assert_eq!(admitted, vec![true, false, true, false]);
}

#[test]
fn labels_of_modes() {
    assert_eq!(SystemMode::Normal.label(), "NORMAL");
    assert_eq!(SystemMode::Degraded.label(), "DEGRADED");
    assert_eq!(SystemMode::Recovery.label(), "RECOVERY");
}
