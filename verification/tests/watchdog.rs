use wiki_rt_monitor::component_e::{Watchdog, WATCHDOG_TIMEOUT_MS};
use wiki_rt_monitor::metrics::new_metrics;

#[test]
fn quiet_before_the_first_event() {
    let mut w = Watchdog::new(0);
    assert!(w.poll(1_000_000_000, None).is_none());
    assert_eq!(w.reset_count(), 0);
}

#[test]
fn fires_only_beyond_the_timeout() {
    let mut m = new_metrics();
    let mut w = Watchdog::new(0);
    w.heartbeat(1_000);
    assert!(w.poll(1_000 + WATCHDOG_TIMEOUT_MS, Some(&mut m)).is_none());
    assert_eq!(m.watchdog_resets, 0);
    let reset = w.poll(1_001 + WATCHDOG_TIMEOUT_MS, Some(&mut m)).unwrap();
    assert_eq!(reset.number, 1);
    assert_eq!(reset.silence_ms, 10_001);
    assert_eq!(m.watchdog_resets, 1);
    assert_eq!(w.last_event_ms(), 11_001);
}

#[test]
fn reset_restarts_the_timer() {
    let mut w = Watchdog::new(5);
    assert!(w.poll(10_006, None).is_some());
    assert!(w.poll(20_006, None).is_none());
    assert_eq!(w.poll(20_007, None).unwrap().number, 2);
    assert_eq!(w.reset_count(), 2);
}

#[test]
fn reconnection_is_asked_for_once() {
    let mut w = Watchdog::new(5);
    assert!(!w.reconnect_flag());
    w.poll(10_006, None);
    assert!(w.reconnect_flag());
    assert!(w.take_reconnect());
    assert!(!w.take_reconnect());
}
