use wiki_rt_monitor::alloc_counter::{is_alloc_free, read_counts, reset_and_read, AllocCounter};
use wiki_rt_monitor::component_a::async_pipeline::{ParseStage, CHANNEL_CAPACITY};
use wiki_rt_monitor::component_a::threaded_pipeline::QueueStage;
use wiki_rt_monitor::component_b::parse_zero_copy;
use wiki_rt_monitor::component_b::zero_copy_parser::{alloc_count_since_reset, parse_hot_fields};
use wiki_rt_monitor::component_c::packet_channel::PacketChannel;
use wiki_rt_monitor::component_c::{PriorityScheduler, QUEUE_DEPTH};
use wiki_rt_monitor::component_e::Watchdog;
use wiki_rt_monitor::event_log::{deadline_miss_csv, overflow_csv};
use wiki_rt_monitor::ingestion::StreamSource;
use wiki_rt_monitor::metrics::{new_metrics, DeadlineMissEvent};
use wiki_rt_monitor::run_plan::{drift_confirms_priority, RunPlan};
use wiki_rt_monitor::types::{Priority, StressConfig, WikiChange};

fn change<'a>(domain: Option<&'a str>, bot: bool) -> WikiChange<'a> {
    WikiChange {
        user: None,
        bot,
        server_name: domain,
        title: Some("Rust"),
        change_type: Some("edit"),
        timestamp: None,
        namespace: Some(0),
    }
}

#[test]
fn packet_of_an_event() {
    let p = parse_zero_copy(Some(change(Some("en.wikipedia.org"), true)), 9).unwrap();
    assert_eq!(p.user, "unknown");
    assert_eq!(p.server_name, "en.wikipedia.org");
    assert_eq!(p.title, "Rust");
    assert_eq!(p.change_type, "edit");
    assert_eq!(p.priority, Priority::Low);
    assert_eq!(p.wiki_timestamp, 0);
    assert_eq!((p.t0, p.t1, p.t2, p.t3), (9, None, None, None));
    assert!(parse_zero_copy(Some(change(None, true)), 9).is_none());
    assert!(parse_zero_copy(None, 9).is_none());
}

#[test]
fn hot_fields_of_an_event() {
    assert_eq!(parse_hot_fields(Some(change(Some("x"), false))), Some(("x", false)));
    assert_eq!(parse_hot_fields(Some(change(None, false))), None);
    assert_eq!(parse_hot_fields(None), None);
}

#[test]
fn parse_stage_counts_well_formed_events() {
    let mut w = Watchdog::new(0);
    let mut stage = ParseStage::new();
    assert!(stage.receive(None, &mut w, 50, 1, 2).is_none());
    assert_eq!((stage.events, w.last_event_ms()), (0, 0));
    let p = stage.receive(Some(change(None, false)), &mut w, 60, 1, 2).unwrap();
    assert_eq!((p.t0, p.t1), (1, Some(2)));
    assert_eq!(p.server_name, "unknown");
    assert_eq!((stage.events, w.last_event_ms()), (1, 60));
}

#[test]
fn full_channel_drops_its_oldest_packet() {
    let mut m = new_metrics();
    let mut w = Watchdog::new(0);
    let mut stage = ParseStage::new();
    let mut channel = PacketChannel::new(2);
    for (n, domain) in ["a", "b", "c", "d"].into_iter().enumerate() {
        let p = stage.receive(Some(change(Some(domain), true)), &mut w, 1, 1, 2).unwrap();
        let overflow = stage.forward(p, 10 + n as u64, &mut channel, Some(&mut m));
        assert_eq!(overflow.is_some(), n >= 2);
    }
    assert_eq!(m.async_overflow_count, 2);
    assert_eq!(m.overflow_log.len(), 2);
    assert_eq!(m.overflow_log[0].domain, "a");
    assert_eq!(m.overflow_log[1].domain, "b");
    assert_eq!(m.overflow_log[1].total_drops, 2);
    assert_eq!(m.overflow_log[1].dropped_at, 13);
    assert_eq!(m.overflow_log[1].priority, Priority::Low);
    assert_eq!(channel.try_recv().unwrap().server_name, "c");
    assert_eq!(channel.try_recv().unwrap().server_name, "d");
    assert!(channel.try_recv().is_none());
    let stats = stage.finish(2_000_000_000);
    assert!(stats.overflows <= stats.events_received);
    assert_eq!((stats.events_received, stats.overflows), (4, 2));
    let r = stats.throughput();
    assert_eq!(r.num as f64 / r.den as f64, 2.0);
}

#[test]
fn channel_refuses_what_does_not_fit() {
    let p = parse_zero_copy(Some(change(Some("x"), false)), 0).unwrap();
    let mut channel = PacketChannel::new(CHANNEL_CAPACITY);
    for _ in 0..CHANNEL_CAPACITY {
        assert!(channel.try_send(p.clone()).is_none());
    }
    assert_eq!(channel.try_send(p).unwrap().server_name, "x");
}

#[test]
fn full_queue_drops_its_oldest_packet() {
    let mut m = new_metrics();
    let mut w = Watchdog::new(0);
    let mut sched = PriorityScheduler::new();
    let mut stage = QueueStage::new();
    let first = stage.receive(Some(change(Some("first"), true)), &mut w, 7, 1).unwrap();
    assert!(stage.queue(first, 1, &mut sched, Some(&mut m)).is_none());
    for _ in 1..QUEUE_DEPTH {
        let p = stage.receive(Some(change(Some("mid"), true)), &mut w, 7, 1).unwrap();
        assert!(stage.queue(p, 1, &mut sched, Some(&mut m)).is_none());
    }
    let last = stage.receive(Some(change(Some("last"), true)), &mut w, 8, 1).unwrap();
    let ev = stage.queue(last, 9, &mut sched, Some(&mut m)).unwrap();
    assert_eq!(ev.domain, "first");
    assert_eq!(ev.total_drops, 1);
    assert_eq!(ev.dropped_at, 9);
    assert_eq!(m.threaded_overflow_count, 1);
    assert_eq!(m.overflow_log[0].domain, "first");
    assert_eq!(w.last_event_ms(), 8);
    assert_eq!(sched.dequeue_next(0, None).unwrap().server_name, "mid");
    let stats = stage.finish(0);
    assert!(stats.overflows <= stats.events_received);
    assert_eq!((stats.events_received, stats.overflows), (QUEUE_DEPTH as u64 + 1, 1));
    assert_eq!((stats.throughput().num, stats.throughput().den), (0, 1));
}

#[test]
fn runs_are_reported() {
    let mut m = new_metrics();
    let mut stage = ParseStage::new();
    stage.events = 30;
    stage.finish(60_000_000_000).report(&mut m);
    assert_eq!(m.async_events_received, 30);
    assert_eq!((m.async_throughput.num, m.async_throughput.den), (30_000_000_000, 60_000_000_000));
    let mut stage = QueueStage::new();
    stage.events = 5;
    stage.overflows = 2;
    stage.finish(10).report(&mut m);
    assert_eq!((m.threaded_events_received, m.threaded_overflow_count), (5, 2));
    assert_eq!((m.threaded_throughput.num, m.threaded_throughput.den), (5_000_000_000, 1_000_000));
}

#[test]
fn logs_as_text() {
    let mut m = new_metrics();
    assert!(overflow_csv(&m.overflow_log).is_none());
    assert!(deadline_miss_csv(&m.deadline_miss_log).is_none());
    let mut stage = ParseStage::new();
    let mut channel = PacketChannel::new(1);
    for _ in 0..3 {
        let p = parse_zero_copy(Some(change(Some("en.wikipedia.org"), false)), 0).unwrap();
        stage.forward(p, 0, &mut channel, Some(&mut m));
    }
    assert_eq!(
        overflow_csv(&m.overflow_log).unwrap(),
        "total_drops,domain,priority\n1,en.wikipedia.org,High\n2,en.wikipedia.org,High\n"
    );
    m.push_deadline_miss(DeadlineMissEvent {
        occurred_at: 0,
        latency_us: 3_021,
        domain: "de.wikipedia.org".to_owned(),
        priority: Priority::Low,
    });
    assert_eq!(
        deadline_miss_csv(&m.deadline_miss_log).unwrap(),
        "latency_us,domain,priority\n3021.0,de.wikipedia.org,Low\n"
    );
}

fn plan(args: &[&str]) -> RunPlan {
    RunPlan::from_args(&args.iter().map(|a| a.to_string()).collect())
}

#[test]
fn plans_from_arguments() {
    let p = plan(&["monitor"]);
    assert_eq!((p.source, p.demo), (StreamSource::Live, false));
    assert_eq!(p.stress, StressConfig::off());
    assert_eq!(plan(&["monitor", "--mock"]).source, StreamSource::Mock(2_000));
    assert_eq!(plan(&["monitor", "-m"]).source, StreamSource::Mock(2_000));
    let p = plan(&["monitor", "--stress"]);
    assert_eq!(p.source, StreamSource::Live);
    assert_eq!(p.stress, StressConfig::default_stress());
    let p = plan(&["monitor", "--demo", "--stress"]);
    assert_eq!((p.source, p.demo), (StreamSource::Mock(2_000), true));
    assert_eq!(p.stress, StressConfig::default_demo());
    assert_eq!(plan(&["monitor", "--mocks"]).source, StreamSource::Live);
}

#[test]
fn drift_comparison() {
    let mut m = new_metrics();
    assert!(!drift_confirms_priority(&m));
    m.human_drift_us.push(5);
    m.bot_drift_us.push(6);
    assert!(drift_confirms_priority(&m));
}

#[test]
fn allocation_counts() {
    let mut c = AllocCounter::new();
    c.record_alloc();
    c.record_alloc();
    c.record_dealloc();
    assert_eq!(read_counts(&c), (2, 1));
    assert_eq!(reset_and_read(&mut c), (2, 1));
    assert_eq!(read_counts(&c), (0, 0));
    let mut n = 5;
    assert_eq!(alloc_count_since_reset(&mut n), 5);
    assert_eq!(n, 0);
    assert!(is_alloc_free(99, 100));
    assert!(!is_alloc_free(100, 100));
}
