use wiki_rt_monitor::advanced::cpu_load::{
    alu_pass, cache_pass, CpuLoadGenerator, ALU_STEPS, PRESSURE_BUF_SIZE,
};
use wiki_rt_monitor::advanced::dashboard::{render_svg, Dashboard, MetricsSnapshot};
use wiki_rt_monitor::component_a::processor::{Processor, SmaFilter};
use wiki_rt_monitor::component_a::sensor::{deviate, draw_noise, SensorThread, NOISE_DRAWS};
use wiki_rt_monitor::component_a::sync_manager::{SyncManager, SyncMode};
use wiki_rt_monitor::component_a::transmitter::Transmitter;
use wiki_rt_monitor::component_b::actuator::{
    clamp_output, is_addressed, settle_actuation, simulate_actuation, ActuatorRouter,
};
use wiki_rt_monitor::component_b::controller::Controller;
use wiki_rt_monitor::component_b::receiver::IpcReceiver;
use wiki_rt_monitor::control::{
    ActuatorType, ControlMetrics, FeedbackMessage, SensorData, SensorType, HISTORY, UNIT,
};
use wiki_rt_monitor::text::{decimal, one_place, two_places};

#[test]
fn sensor_jitter_and_readings() {
    let mut m = ControlMetrics::new();
    let mut s = SensorThread::new(SensorType::Force, 10 * UNIT, UNIT / 2, 0);
    s.wake(5_002_000, Some(&mut m));
    s.wake(9_999_000, Some(&mut m));
    assert_eq!(m.sensor_jitter_us.snapshot(), vec![2, 3]);
    assert_eq!(m.total_loop_iterations, 2);
    let d = s.read_at(-UNIT, 77, Some(&mut m));
    assert_eq!((d.raw_value, d.sequence, d.t0), (9_500_000, 0, 77));
    assert_eq!(s.read_at(0, 78, None).raw_value, 10 * UNIT);
    assert_eq!(s.read_at(6 * UNIT, 78, None).raw_value, 13 * UNIT);
    assert_eq!(s.read_at(-1, 78, None).raw_value, 10 * UNIT - 1);
    assert_eq!(s.sequence(), 4);
    assert_eq!(m.force_values.snapshot(), vec![9_500_000]);
}

#[test]
fn noise_has_its_standard_deviation() {
    let mut s = SensorThread::new(SensorType::Temperature, 25 * UNIT, UNIT, 0);
    let n = 4_000;
    let mut off = Vec::new();
    for k in 0..n {
        let d = s.read(3, 0, None);
        assert_eq!(d.sequence, k);
        off.push((d.raw_value - 25 * UNIT) as f64 / UNIT as f64);
    }
    let mean = off.iter().sum::<f64>() / n as f64;
    let variance = off.iter().map(|x| (x - mean).powi(2)).sum::<f64>() / n as f64;
    assert!(mean.abs() < 0.06, "mean {mean}");
    assert!((0.93..1.07).contains(&variance.sqrt()), "deviation {}", variance.sqrt());
    let within = off.iter().filter(|x| x.abs() < 1.0).count() as f64 / n as f64;
    assert!((0.65..0.72).contains(&within), "within one deviation: {within}");
    assert!(off.iter().any(|x| x.abs() > 2.0));
    let mut again = SensorThread::new(SensorType::Temperature, 25 * UNIT, UNIT, 0);
    assert_eq!(again.read(3, 0, None).raw_value - 25 * UNIT, (off[0] * 1e6).round() as i64);
    let mut other = SensorThread::new(SensorType::Temperature, 25 * UNIT, UNIT, 0);
    assert_ne!(other.read(4_000_000, 0, None).raw_value - 25 * UNIT, (off[0] * 1e6).round() as i64);
}

#[test]
fn deviates_of_draws() {
    assert_eq!(deviate(&vec![0; 12]), -5_999_994);
    assert_eq!(deviate(&vec![999_999; 12]), 5_999_994);
    assert_eq!(deviate(&vec![0, 999_999, 0, 999_999, 0, 999_999, 0, 999_999, 0, 999_999, 0, 999_999]), 0);
    assert_eq!(deviate(&vec![1, 2, 3, 4, 5, 6, 7, 8, 9, 10, 11, 12]), 78 - 5_999_994);
    let draws = draw_noise(5, 9);
    assert_eq!(draws.len() as u64, NOISE_DRAWS);
    assert!(draws.iter().all(|d| *d < 1_000_000));
    assert_ne!(draws, draw_noise(5, 10));
    assert_eq!(draws, draw_noise(5, 9));
}

#[test]
fn moving_average() {
    let mut f = SmaFilter::new();
    assert_eq!(f.update(8), 8);
    assert_eq!(f.update(-3), 2);
    assert_eq!(f.update(-11), -2);
    for _ in 0..8 {
        f.update(5);
    }
    assert_eq!(f.update(13), 6);
}

fn reading(v: i64) -> SensorData {
    SensorData::new(SensorType::Position, v, 4, 0)
}

#[test]
fn anomalies_stand_out() {
    let mut p = Processor::new();
    let mut sync = SyncManager::new(SyncMode::Mutex);
    for n in 0..20 {
        let d = p.process(reading(5 * UNIT + (n % 2) * 1_000), &mut sync, 9);
        assert!(!d.is_anomaly);
    }
    // Seven readings about 5 and one far off: the distance is 2.64 deviations,
    // below the threshold of 3, as it is for any window of eight.
    let d = p.process(reading(50 * UNIT), &mut sync, 9);
    assert!(!d.is_anomaly);
    assert_eq!(sync.mutex_write_count(), 21);
}

#[test]
fn feedback_moves_the_threshold() {
    let mut p = Processor::new();
    let miss = FeedbackMessage { actuator_type: ActuatorType::Motor, deadline_miss: true, timestamp: 0 };
    let fine = FeedbackMessage { deadline_miss: false, ..miss };
    p.take_feedback(fine);
    p.take_feedback(miss);
    for _ in 0..20 {
        p.take_feedback(miss);
    }
    p.take_feedback(fine);
    let mut f = SmaFilter::new();
    f.update(0);
    f.update(UNIT);
    assert!(f.is_anomaly(100 * UNIT, 600));
    assert!(!f.is_anomaly(UNIT / 2, 300));
}

#[test]
fn processing_is_measured() {
    let mut m = ControlMetrics::new();
    let p = Processor::new();
    let mut taken = reading(1);
    taken.t0 = 1_000;
    let d = p.finish(taken, 151_000, 201_000, Some(&mut m));
    assert_eq!(d.t1, Some(201_000));
    assert_eq!(m.processor_deadline_misses, 0);
    p.finish(taken, 151_000, 201_001, Some(&mut m));
    assert_eq!(m.processor_deadline_misses, 1);
    assert_eq!(m.processing_latency_us.snapshot(), vec![50, 50]);
    p.finish_task(1_000, 201_000, &mut m);
    assert_eq!(m.processor_deadline_misses, 1);
    p.finish_task(1_000, 201_001, &mut m);
    assert_eq!(m.processor_deadline_misses, 2);
    assert_eq!(m.processing_latency_us.snapshot(), vec![50, 50, 200, 200]);
}

#[test]
fn filtering_keeps_sensors_apart() {
    let mut p = Processor::new();
    let force = SensorData::new(SensorType::Force, 10, 0, 0);
    assert_eq!(p.filter(reading(4)).filtered_value, 4);
    assert_eq!(p.filter(force).filtered_value, 10);
    let d = p.filter(reading(8));
    assert_eq!((d.filtered_value, d.raw_value, d.is_anomaly, d.t1), (6, 8, false, None));
}

#[test]
fn records_in_each_mode() {
    let mut s = SyncManager::new(SyncMode::Mutex);
    for n in 0..4_097 {
        s.record_sample(SensorType::Force, n, n as u64, 0);
    }
    assert_eq!(s.mutex_write_count(), 4_097);
    let mut s = SyncManager::new(SyncMode::Atomic);
    s.record_sample(SensorType::Force, 1, 1, 1);
    assert_eq!(s.atomic_sample_count(), 1);
    assert_eq!(s.mode(), SyncMode::Atomic);
    let mut s = SyncManager::new(SyncMode::LockFree);
    for n in 0..515 {
        s.record_sample(SensorType::Temperature, n, n as u64, 2);
    }
    assert_eq!(s.lock_free_drop_count(), 3);
    let taken = s.consume();
    assert_eq!(taken.len(), 512);
    assert_eq!((taken[0].value, taken[511].value, taken[511].timestamp), (0, 511, 2));
    assert!(s.consume().is_empty());
    s.record_sample(SensorType::Temperature, 9, 9, 3);
    assert_eq!(s.consume()[0].value, 9);
}

#[test]
fn bridge_counts_drops() {
    let mut m = ControlMetrics::new();
    let t = Transmitter::new();
    assert_eq!(t.stamp(reading(1), 8).t2, Some(8));
    t.settle(true, 0, 5_000, &mut m);
    t.settle(false, 0, 5_000, &mut m);
    assert_eq!(m.ipc_latency_us.snapshot(), vec![5]);
    assert_eq!(m.ipc_packets_dropped, 1);
}

#[test]
fn end_to_end_latency() {
    let mut m = ControlMetrics::new();
    let mut d = reading(1);
    d.t0 = 100;
    assert_eq!(IpcReceiver::new().receive(d, 350, Some(&mut m)).t3, Some(350));
    assert_eq!(m.e2e_latency_ns.snapshot(), vec![250]);
}

#[test]
fn control_decisions() {
    let mut m = ControlMetrics::new();
    let c = Controller::new();
    assert_eq!(c.assignment(SensorType::Force), (ActuatorType::Gripper, 10 * UNIT));
    assert_eq!(c.assignment(SensorType::Position), (ActuatorType::Motor, 5 * UNIT));
    assert_eq!(c.assignment(SensorType::Temperature), (ActuatorType::Stabiliser, 25 * UNIT));
    let fb = c.report(&reading(1), 0, 2_000_000, Some(&mut m));
    assert!(!fb.deadline_miss);
    let fb = c.report(&reading(1), 0, 2_000_001, Some(&mut m));
    assert!(fb.deadline_miss);
    assert_eq!(fb.actuator_type, ActuatorType::Motor);
    assert_eq!(m.actuator_deadline_misses, 1);
    assert_eq!(m.pid_latency_ns.snapshot(), vec![2_000_000, 2_000_001]);
    c.settle_report(3, 10, &mut m);
    assert_eq!(m.feedback_latency_ns.snapshot(), vec![7]);
    let s = c.signal(&reading(1), -9, 4);
    assert_eq!((s.setpoint, s.measurement, s.output, s.timestamp), (5 * UNIT, 1, -9, 4));
}

#[test]
fn actuation() {
    assert_eq!(clamp_output(101 * UNIT), 100 * UNIT);
    assert_eq!(clamp_output(-101 * UNIT), -100 * UNIT);
    assert_eq!(clamp_output(7), 7);
    assert_eq!(simulate_actuation(ActuatorType::Gripper, 2), 170);
    assert_eq!(simulate_actuation(ActuatorType::Motor, -1), -92);
    assert_eq!(simulate_actuation(ActuatorType::Stabiliser, 1), 78);
    let mut m = ControlMetrics::new();
    let signal = Controller::new().signal(&reading(1), 200 * UNIT, 0);
    assert!(is_addressed(ActuatorType::Motor, &signal));
    assert!(!is_addressed(ActuatorType::Gripper, &signal));
    assert_eq!(ActuatorRouter.route(&signal), 1);
    let late = settle_actuation(ActuatorType::Motor, &signal, 0, 2_000_001, Some(&mut m));
    assert!(late.deadline_miss);
    assert_eq!((late.actuator_type, late.timestamp), (ActuatorType::Motor, 2_000_001));
    let fine = settle_actuation(ActuatorType::Motor, &signal, 5, 2_000_005, None);
    assert_eq!(fine, FeedbackMessage { deadline_miss: false, timestamp: 2_000_005, ..late });
    assert_eq!(m.motor_values.snapshot(), vec![100 * UNIT]);
    assert_eq!(m.actuator_deadline_misses, 1);
    assert_eq!(m.actuator_dispatch_ns.snapshot(), vec![2_000_001]);
}

#[test]
fn histories_keep_the_latest() {
    let mut m = ControlMetrics::new();
    for n in 0..(HISTORY as i64 + 2) {
        m.push_reading(SensorType::Temperature, n);
    }
    assert_eq!(m.temperature_values.snapshot()[0], 2);
    assert_eq!(m.temperature_values.snapshot().len(), HISTORY);
}

#[test]
fn noise_threads() {
    let mut g = CpuLoadGenerator::default();
    assert!(!g.stopped());
    g.stop();
    assert!(g.stopped());
    g.reset();
    assert!(!g.stopped());
    let mut acc = 3u64;
    for i in 0..ALU_STEPS {
        acc = acc.wrapping_mul(6_364_136_223_846_793_005).wrapping_add(1_442_695_040_888_963_407) ^ i;
    }
    assert_eq!(alu_pass(3), acc);
    let mut buf = vec![1u8; PRESSURE_BUF_SIZE];
    let after = cache_pass(&mut buf, 0x1FF);
    assert_eq!((buf[0], buf[1], buf[64]), (0xFF, 1, 0xFF));
    assert_eq!((buf[128], buf[192]), (0x3F, 0xBF));
    let sum: u64 = (0..(PRESSURE_BUF_SIZE as u64 / 64)).map(|k| k * 64).sum();
    assert_eq!(after, 0x1FF + sum);
}

#[test]
fn numbers_as_text() {
    assert_eq!(decimal(0), "0");
    assert_eq!(decimal(u128::MAX), format!("{}", u128::MAX));
    assert_eq!(one_place(1, 4), "0.2");
    assert_eq!(one_place(3, 4), "0.8");
    assert_eq!(one_place(129, 10), "12.9");
    assert_eq!(two_places(1, 3), "0.33");
    assert_eq!(two_places(2_007, 1_000), "2.01");
    assert_eq!(two_places(5, 1), "5.00");
}

#[test]
fn empty_picture() {
    let m = ControlMetrics::new();
    let svg = render_svg(&MetricsSnapshot::take(&m));
    assert!(svg.starts_with("<svg xmlns='http://www.w3.org/2000/svg' width='900' height='600'>\n<rect width='100%' height='100%' fill='#1a1a2e'/>\n"));
    assert!(svg.contains("<rect x='20' y='55' width='200' height='50' rx='6' fill='#16213e'/>\n<text x='30' y='71' fill='#a0b4d0' font-size='11'>Iterations</text>\n<text x='30' y='95' fill='#00d4ff' font-size='18' font-weight='bold'>0</text>\n"));
    assert!(svg.contains(">-infµs<"));
    assert!(svg.contains(">0.00ms<"));
    assert!(svg.ends_with("</svg>"));
    assert!(!svg.contains("polyline"));
}

#[test]
fn picture_with_values() {
    let mut m = ControlMetrics::new();
    m.push_reading(SensorType::Force, 0);
    m.push_reading(SensorType::Force, UNIT);
    m.push_reading(SensorType::Force, UNIT / 2);
    m.sensor_jitter_us.push(1);
    m.sensor_jitter_us.push(2);
    m.e2e_latency_ns.push(2_345_678);
    m.ipc_packets_dropped = 12;
    let svg = render_svg(&MetricsSnapshot::take(&m));
    assert!(svg.contains("<rect x='20' y='195' width='270' height='160' rx='4' fill='#0f3460'/>\n<text x='26' y='209' fill='#a0b4d0' font-size='10'>Force (N)</text>\n<polyline points='20,355 110,215 200,285' fill='none' stroke='#ff6b6b' stroke-width='1.5'/>\n"));
    assert!(svg.contains(">1.5µs<"));
    assert!(svg.contains(">2.0µs<"));
    assert!(svg.contains(">2.35ms<"));
    assert!(svg.contains(">12<"));
}

#[test]
fn http_response() {
    let mut d = Dashboard::new();
    assert!(d.response().contains("Waiting for data…"));
    d.show("µ".to_owned());
    assert_eq!(
        d.response(),
        "HTTP/1.1 200 OK\r\nContent-Type: image/svg+xml\r\nContent-Length: 2\r\nCache-Control: no-cache\r\nAccess-Control-Allow-Origin: *\r\n\r\nµ"
    );
}
