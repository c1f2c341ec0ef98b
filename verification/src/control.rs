//! Types and measurements of the control loop: sensors, actuators and what
//! passes between them.
//!
//! Physical values are whole numbers of millionths of their unit. Times are
//! nanoseconds of the monotonic clock.

use std::collections::VecDeque;
use vstd::prelude::*;

use crate::metrics::{
    lemma_capped_keeps_latest, push_all_capped, push_capped, LatencySamples, WINDOW,
};

verus! {

/// One unit of a physical value.
pub const UNIT: i64 = 1_000_000;

/// Greatest physical value, up or down, that the loop handles.
pub const VALUE_LIMIT: i64 = 1_000_000_000_000_000;

/// Readings of a signal that are kept for the dashboard.
pub const HISTORY: usize = 200;

/// The value is one that the loop handles.
pub open spec fn in_limits(v: i64) -> bool {
    -VALUE_LIMIT <= v <= VALUE_LIMIT
}

#[derive(Debug, Clone, Copy, PartialEq, Eq, Structural)]
pub enum SensorType {
    Force,
    Position,
    Temperature,
}

#[derive(Debug, Clone, Copy, PartialEq, Eq, Structural)]
pub enum ActuatorType {
    Gripper,
    Motor,
    Stabiliser,
}

/// A reading on its way from the sensor to the controller.
#[derive(Debug, Clone, Copy, PartialEq, Eq, Structural)]
pub struct SensorData {
    pub sensor_type: SensorType,
    pub raw_value: i64,
    pub filtered_value: i64,
    pub is_anomaly: bool,
    pub sequence: u64,
    /// T0: the reading was taken.
    pub t0: u64,
    /// T1: it was processed.
    pub t1: Option<u64>,
    /// T2: it was sent to the actuation side.
    pub t2: Option<u64>,
    /// T3: the actuation side received it.
    pub t3: Option<u64>,
}

impl SensorData {
    /// A fresh reading, not filtered yet.
    pub open spec fn fresh(sensor_type: SensorType, raw_value: i64, sequence: u64, t0: u64) -> Self {
        SensorData {
            sensor_type,
            raw_value,
            filtered_value: raw_value,
            is_anomaly: false,
            sequence,
            t0,
            t1: None,
            t2: None,
            t3: None,
        }
    }

    pub fn new(sensor_type: SensorType, raw_value: i64, sequence: u64, t0: u64) -> (data: Self)
        ensures
            data == SensorData::fresh(sensor_type, raw_value, sequence, t0),
    {
        SensorData {
            sensor_type,
            raw_value,
            filtered_value: raw_value,
            is_anomaly: false,
            sequence,
            t0,
            t1: None,
            t2: None,
            t3: None,
        }
    }
}

/// A command to an actuator.
#[derive(Debug, Clone, Copy, PartialEq, Eq, Structural)]
pub struct ControlSignal {
    pub actuator_type: ActuatorType,
    pub setpoint: i64,
    pub measurement: i64,
    pub output: i64,
    pub timestamp: u64,
}

/// What the actuation side tells the processor.
#[derive(Debug, Clone, Copy, PartialEq, Eq, Structural)]
pub struct FeedbackMessage {
    pub actuator_type: ActuatorType,
    pub deadline_miss: bool,
    pub timestamp: u64,
}

/// The latest values of a signal.
#[derive(Debug, Clone)]
pub struct SignalHistory {
    values: VecDeque<i64>,
}

impl View for SignalHistory {
    type V = Seq<i64>;

    closed spec fn view(&self) -> Seq<i64> {
        self.values@
    }
}

impl SignalHistory {
    pub fn new() -> (history: Self)
        ensures
            history@ == Seq::<i64>::empty(),
    {
        SignalHistory { values: VecDeque::new() }
    }

    /// Adds a value; a full history loses its oldest one.
    pub fn push(&mut self, v: i64)
        ensures
            final(self)@ == push_capped(old(self)@, HISTORY as int, v),
    {
        if self.values.len() >= HISTORY {
            self.values.pop_front();
            assert(self@ =~= old(self)@.skip(1));
        }
        self.values.push_back(v);
    }

    /// The values, oldest first.
    pub fn snapshot(&self) -> (values: Vec<i64>)
        ensures
            values@ == self@,
    {
        let n: usize = self.values.len();
        let mut values: Vec<i64> = Vec::with_capacity(n);
        for i in 0..n
            invariant
                n == self@.len(),
                values@ == self@.take(i as int),
        {
            values.push(self.values[i]);
            assert(values@ =~= self@.take(i as int + 1));
        }
        assert(self@.take(n as int) =~= self@);
        values
    }
}

/// Measurements of the control loop.
pub struct ControlMetrics {
    pub sensor_jitter_us: LatencySamples,
    pub total_loop_iterations: u64,
    pub processing_latency_us: LatencySamples,
    pub processor_deadline_misses: u64,
    pub ipc_latency_us: LatencySamples,
    pub ipc_packets_dropped: u64,
    pub e2e_latency_ns: LatencySamples,
    pub pid_latency_ns: LatencySamples,
    pub feedback_latency_ns: LatencySamples,
    pub actuator_dispatch_ns: LatencySamples,
    pub actuator_deadline_misses: u64,
    pub force_values: SignalHistory,
    pub position_values: SignalHistory,
    pub temperature_values: SignalHistory,
    pub gripper_values: SignalHistory,
    pub motor_values: SignalHistory,
    pub stabiliser_values: SignalHistory,
}

/// What the measurements hold.
#[verifier::ext_equal]
pub struct ControlView {
    pub sensor_jitter_us: Seq<u64>,
    pub total_loop_iterations: u64,
    pub processing_latency_us: Seq<u64>,
    pub processor_deadline_misses: u64,
    pub ipc_latency_us: Seq<u64>,
    pub ipc_packets_dropped: u64,
    pub e2e_latency_ns: Seq<u64>,
    pub pid_latency_ns: Seq<u64>,
    pub feedback_latency_ns: Seq<u64>,
    pub actuator_dispatch_ns: Seq<u64>,
    pub actuator_deadline_misses: u64,
    pub force_values: Seq<i64>,
    pub position_values: Seq<i64>,
    pub temperature_values: Seq<i64>,
    pub gripper_values: Seq<i64>,
    pub motor_values: Seq<i64>,
    pub stabiliser_values: Seq<i64>,
}

/// One more sample in a window.
pub open spec fn sampled(window: Seq<u64>, v: u64) -> Seq<u64> {
    push_capped(window, WINDOW as int, v)
}

impl ControlView {
    pub open spec fn initial() -> Self {
        ControlView {
            sensor_jitter_us: Seq::empty(),
            total_loop_iterations: 0,
            processing_latency_us: Seq::empty(),
            processor_deadline_misses: 0,
            ipc_latency_us: Seq::empty(),
            ipc_packets_dropped: 0,
            e2e_latency_ns: Seq::empty(),
            pid_latency_ns: Seq::empty(),
            feedback_latency_ns: Seq::empty(),
            actuator_dispatch_ns: Seq::empty(),
            actuator_deadline_misses: 0,
            force_values: Seq::empty(),
            position_values: Seq::empty(),
            temperature_values: Seq::empty(),
            gripper_values: Seq::empty(),
            motor_values: Seq::empty(),
            stabiliser_values: Seq::empty(),
        }
    }

    /// One more reading of a sensor in its history.
    pub open spec fn with_reading(self, sensor_type: SensorType, v: i64) -> Self {
        match sensor_type {
            SensorType::Force => ControlView {
                force_values: push_capped(self.force_values, HISTORY as int, v),
                ..self
            },
            SensorType::Position => ControlView {
                position_values: push_capped(self.position_values, HISTORY as int, v),
                ..self
            },
            SensorType::Temperature => ControlView {
                temperature_values: push_capped(self.temperature_values, HISTORY as int, v),
                ..self
            },
        }
    }

    /// One more output of an actuator in its history.
    pub open spec fn with_output(self, actuator_type: ActuatorType, v: i64) -> Self {
        match actuator_type {
            ActuatorType::Gripper => ControlView {
                gripper_values: push_capped(self.gripper_values, HISTORY as int, v),
                ..self
            },
            ActuatorType::Motor => ControlView {
                motor_values: push_capped(self.motor_values, HISTORY as int, v),
                ..self
            },
            ActuatorType::Stabiliser => ControlView {
                stabiliser_values: push_capped(self.stabiliser_values, HISTORY as int, v),
                ..self
            },
        }
    }
}

impl View for ControlMetrics {
    type V = ControlView;

    open spec fn view(&self) -> ControlView {
        ControlView {
            sensor_jitter_us: self.sensor_jitter_us@,
            total_loop_iterations: self.total_loop_iterations,
            processing_latency_us: self.processing_latency_us@,
            processor_deadline_misses: self.processor_deadline_misses,
            ipc_latency_us: self.ipc_latency_us@,
            ipc_packets_dropped: self.ipc_packets_dropped,
            e2e_latency_ns: self.e2e_latency_ns@,
            pid_latency_ns: self.pid_latency_ns@,
            feedback_latency_ns: self.feedback_latency_ns@,
            actuator_dispatch_ns: self.actuator_dispatch_ns@,
            actuator_deadline_misses: self.actuator_deadline_misses,
            force_values: self.force_values@,
            position_values: self.position_values@,
            temperature_values: self.temperature_values@,
            gripper_values: self.gripper_values@,
            motor_values: self.motor_values@,
            stabiliser_values: self.stabiliser_values@,
        }
    }
}

impl ControlMetrics {
    pub fn new() -> (metrics: Self)
        ensures
            metrics@ == ControlView::initial(),
    {
        let metrics = ControlMetrics {
            sensor_jitter_us: LatencySamples::new(),
            total_loop_iterations: 0,
            processing_latency_us: LatencySamples::new(),
            processor_deadline_misses: 0,
            ipc_latency_us: LatencySamples::new(),
            ipc_packets_dropped: 0,
            e2e_latency_ns: LatencySamples::new(),
            pid_latency_ns: LatencySamples::new(),
            feedback_latency_ns: LatencySamples::new(),
            actuator_dispatch_ns: LatencySamples::new(),
            actuator_deadline_misses: 0,
            force_values: SignalHistory::new(),
            position_values: SignalHistory::new(),
            temperature_values: SignalHistory::new(),
            gripper_values: SignalHistory::new(),
            motor_values: SignalHistory::new(),
            stabiliser_values: SignalHistory::new(),
        };
        assert(metrics@ =~= ControlView::initial());
        metrics
    }

    /// Records a reading of a sensor.
    pub fn push_reading(&mut self, sensor_type: SensorType, v: i64)
        ensures
            final(self)@ == old(self)@.with_reading(sensor_type, v),
    {
        match sensor_type {
            SensorType::Force => self.force_values.push(v),
            SensorType::Position => self.position_values.push(v),
            SensorType::Temperature => self.temperature_values.push(v),
        }
    }

    /// Records an output of an actuator.
    pub fn push_output(&mut self, actuator_type: ActuatorType, v: i64)
        ensures
            final(self)@ == old(self)@.with_output(actuator_type, v),
    {
        match actuator_type {
            ActuatorType::Gripper => self.gripper_values.push(v),
            ActuatorType::Motor => self.motor_values.push(v),
            ActuatorType::Stabiliser => self.stabiliser_values.push(v),
        }
    }
}

/// A reading enters the history of its own sensor, and an output that of its own
/// actuator, as the latest of two hundred; the others stay.
pub proof fn lemma_histories(m: ControlView, v: i64)
    ensures
        HISTORY == 200,
        ({
            let f = m.with_reading(SensorType::Force, v);
            let p = m.with_reading(SensorType::Position, v);
            let t = m.with_reading(SensorType::Temperature, v);
            &&& f.force_values.len() > 0 && f.force_values.last() == v
            &&& p.position_values.len() > 0 && p.position_values.last() == v
            &&& t.temperature_values.len() > 0 && t.temperature_values.last() == v
            &&& f.position_values == m.position_values && f.temperature_values
                == m.temperature_values
            &&& p.force_values == m.force_values && p.temperature_values == m.temperature_values
            &&& t.force_values == m.force_values && t.position_values == m.position_values
        }),
        ({
            let g = m.with_output(ActuatorType::Gripper, v);
            let o = m.with_output(ActuatorType::Motor, v);
            let s = m.with_output(ActuatorType::Stabiliser, v);
            &&& g.gripper_values.len() > 0 && g.gripper_values.last() == v
            &&& o.motor_values.len() > 0 && o.motor_values.last() == v
            &&& s.stabiliser_values.len() > 0 && s.stabiliser_values.last() == v
            &&& g.motor_values == m.motor_values && g.stabiliser_values == m.stabiliser_values
            &&& o.gripper_values == m.gripper_values && o.stabiliser_values == m.stabiliser_values
            &&& s.gripper_values == m.gripper_values && s.motor_values == m.motor_values
        }),
{
}

/// A history holds the last two hundred values.
pub proof fn lemma_history_keeps_latest(xs: Seq<i64>)
    ensures
        push_all_capped(Seq::<i64>::empty(), HISTORY as int, xs) == (if xs.len() <= 200 {
            xs
        } else {
            xs.skip(xs.len() - 200)
        }),
{
    lemma_capped_keeps_latest(HISTORY as int, xs);
}

} // verus!
