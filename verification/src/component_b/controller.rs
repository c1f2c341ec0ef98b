//! The controller: which actuator a reading drives, and to which value.

use vstd::prelude::*;

use crate::control::{
    sampled, ActuatorType, ControlMetrics, ControlSignal, ControlView, FeedbackMessage, SensorData,
    SensorType,
};
use crate::types::since;

verus! {

/// Deadline of a control computation, in ns.
pub const CTRL_DEADLINE_NS: u64 = 2_000_000;

/// Force that the gripper holds: 10 N.
pub const FORCE_SETPOINT: i64 = 10_000_000;

/// Position that the motor holds: 5 mm.
pub const POSITION_SETPOINT: i64 = 5_000_000;

/// Temperature that the stabiliser holds: 25 °C.
pub const TEMPERATURE_SETPOINT: i64 = 25_000_000;

/// The actuator that a sensor drives.
pub open spec fn driven(sensor_type: SensorType) -> ActuatorType {
    match sensor_type {
        SensorType::Force => ActuatorType::Gripper,
        SensorType::Position => ActuatorType::Motor,
        SensorType::Temperature => ActuatorType::Stabiliser,
    }
}

/// The value that a sensor is to show.
pub open spec fn target(sensor_type: SensorType) -> i64 {
    match sensor_type {
        SensorType::Force => FORCE_SETPOINT,
        SensorType::Position => POSITION_SETPOINT,
        SensorType::Temperature => TEMPERATURE_SETPOINT,
    }
}

/// No two sensors drive the same actuator.
pub proof fn lemma_actuators_are_exclusive(a: SensorType, b: SensorType)
    requires
        driven(a) == driven(b),
    ensures
        a == b,
{
}

/// The computation took longer than its deadline.
pub open spec fn is_late(start_ns: u64, end_ns: u64) -> bool {
    since(start_ns, end_ns) > CTRL_DEADLINE_NS
}

/// The measurements after a control computation from `start_ns` to `end_ns`.
pub open spec fn control_measured(m: ControlView, start_ns: u64, end_ns: u64) -> ControlView {
    let measured = ControlView {
        pid_latency_ns: sampled(m.pid_latency_ns, since(start_ns, end_ns)),
        ..m
    };
    if is_late(start_ns, end_ns) {
        ControlView {
            actuator_deadline_misses: (m.actuator_deadline_misses + 1) as u64,
            ..measured
        }
    } else {
        measured
    }
}

/// The controller.
pub struct Controller;

impl Controller {
    pub fn new() -> (controller: Self)
        ensures
            controller == Controller,
    {
        Controller
    }

    /// The actuator that a sensor drives, and the value to hold.
    pub fn assignment(&self, sensor_type: SensorType) -> (assignment: (ActuatorType, i64))
        ensures
            assignment == (driven(sensor_type), target(sensor_type)),
    {
        match sensor_type {
            SensorType::Force => (ActuatorType::Gripper, FORCE_SETPOINT),
            SensorType::Position => (ActuatorType::Motor, POSITION_SETPOINT),
            SensorType::Temperature => (ActuatorType::Stabiliser, TEMPERATURE_SETPOINT),
        }
    }

    /// Holds a control computation that ran from `start_ns` to `end_ns` against
    /// its deadline, takes the measurements, unless they are out of reach, and
    /// makes the report to the processing side.
    pub fn report(
        &self,
        data: &SensorData,
        start_ns: u64,
        end_ns: u64,
        metrics: Option<&mut ControlMetrics>,
    ) -> (feedback: FeedbackMessage)
        requires
            metrics matches Some(m) ==> m.actuator_deadline_misses < u64::MAX,
        ensures
            feedback == (FeedbackMessage {
                actuator_type: driven(data.sensor_type),
                deadline_miss: is_late(start_ns, end_ns),
                timestamp: end_ns,
            }),
            metrics matches Some(m) ==> final(m)@ == control_measured(m@, start_ns, end_ns),
    {
        let latency: u64 = if start_ns <= end_ns {
            end_ns - start_ns
        } else {
            0
        };
        let deadline_miss = latency > CTRL_DEADLINE_NS;
        if let Some(m) = metrics {
            m.pid_latency_ns.push(latency);
            if deadline_miss {
                m.actuator_deadline_misses = m.actuator_deadline_misses + 1;
            }
        }
        let (actuator_type, _) = self.assignment(data.sensor_type);
        FeedbackMessage { actuator_type, deadline_miss, timestamp: end_ns }
    }

    /// Records how long it took to send a report.
    pub fn settle_report(&self, start_ns: u64, end_ns: u64, metrics: &mut ControlMetrics)
        ensures
            final(metrics)@ == (ControlView {
                feedback_latency_ns: sampled(
                    old(metrics)@.feedback_latency_ns,
                    since(start_ns, end_ns),
                ),
                ..old(metrics)@
            }),
    {
        let latency: u64 = if start_ns <= end_ns {
            end_ns - start_ns
        } else {
            0
        };
        metrics.feedback_latency_ns.push(latency);
    }

    /// The command for a reading, with the output that the control loop
    /// computed for it.
    pub fn signal(&self, data: &SensorData, output: i64, now_ns: u64) -> (signal: ControlSignal)
        ensures
            signal == (ControlSignal {
                actuator_type: driven(data.sensor_type),
                setpoint: target(data.sensor_type),
                measurement: data.filtered_value,
                output,
                timestamp: now_ns,
            }),
    {
        let (actuator_type, setpoint) = self.assignment(data.sensor_type);
        ControlSignal {
            actuator_type,
            setpoint,
            measurement: data.filtered_value,
            output,
            timestamp: now_ns,
        }
    }
}

/// Which actuator each sensor drives, and to which value: force holds the
/// gripper at 10, position the motor at 5, temperature the stabiliser at 25
/// units.
pub proof fn lemma_control_table()
    ensures
        driven(SensorType::Force) == ActuatorType::Gripper,
        driven(SensorType::Position) == ActuatorType::Motor,
        driven(SensorType::Temperature) == ActuatorType::Stabiliser,
        target(SensorType::Force) == 10_000_000,
        target(SensorType::Position) == 5_000_000,
        target(SensorType::Temperature) == 25_000_000,
{
}

/// A control computation misses its deadline exactly where it took more than two
/// milliseconds; its time is recorded either way.
pub proof fn lemma_control_deadline(m: ControlView, start_ns: u64, end_ns: u64)
    requires
        start_ns <= end_ns,
        m.actuator_deadline_misses < u64::MAX,
    ensures
        is_late(start_ns, end_ns) <==> end_ns - start_ns > 2_000_000,
        ({
            let after = control_measured(m, start_ns, end_ns);
            &&& after.actuator_deadline_misses == m.actuator_deadline_misses + (if end_ns - start_ns
                > 2_000_000 {
                1int
            } else {
                0int
            })
            &&& after.pid_latency_ns.len() > 0 && after.pid_latency_ns.last() == end_ns - start_ns
        }),
{
}

} // verus!
