//! The actuators: each carries out the commands that are meant for it.

use vstd::prelude::*;

use crate::control::{
    sampled, ActuatorType, ControlMetrics, ControlSignal, ControlView, FeedbackMessage,
};
use crate::types::since;

verus! {

/// Deadline of an actuation, in ns.
pub const ACTUATOR_DEADLINE_NS: u64 = 2_000_000;

/// Commands that the channel of an actuator holds.
pub const ACTUATOR_QUEUE: usize = 32;

/// Greatest output, up or down: 100 units.
pub const OUTPUT_LIMIT: i64 = 100_000_000;

/// The output within the safe range.
pub open spec fn clamped(output: i64) -> i64 {
    if output < -OUTPUT_LIMIT {
        -OUTPUT_LIMIT as i64
    } else if output > OUTPUT_LIMIT {
        OUTPUT_LIMIT
    } else {
        output
    }
}

/// How much of its output an actuator turns into motion, in hundredths.
pub open spec fn efficiency(actuator_type: ActuatorType) -> int {
    match actuator_type {
        ActuatorType::Gripper => 85,
        ActuatorType::Motor => 92,
        ActuatorType::Stabiliser => 78,
    }
}

/// The output within the safe range.
pub fn clamp_output(output: i64) -> (safe: i64)
    ensures
        safe == clamped(output),
        -OUTPUT_LIMIT <= safe <= OUTPUT_LIMIT,
{
    if output < -OUTPUT_LIMIT {
        -OUTPUT_LIMIT
    } else if output > OUTPUT_LIMIT {
        OUTPUT_LIMIT
    } else {
        output
    }
}

/// The physical response of an actuator to an output in the safe range, in
/// hundredths of millionths of its unit.
pub fn simulate_actuation(actuator_type: ActuatorType, output: i64) -> (response: i64)
    requires
        -OUTPUT_LIMIT <= output <= OUTPUT_LIMIT,
    ensures
        response == output * efficiency(actuator_type),
{
    match actuator_type {
        ActuatorType::Gripper => output * 85,
        ActuatorType::Motor => output * 92,
        ActuatorType::Stabiliser => output * 78,
    }
}

/// Number of the channel that a command goes into.
pub open spec fn channel_number(actuator_type: ActuatorType) -> usize {
    match actuator_type {
        ActuatorType::Gripper => 0,
        ActuatorType::Motor => 1,
        ActuatorType::Stabiliser => 2,
    }
}

/// Each actuator has a channel of its own.
pub proof fn lemma_channels_are_exclusive(a: ActuatorType, b: ActuatorType)
    requires
        channel_number(a) == channel_number(b),
    ensures
        a == b,
{
}

/// Splits the commands between the channels of the actuators.
pub struct ActuatorRouter;

impl ActuatorRouter {
    /// Number of the channel that a command goes into.
    pub fn route(&self, signal: &ControlSignal) -> (channel: usize)
        ensures
            channel == channel_number(signal.actuator_type),
            channel < 3,
    {
        match signal.actuator_type {
            ActuatorType::Gripper => 0,
            ActuatorType::Motor => 1,
            ActuatorType::Stabiliser => 2,
        }
    }
}

/// The actuation took longer than its deadline.
pub open spec fn is_late_actuation(start_ns: u64, end_ns: u64) -> bool {
    since(start_ns, end_ns) > ACTUATOR_DEADLINE_NS
}

/// The measurements after an actuation from `start_ns` to `end_ns`.
pub open spec fn actuation_measured(
    m: ControlView,
    actuator_type: ActuatorType,
    output: i64,
    start_ns: u64,
    end_ns: u64,
) -> ControlView {
    let measured = ControlView {
        actuator_dispatch_ns: sampled(m.actuator_dispatch_ns, since(start_ns, end_ns)),
        actuator_deadline_misses: if is_late_actuation(start_ns, end_ns) {
            (m.actuator_deadline_misses + 1) as u64
        } else {
            m.actuator_deadline_misses
        },
        ..m
    };
    measured.with_output(actuator_type, clamped(output))
}

/// Whether a command on a shared channel is meant for this actuator.
pub fn is_addressed(actuator_type: ActuatorType, signal: &ControlSignal) -> (yes: bool)
    ensures
        yes == (signal.actuator_type == actuator_type),
{
    signal.actuator_type == actuator_type
}

/// Holds an actuation that ran from `start_ns` to `end_ns` against its deadline,
/// takes the measurements, unless they are out of reach, and makes the report
/// to the processing side.
pub fn settle_actuation(
    actuator_type: ActuatorType,
    signal: &ControlSignal,
    start_ns: u64,
    end_ns: u64,
    metrics: Option<&mut ControlMetrics>,
) -> (feedback: FeedbackMessage)
    requires
        metrics matches Some(m) ==> m.actuator_deadline_misses < u64::MAX,
    ensures
        feedback == (FeedbackMessage {
            actuator_type,
            deadline_miss: is_late_actuation(start_ns, end_ns),
            timestamp: end_ns,
        }),
        metrics matches Some(m) ==> final(m)@ == actuation_measured(
            m@,
            actuator_type,
            signal.output,
            start_ns,
            end_ns,
        ),
{
    let latency: u64 = if start_ns <= end_ns {
        end_ns - start_ns
    } else {
        0
    };
    let deadline_miss = latency > ACTUATOR_DEADLINE_NS;
    if let Some(m) = metrics {
        m.actuator_dispatch_ns.push(latency);
        if deadline_miss {
            m.actuator_deadline_misses = m.actuator_deadline_misses + 1;
        }
        m.push_output(actuator_type, clamp_output(signal.output));
    }
    FeedbackMessage { actuator_type, deadline_miss, timestamp: end_ns }
}

/// An output within a hundred units either way is applied as it is; one beyond
/// becomes the nearer limit.
pub proof fn lemma_output_is_clamped(output: i64)
    ensures
        -100_000_000 <= output <= 100_000_000 ==> clamped(output) == output,
        output > 100_000_000 ==> clamped(output) == 100_000_000,
        output < -100_000_000 ==> clamped(output) == -100_000_000,
{
}

/// An actuation misses its deadline exactly where it took more than two
/// milliseconds. Its time and its output are recorded, the output as it was
/// applied.
pub proof fn lemma_actuation_deadline(
    m: ControlView,
    actuator_type: ActuatorType,
    output: i64,
    start_ns: u64,
    end_ns: u64,
)
    requires
        start_ns <= end_ns,
        m.actuator_deadline_misses < u64::MAX,
    ensures
        is_late_actuation(start_ns, end_ns) <==> end_ns - start_ns > 2_000_000,
        ({
            let after = actuation_measured(m, actuator_type, output, start_ns, end_ns);
            &&& after.actuator_deadline_misses == m.actuator_deadline_misses + (if end_ns - start_ns
                > 2_000_000 {
                1int
            } else {
                0int
            })
            &&& after.actuator_dispatch_ns.len() > 0 && after.actuator_dispatch_ns.last() == end_ns
                - start_ns
            &&& actuator_type == ActuatorType::Gripper ==> after.gripper_values.last() == clamped(
                output,
            ) && after.motor_values == m.motor_values && after.stabiliser_values
                == m.stabiliser_values
            &&& actuator_type == ActuatorType::Motor ==> after.motor_values.last() == clamped(
                output,
            ) && after.gripper_values == m.gripper_values && after.stabiliser_values
                == m.stabiliser_values
            &&& actuator_type == ActuatorType::Stabiliser ==> after.stabiliser_values.last()
                == clamped(output) && after.gripper_values == m.gripper_values
                && after.motor_values == m.motor_values
        }),
{
}

/// How much of an output becomes motion, and the channel of each actuator.
pub proof fn lemma_actuator_tables()
    ensures
        efficiency(ActuatorType::Gripper) == 85,
        efficiency(ActuatorType::Motor) == 92,
        efficiency(ActuatorType::Stabiliser) == 78,
        channel_number(ActuatorType::Gripper) == 0,
        channel_number(ActuatorType::Motor) == 1,
        channel_number(ActuatorType::Stabiliser) == 2,
{
}

} // verus!
