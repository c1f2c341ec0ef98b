//! What a run does, from the words of its command line.

use vstd::prelude::*;

use crate::ingestion::StreamSource;
use crate::metrics::{percentile_of, SharedMetrics};
use crate::text::str_eq;
use crate::types::StressConfig;

verus! {

/// Length of a run, in seconds.
pub const RUN_SECS: u64 = 60;

/// Events per second of the mock stream.
pub const MOCK_EPS: u64 = 2_000;

/// What a run does.
#[derive(Debug, Clone, Copy, PartialEq, Eq)]
pub struct RunPlan {
    pub source: StreamSource,
    pub stress: StressConfig,
    /// The phases of the demo are announced.
    pub demo: bool,
}

/// The word is among the arguments.
pub open spec fn has_flag(args: Seq<String>, flag: Seq<char>) -> bool {
    exists|i: int| 0 <= i < args.len() && (#[trigger] args[i])@ == flag
}

fn find_flag(args: &Vec<String>, flag: &str) -> (found: bool)
    ensures
        found == has_flag(args@, flag@),
{
    for i in 0..args.len()
        invariant
            forall|k: int| 0 <= k < i ==> (#[trigger] args@[k])@ != flag@,
    {
        if str_eq(args[i].as_str(), flag) {
            assert(args@[i as int]@ == flag@);
            return true;
        }
    }
    false
}

/// The demo runs on the mock stream.
pub open spec fn asks_for_mock(args: Seq<String>) -> bool {
    has_flag(args, "--mock"@) || has_flag(args, "-m"@) || has_flag(args, "--demo"@)
}

impl RunPlan {
    /// The plan that the arguments ask for: `--mock` or `-m` for the mock
    /// stream, `--stress` for stress all along, `--demo` for the scripted demo.
    pub fn from_args(args: &Vec<String>) -> (plan: Self)
        ensures
            plan.demo == has_flag(args@, "--demo"@),
            plan.demo <==> exists|i: int| 0 <= i < args@.len() && (#[trigger] args@[i])@ == "--demo"@,
            plan.source == StreamSource::Mock(2_000) <==> exists|i: int|
                0 <= i < args@.len() && ((#[trigger] args@[i])@ == "--mock"@ || args@[i]@ == "-m"@
                    || args@[i]@ == "--demo"@),
            plan.stress.enabled <==> exists|i: int|
                0 <= i < args@.len() && ((#[trigger] args@[i])@ == "--demo"@ || args@[i]@
                    == "--stress"@),
            plan.source == (if asks_for_mock(args@) {
                StreamSource::Mock(MOCK_EPS)
            } else {
                StreamSource::Live
            }),
            plan.stress.program_start is None,
            plan.stress.enabled == (has_flag(args@, "--demo"@) || has_flag(args@, "--stress"@)),
            plan.stress.inject_latency_every_nth == (if plan.stress.enabled {
                50u64
            } else {
                0u64
            }),
            plan.stress.inject_window == (if plan.demo {
                Some((15_000_000_000u64, 25_000_000_000u64))
            } else {
                None
            }),
            plan.stress.silence_window == (if plan.stress.enabled {
                Some((25_000_000_000u64, 35_000_000_000u64))
            } else {
                None
            }),
    {
        let demo = find_flag(args, "--demo");
        let mock = find_flag(args, "--mock") || find_flag(args, "-m") || demo;
        let stress = if demo {
            StressConfig::default_demo()
        } else if find_flag(args, "--stress") {
            StressConfig::default_stress()
        } else {
            StressConfig::off()
        };
        let source = if mock {
            StreamSource::Mock(MOCK_EPS)
        } else {
            StreamSource::Live
        };
        RunPlan { source, stress, demo }
    }
}

/// Whether the measured drift shows that human edits were served first: the
/// 99th percentile of their drift is below that of bot edits.
pub fn drift_confirms_priority(metrics: &SharedMetrics) -> (yes: bool)
    ensures
        yes == (percentile_of(metrics@.human_drift_us, 99) < percentile_of(
            metrics@.bot_drift_us,
            99,
        )),
{
    metrics.human_drift_us.p99() < metrics.bot_drift_us.p99()
}

} // verus!
