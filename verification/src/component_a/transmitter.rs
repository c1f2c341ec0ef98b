//! The bridge from the processing side to the actuation side.
//!
//! A reading is sent at once or not at all: where the channel is full it is
//! dropped, so that a slow actuation side never holds up the processing side.

use vstd::prelude::*;

use crate::control::{sampled, ControlMetrics, ControlView, SensorData};
use crate::types::{elapsed_us, micros_between};

verus! {

/// The measurements after an attempt to send from `start_ns` to `end_ns`: a
/// reading that went out adds its latency, one that did not counts as dropped.
pub open spec fn send_measured(m: ControlView, sent: bool, start_ns: u64, end_ns: u64) -> ControlView {
    if sent {
        ControlView {
            ipc_latency_us: sampled(m.ipc_latency_us, micros_between(start_ns, end_ns)),
            ..m
        }
    } else {
        ControlView { ipc_packets_dropped: (m.ipc_packets_dropped + 1) as u64, ..m }
    }
}

/// A reading that went out adds the time it took, in whole microseconds, and no
/// drop; one that did not counts as one drop and adds no time.
pub proof fn lemma_sent_or_dropped(m: ControlView, sent: bool, start_ns: u64, end_ns: u64)
    requires
        start_ns <= end_ns,
        m.ipc_packets_dropped < u64::MAX,
    ensures
        ({
            let after = send_measured(m, sent, start_ns, end_ns);
            &&& sent ==> after.ipc_packets_dropped == m.ipc_packets_dropped
                && after.ipc_latency_us.len() > 0 && after.ipc_latency_us.last() == (end_ns
                - start_ns) / 1000
            &&& !sent ==> after.ipc_packets_dropped == m.ipc_packets_dropped + 1
                && after.ipc_latency_us == m.ipc_latency_us
        }),
{
}

/// The bridge to the actuation side.
pub struct Transmitter;

impl Transmitter {
    pub fn new() -> (transmitter: Self)
        ensures
            transmitter == Transmitter,
    {
        Transmitter
    }

    /// Stamps T2 on a reading that is about to be sent.
    pub fn stamp(&self, data: SensorData, now_ns: u64) -> (stamped: SensorData)
        ensures
            stamped == (SensorData { t2: Some(now_ns), ..data }),
    {
        let mut stamped = data;
        stamped.t2 = Some(now_ns);
        stamped
    }

    /// Takes in whether the reading was sent.
    pub fn settle(&self, sent: bool, start_ns: u64, end_ns: u64, metrics: &mut ControlMetrics)
        requires
            old(metrics).ipc_packets_dropped < u64::MAX,
        ensures
            final(metrics)@ == send_measured(old(metrics)@, sent, start_ns, end_ns),
    {
        if sent {
            metrics.ipc_latency_us.push(elapsed_us(start_ns, end_ns));
        } else {
            metrics.ipc_packets_dropped = metrics.ipc_packets_dropped + 1;
        }
    }
}

} // verus!
