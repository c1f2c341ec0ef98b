//! The front end of the actuation side: stamps a reading and hands it on.

use vstd::prelude::*;

use crate::control::{sampled, ControlMetrics, ControlView, SensorData};
use crate::types::since;

verus! {

/// The front end of the actuation side.
pub struct IpcReceiver;

impl IpcReceiver {
    pub fn new() -> (receiver: Self)
        ensures
            receiver == IpcReceiver,
    {
        IpcReceiver
    }

    /// Stamps T3 on a reading and records how long it took since T0, unless the
    /// measurements are out of reach.
    pub fn receive(
        &self,
        data: SensorData,
        t3: u64,
        metrics: Option<&mut ControlMetrics>,
    ) -> (received: SensorData)
        ensures
            received == (SensorData { t3: Some(t3), ..data }),
            metrics matches Some(m) ==> data.t0 <= t3 ==> final(m)@.e2e_latency_ns.len() > 0
                && final(m)@.e2e_latency_ns.last() == t3 - data.t0,
            metrics matches Some(m) ==> final(m)@ == (ControlView {
                e2e_latency_ns: sampled(m@.e2e_latency_ns, since(data.t0, t3)),
                ..m@
            }),
    {
        let mut received = data;
        received.t3 = Some(t3);
        if let Some(m) = metrics {
            let e2e: u64 = if data.t0 <= t3 {
                t3 - data.t0
            } else {
                0
            };
            m.e2e_latency_ns.push(e2e);
        }
        received
    }
}

} // verus!
