//! The threaded pipeline: raw events are parsed and queued by priority; the
//! scheduler hands them on, human edits first.
//!
//! Backpressure: where the queue of a packet's priority is full, its oldest
//! packet is dropped, counted and logged, and the new one takes a place.

use vstd::prelude::*;

use crate::component_a::async_pipeline::{
    overflow_event, overflow_of, reported_throughput, throughput_of, MIN_DURATION_NS,
};
use crate::component_c::priority_scheduler::{stamped_t1, PriorityScheduler, Waiting};
use crate::component_e::watchdog::Watchdog;
use crate::metrics::{MetricsView, SharedMetrics};
use crate::ratio::Ratio;
use crate::types::{ChangePacket, OverflowEvent, WikiChange};

verus! {

/// Raw events that the channel of the pipeline holds.
pub const CHANNEL_CAPACITY: usize = 512;

/// Statistics of a run.
#[derive(Debug, Clone, Copy, PartialEq, Eq, Structural)]
pub struct ThreadedPipelineStats {
    pub events_received: u64,
    pub overflows: u64,
    pub duration_ns: u64,
}

impl ThreadedPipelineStats {
    pub fn throughput(&self) -> (r: Ratio)
        ensures
            r == throughput_of(self.events_received, self.duration_ns),
    {
        if self.duration_ns > 0 {
            Ratio::events_per_second(self.events_received, self.duration_ns)
        } else {
            Ratio::zero()
        }
    }

    /// Writes the result of the run into the store.
    pub fn report(&self, metrics: &mut SharedMetrics)
        ensures
            final(metrics).wf() == old(metrics).wf(),
            final(metrics)@ == (MetricsView {
                threaded_events_received: self.events_received,
                threaded_overflow_count: self.overflows,
                threaded_throughput: reported_throughput(self.events_received, self.duration_ns),
                ..old(metrics)@
            }),
    {
        let duration_ns: u64 = if self.duration_ns > MIN_DURATION_NS {
            self.duration_ns
        } else {
            MIN_DURATION_NS
        };
        metrics.threaded_events_received = self.events_received;
        metrics.threaded_overflow_count = self.overflows;
        metrics.threaded_throughput = Ratio::events_per_second(self.events_received, duration_ns);
    }
}

/// Packets that wait.
pub open spec fn waiting_count(w: Waiting) -> nat {
    w.high.len() + w.low.len()
}

/// No packet gets lost without being counted: with each packet that comes in,
/// either one more waits, or one is dropped as an overflow.
pub proof fn lemma_packets_are_accounted_for(w: Waiting, pkt: ChangePacket)
    requires
        w.wf(),
    ensures
        waiting_count(w.offered(pkt)) + (if w.is_full(pkt.priority) {
            1nat
        } else {
            0nat
        }) == waiting_count(w) + 1,
{
}

/// What the parse stage counts.
#[derive(Debug, Clone, Copy, PartialEq, Eq, Structural)]
pub struct QueueStage {
    /// Events that were well-formed, modulo 2⁶⁴.
    pub events: u64,
    /// Packets that were dropped.
    pub overflows: u64,
}

impl QueueStage {
    /// No more packets were dropped than events came in.
    pub open spec fn wf(self) -> bool {
        self.overflows <= self.events
    }

    /// One more drop would still not exceed the events: so it is once an event
    /// came in.
    pub open spec fn can_drop(self) -> bool {
        self.overflows < self.events
    }

    /// The counts after well-formed events that were queued, given for each of
    /// them whether a packet had to make room.
    pub open spec fn after(self, drops: Seq<bool>) -> Self
        decreases drops.len(),
    {
        if drops.len() == 0 {
            self
        } else {
            let before = self.after(drops.drop_last());
            QueueStage {
                events: (before.events + 1) as u64,
                overflows: if drops.last() {
                    (before.overflows + 1) as u64
                } else {
                    before.overflows
                },
            }
        }
    }

    /// No run drops more packets than events come in.
    pub proof fn lemma_drops_within_events(drops: Seq<bool>)
        requires
            drops.len() <= u64::MAX,
        ensures
            ({
                let stage = (QueueStage { events: 0, overflows: 0 }).after(drops);
                stage.wf() && stage.events == drops.len()
            }),
        decreases drops.len(),
    {
        if drops.len() > 0 {
            Self::lemma_drops_within_events(drops.drop_last());
        }
    }

    pub fn new() -> (stage: Self)
        ensures
            stage.wf(),
            stage == (QueueStage { events: 0, overflows: 0 }),
    {
        QueueStage { events: 0, overflows: 0 }
    }

    /// Takes in what the parser made of a raw event. A malformed event is
    /// passed over. A well-formed one counts, is a heartbeat for the watchdog,
    /// and becomes a packet that is stamped with T0.
    pub fn receive(
        &mut self,
        parsed: Option<WikiChange<'_>>,
        watchdog: &mut Watchdog,
        now_ms: i64,
        t0: u64,
    ) -> (packet: Option<ChangePacket>)
        ensures
            old(self).wf() && old(self).events < u64::MAX ==> final(self).wf(),
            old(self).wf() && old(self).events < u64::MAX && packet is Some ==> final(self).can_drop(),
            parsed is None ==> packet is None && *final(self) == *old(self) && final(watchdog)@
                == old(watchdog)@,
            parsed matches Some(change) ==> {
                &&& packet matches Some(p)
                &&& p.made_from(&change, t0)
                &&& *final(self) == (QueueStage {
                    events: old(self).events.wrapping_add(1),
                    ..*old(self)
                })
                &&& final(watchdog)@ == old(watchdog)@.beaten(now_ms)
            },
    {
        match parsed {
            None => None,
            Some(change) => {
                self.events = self.events.wrapping_add(1);
                watchdog.heartbeat(now_ms);
                Some(ChangePacket::from_change(&change, t0))
            },
        }
    }

    /// Queues a packet at `now_ns`. Where a packet has to make room for it,
    /// that drop counts; the event that tells of it is logged, unless the
    /// store is out of reach, and returned.
    pub fn queue(
        &mut self,
        pkt: ChangePacket,
        now_ns: u64,
        scheduler: &mut PriorityScheduler,
        metrics: Option<&mut SharedMetrics>,
    ) -> (overflow: Option<OverflowEvent>)
        requires
            old(scheduler).wf(),
            old(self).overflows < u64::MAX,
        ensures
            old(self).can_drop() ==> final(self).wf(),
            final(scheduler).wf(),
            final(scheduler)@ == old(scheduler)@.offered(stamped_t1(pkt, now_ns)),
            final(self).events == old(self).events,
            final(self).overflows == old(self).overflows + (if old(scheduler)@.is_full(
                pkt.priority,
            ) {
                1int
            } else {
                0int
            }),
            overflow is Some <==> old(scheduler)@.is_full(pkt.priority),
            overflow matches Some(ev) ==> ev@ == overflow_of(
                old(scheduler)@.queue(pkt.priority)[0],
                now_ns,
                final(self).overflows,
            ),
            metrics matches Some(m) ==> final(m).wf() == m.wf() && final(m)@ == (if old(
                scheduler,
            )@.is_full(pkt.priority) {
                MetricsView {
                    threaded_overflow_count: final(self).overflows,
                    ..m@
                }.with_overflow(
                    overflow_of(
                        old(scheduler)@.queue(pkt.priority)[0],
                        now_ns,
                        final(self).overflows,
                    ),
                )
            } else {
                m@
            }),
    {
        match scheduler.enqueue_drop_oldest(pkt, now_ns) {
            None => None,
            Some(dropped) => {
                self.overflows = self.overflows + 1;
                if let Some(m) = metrics {
                    m.threaded_overflow_count = self.overflows;
                    m.push_overflow(overflow_event(&dropped, now_ns, self.overflows));
                }
                Some(overflow_event(&dropped, now_ns, self.overflows))
            },
        }
    }

    /// The statistics of a run that took `duration_ns`.
    pub fn finish(&self, duration_ns: u64) -> (stats: ThreadedPipelineStats)
        ensures
            self.wf() ==> stats.overflows <= stats.events_received,
            stats == (ThreadedPipelineStats {
                events_received: self.events,
                overflows: self.overflows,
                duration_ns,
            }),
    {
        ThreadedPipelineStats {
            events_received: self.events,
            overflows: self.overflows,
            duration_ns,
        }
    }
}

} // verus!
