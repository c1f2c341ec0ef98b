//! The async pipeline: raw events are parsed and sent on to the hot path.
//!
//! Backpressure: where the packet channel is full, its oldest packet is dropped,
//! counted and logged, and the new one takes a place.

use vstd::prelude::*;

use crate::component_c::packet_channel::PacketChannel;
use crate::component_e::watchdog::Watchdog;
use crate::metrics::{
    lemma_capped_keeps_latest, push_all_capped, push_capped, MetricsView, SharedMetrics,
};
use crate::ratio::{lemma_throughput, per_second, zero_ratio, Ratio};
use crate::types::{ChangePacket, OverflowEvent, OverflowView, WikiChange};

verus! {

/// Raw events, and packets, that the channels of the pipeline hold.
pub const CHANNEL_CAPACITY: usize = 512;

/// Least duration, in ns, over which throughput is taken.
pub const MIN_DURATION_NS: u64 = 1_000_000;

/// Statistics of a run.
#[derive(Debug, Clone, Copy, PartialEq, Eq, Structural)]
pub struct AsyncPipelineStats {
    pub events_received: u64,
    pub overflows: u64,
    pub duration_ns: u64,
}

/// Events per second, and 0 for a run without duration.
pub open spec fn throughput_of(events: u64, duration_ns: u64) -> Ratio {
    if duration_ns > 0 {
        per_second(events, duration_ns)
    } else {
        zero_ratio()
    }
}

/// Events per second, over at least the least duration.
pub open spec fn reported_throughput(events: u64, duration_ns: u64) -> Ratio {
    per_second(
        events,
        if duration_ns > MIN_DURATION_NS {
            duration_ns
        } else {
            MIN_DURATION_NS
        },
    )
}

impl AsyncPipelineStats {
    pub fn throughput(&self) -> (r: Ratio)
        ensures
            r == throughput_of(self.events_received, self.duration_ns),
    {
        if self.duration_ns > 0 {
            Ratio::events_per_second(self.events_received, self.duration_ns)
        } else {
            Ratio::zero()
        }
    }

    /// Writes the result of the run into the store.
    pub fn report(&self, metrics: &mut SharedMetrics)
        ensures
            final(metrics).wf() == old(metrics).wf(),
            final(metrics)@ == (MetricsView {
                async_events_received: self.events_received,
                async_overflow_count: self.overflows,
                async_throughput: reported_throughput(self.events_received, self.duration_ns),
                ..old(metrics)@
            }),
    {
        let duration_ns: u64 = if self.duration_ns > MIN_DURATION_NS {
            self.duration_ns
        } else {
            MIN_DURATION_NS
        };
        metrics.async_events_received = self.events_received;
        metrics.async_overflow_count = self.overflows;
        metrics.async_throughput = Ratio::events_per_second(self.events_received, duration_ns);
    }
}

/// A throughput is the events over the seconds of the run, or over a millisecond
/// where the run was shorter.
pub proof fn lemma_reported_throughput(events: u64, duration_ns: u64)
    ensures
        duration_ns >= 1_000_000 ==> reported_throughput(events, duration_ns).num * duration_ns
            == events * 1_000_000_000int * reported_throughput(events, duration_ns).den,
        duration_ns < 1_000_000 ==> reported_throughput(events, duration_ns).num * 1_000_000
            == events * 1_000_000_000int * reported_throughput(events, duration_ns).den,
        duration_ns > 0 ==> throughput_of(events, duration_ns).num * duration_ns == events
            * 1_000_000_000int * throughput_of(events, duration_ns).den,
        throughput_of(events, 0).num == 0,
        reported_throughput(events, duration_ns).den > 0,
{
    if duration_ns > 0 {
        lemma_throughput(events, duration_ns);
    }
    lemma_throughput(events, 1_000_000);
}

/// An overflow event tells of the packet that was dropped: its domain, its
/// priority, when, and how many there were so far.
pub proof fn lemma_overflow_names_the_dropped(pkt: ChangePacket, now_ns: u64, total_drops: u64)
    ensures
        ({
            let ev = overflow_of(pkt, now_ns, total_drops);
            &&& ev.domain == pkt.server_name@
            &&& ev.priority == pkt.priority
            &&& ev.dropped_at == now_ns
            &&& ev.total_drops == total_drops
        }),
{
}

/// Packets that come in under drop-oldest backpressure push out the oldest: the
/// most recent ones wait, as many as the channel holds.
pub proof fn lemma_channel_keeps_latest(pkts: Seq<ChangePacket>)
    ensures
        push_all_capped(Seq::empty(), CHANNEL_CAPACITY as int, pkts) == (if pkts.len()
            <= CHANNEL_CAPACITY {
            pkts
        } else {
            pkts.skip(pkts.len() - CHANNEL_CAPACITY)
        }),
        CHANNEL_CAPACITY == 512,
{
    lemma_capped_keeps_latest(CHANNEL_CAPACITY as int, pkts);
}

/// What the parse stage counts.
#[derive(Debug, Clone, Copy, PartialEq, Eq, Structural)]
pub struct ParseStage {
    /// Events that were well-formed.
    pub events: u64,
    /// Packets that were dropped.
    pub overflows: u64,
}

/// The event that tells of the packet's drop.
pub open spec fn overflow_of(pkt: ChangePacket, now_ns: u64, total_drops: u64) -> OverflowView {
    OverflowView {
        dropped_at: now_ns,
        domain: pkt.server_name@,
        priority: pkt.priority,
        total_drops,
    }
}

/// Makes the event that tells of the packet's drop.
pub fn overflow_event(pkt: &ChangePacket, now_ns: u64, total_drops: u64) -> (ev: OverflowEvent)
    ensures
        ev@ == overflow_of(*pkt, now_ns, total_drops),
{
    OverflowEvent {
        dropped_at: now_ns,
        domain: pkt.server_name.clone(),
        priority: pkt.priority,
        total_drops,
    }
}

impl ParseStage {
    /// No more packets were dropped than events came in.
    pub open spec fn wf(self) -> bool {
        self.overflows <= self.events
    }

    /// One more drop would still not exceed the events: so it is once an event
    /// came in.
    pub open spec fn can_drop(self) -> bool {
        self.overflows < self.events
    }

    /// The counts after well-formed events that were sent on, given for each of
    /// them whether a packet had to make room.
    pub open spec fn after(self, drops: Seq<bool>) -> Self
        decreases drops.len(),
    {
        if drops.len() == 0 {
            self
        } else {
            let before = self.after(drops.drop_last());
            ParseStage {
                events: (before.events + 1) as u64,
                overflows: if drops.last() {
                    (before.overflows + 1) as u64
                } else {
                    before.overflows
                },
            }
        }
    }

    /// No run drops more packets than events come in.
    pub proof fn lemma_drops_within_events(drops: Seq<bool>)
        requires
            drops.len() <= u64::MAX,
        ensures
            ({
                let stage = (ParseStage { events: 0, overflows: 0 }).after(drops);
                stage.wf() && stage.events == drops.len()
            }),
        decreases drops.len(),
    {
        if drops.len() > 0 {
            Self::lemma_drops_within_events(drops.drop_last());
        }
    }

    pub fn new() -> (stage: Self)
        ensures
            stage.wf(),
            stage == (ParseStage { events: 0, overflows: 0 }),
    {
        ParseStage { events: 0, overflows: 0 }
    }

    /// Takes in what the parser made of a raw event. A malformed event is
    /// passed over. A well-formed one counts, is a heartbeat for the watchdog,
    /// and becomes a packet that is stamped with T0 and T1.
    pub fn receive(
        &mut self,
        parsed: Option<WikiChange<'_>>,
        watchdog: &mut Watchdog,
        now_ms: i64,
        t0: u64,
        t1: u64,
    ) -> (packet: Option<ChangePacket>)
        requires
            old(self).events < u64::MAX,
        ensures
            old(self).wf() ==> final(self).wf(),
            old(self).wf() && packet is Some ==> final(self).can_drop(),
            parsed is None ==> packet is None && *final(self) == *old(self) && final(watchdog)@
                == old(watchdog)@,
            parsed matches Some(change) ==> {
                &&& packet matches Some(p)
                &&& p.t1 == Some(t1)
                &&& (ChangePacket { t1: None, ..p }).made_from(&change, t0)
                &&& *final(self) == (ParseStage {
                    events: (old(self).events + 1) as u64,
                    ..*old(self)
                })
                &&& final(watchdog)@ == old(watchdog)@.beaten(now_ms)
            },
    {
        match parsed {
            None => None,
            Some(change) => {
                self.events = self.events + 1;
                watchdog.heartbeat(now_ms);
                let mut packet = ChangePacket::from_change(&change, t0);
                packet.t1 = Some(t1);
                Some(packet)
            },
        }
    }

    /// Sends a packet on at `now_ns`. Where a packet has to make room for it,
    /// that drop counts; the event that tells of it is logged, unless the
    /// store is out of reach, and returned.
    pub fn forward(
        &mut self,
        pkt: ChangePacket,
        now_ns: u64,
        channel: &mut PacketChannel,
        metrics: Option<&mut SharedMetrics>,
    ) -> (overflow: Option<OverflowEvent>)
        requires
            old(channel).wf(),
            old(self).overflows < u64::MAX,
        ensures
            old(self).can_drop() ==> final(self).wf(),
            final(channel).wf(),
            final(channel).cap() == old(channel).cap(),
            final(channel)@ == push_capped(old(channel)@, old(channel).cap() as int, pkt),
            final(self).events == old(self).events,
            final(self).overflows == old(self).overflows + (if old(channel).is_full() {
                1int
            } else {
                0int
            }),
            overflow is Some <==> old(channel).is_full(),
            overflow matches Some(ev) ==> ev@ == overflow_of(
                old(channel)@[0],
                now_ns,
                final(self).overflows,
            ),
            metrics matches Some(m) ==> final(m).wf() == m.wf() && final(m)@ == (if old(
                channel,
            ).is_full() {
                MetricsView {
                    async_overflow_count: final(self).overflows,
                    ..m@
                }.with_overflow(
                    overflow_of(old(channel)@[0], now_ns, final(self).overflows),
                )
            } else {
                m@
            }),
    {
        match channel.send_drop_oldest(pkt) {
            None => None,
            Some(dropped) => {
                self.overflows = self.overflows + 1;
                if let Some(m) = metrics {
                    m.async_overflow_count = self.overflows;
                    m.push_overflow(overflow_event(&dropped, now_ns, self.overflows));
                }
                Some(overflow_event(&dropped, now_ns, self.overflows))
            },
        }
    }

    /// The statistics of a run that took `duration_ns`.
    pub fn finish(&self, duration_ns: u64) -> (stats: AsyncPipelineStats)
        ensures
            self.wf() ==> stats.overflows <= stats.events_received,
            stats == (AsyncPipelineStats {
                events_received: self.events,
                overflows: self.overflows,
                duration_ns,
            }),
    {
        AsyncPipelineStats {
            events_received: self.events,
            overflows: self.overflows,
            duration_ns,
        }
    }
}

} // verus!
