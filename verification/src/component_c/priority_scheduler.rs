//! The priority scheduler, and the scheduling drift that it measures.
//!
//! Two bounded queues, one per priority. Dispatch serves the human queue until
//! it is empty before it takes from the bot queue. The drift of a packet is the
//! time from its entry into the queue (T1) to its dispatch (T2).

use vstd::prelude::*;

use crate::component_c::packet_channel::PacketChannel;
use crate::metrics::{
    lemma_capped_keeps_latest, push_all_capped, push_capped, MetricsView, SharedMetrics,
};
use crate::types::{elapsed_us, micros_between, ChangePacket, Priority};

verus! {

/// Packets that each of the two queues holds.
pub const QUEUE_DEPTH: usize = 256;

/// The packets that wait, oldest first.
#[verifier::ext_equal]
pub struct Waiting {
    pub high: Seq<ChangePacket>,
    pub low: Seq<ChangePacket>,
}

impl Waiting {
    pub open spec fn queue(self, priority: Priority) -> Seq<ChangePacket> {
        match priority {
            Priority::High => self.high,
            Priority::Low => self.low,
        }
    }

    pub open spec fn with_queue(self, priority: Priority, queue: Seq<ChangePacket>) -> Self {
        match priority {
            Priority::High => Waiting { high: queue, ..self },
            Priority::Low => Waiting { low: queue, ..self },
        }
    }

    /// Whether a packet of this priority has no place.
    pub open spec fn is_full(self, priority: Priority) -> bool {
        self.queue(priority).len() >= QUEUE_DEPTH
    }

    /// The packet stands at the end of its queue.
    pub open spec fn enqueued(self, pkt: ChangePacket) -> Self {
        self.with_queue(pkt.priority, self.queue(pkt.priority).push(pkt))
    }

    /// The oldest packet of this priority is gone, if there was one.
    pub open spec fn evicted(self, priority: Priority) -> Self {
        if self.queue(priority).len() > 0 {
            self.with_queue(priority, self.queue(priority).skip(1))
        } else {
            self
        }
    }

    pub open spec fn is_empty(self) -> bool {
        self.high.len() == 0 && self.low.len() == 0
    }

    /// The priority that is served next.
    pub open spec fn served(self) -> Priority {
        if self.high.len() > 0 {
            Priority::High
        } else {
            Priority::Low
        }
    }

    /// The packet that is served next.
    pub open spec fn head(self) -> ChangePacket
        recommends
            !self.is_empty(),
    {
        self.queue(self.served())[0]
    }

    /// What waits after one packet was served.
    pub open spec fn dequeued(self) -> Self {
        self.evicted(self.served())
    }

    /// All packets in the order in which they will be served, if none arrives
    /// meanwhile.
    pub open spec fn order(self) -> Seq<ChangePacket> {
        self.high + self.low
    }

    /// The first `n` packets that are served, if none arrives meanwhile.
    pub open spec fn served_first(self, n: nat) -> Seq<ChangePacket>
        decreases n,
    {
        if n == 0 || self.is_empty() {
            Seq::empty()
        } else {
            seq![self.head()] + self.dequeued().served_first((n - 1) as nat)
        }
    }

    /// Every packet waits in the queue of its own priority, and no queue holds
    /// more than its depth.
    pub open spec fn wf(self) -> bool {
        &&& self.high.len() <= QUEUE_DEPTH
        &&& self.low.len() <= QUEUE_DEPTH
        &&& forall|i: int|
            0 <= i < self.high.len() ==> (#[trigger] self.high[i]).priority == Priority::High
        &&& forall|i: int|
            0 <= i < self.low.len() ==> (#[trigger] self.low[i]).priority == Priority::Low
    }

    /// What waits after `pkt` came in with drop-oldest backpressure: a full
    /// queue first loses its oldest packet.
    pub open spec fn offered(self, pkt: ChangePacket) -> Self {
        self.with_queue(
            pkt.priority,
            push_capped(self.queue(pkt.priority), QUEUE_DEPTH as int, pkt),
        )
    }

    /// What waits after each of `pkts` came in, in turn.
    pub open spec fn offered_all(self, pkts: Seq<ChangePacket>) -> Self
        decreases pkts.len(),
    {
        if pkts.len() == 0 {
            self
        } else {
            self.offered_all(pkts.drop_last()).offered(pkts.last())
        }
    }
}

/// The packet with T1 stamped.
pub open spec fn stamped_t1(pkt: ChangePacket, now_ns: u64) -> ChangePacket {
    ChangePacket { t1: Some(now_ns), ..pkt }
}

/// The packet with T2 stamped.
pub open spec fn stamped_t2(pkt: ChangePacket, now_ns: u64) -> ChangePacket {
    ChangePacket { t2: Some(now_ns), ..pkt }
}

/// The store after a packet left its queue at `now_ns`: a packet that entered
/// a queue adds its drift, in whole µs.
pub open spec fn drift_recorded(m: MetricsView, pkt: ChangePacket, now_ns: u64) -> MetricsView {
    match pkt.t1 {
        Some(t1) => m.with_drift(pkt.priority, micros_between(t1, now_ns)),
        None => m,
    }
}

/// Records the drift of a packet that leaves its queue at `now_ns`.
pub fn record_drift(metrics: &mut SharedMetrics, pkt: &ChangePacket, now_ns: u64)
    ensures
        final(metrics)@ == drift_recorded(old(metrics)@, *pkt, now_ns),
        final(metrics).wf() == old(metrics).wf(),
{
    if let Some(t1) = pkt.t1 {
        metrics.push_drift(pkt.priority, elapsed_us(t1, now_ns));
    }
}

/// No bot edit is served while a human edit waits.
pub proof fn lemma_human_first(w: Waiting)
    requires
        w.wf(),
        !w.is_empty(),
    ensures
        w.head().priority == Priority::Low ==> w.high.len() == 0,
        w.high.len() > 0 ==> w.head() == w.high[0] && w.dequeued().low == w.low,
{
}

/// The next packet is the oldest human edit while one waits, and else the oldest
/// bot edit; it alone leaves, and what is left keeps its order.
pub proof fn lemma_next_packet(w: Waiting)
    ensures
        w.high.len() > 0 ==> w.head() == w.high[0] && w.dequeued().high == w.high.skip(1)
            && w.dequeued().low == w.low,
        w.high.len() == 0 && w.low.len() > 0 ==> w.head() == w.low[0] && w.dequeued().low
            == w.low.skip(1) && w.dequeued().high == w.high,
        w.is_empty() <==> w.high.len() + w.low.len() == 0,
        w.is_empty() ==> w.dequeued() == w,
{
}

/// Each queue holds 256 packets. A packet joins the end of the queue of its own
/// priority; where that is full, drop-oldest backpressure takes the oldest
/// packet of that queue, and no other, out of it.
pub proof fn lemma_queue_of_256(w: Waiting, pkt: ChangePacket)
    ensures
        w.is_full(Priority::High) <==> w.high.len() >= 256,
        w.is_full(Priority::Low) <==> w.low.len() >= 256,
        pkt.priority == Priority::High ==> {
            &&& w.enqueued(pkt).high == w.high.push(pkt)
            &&& w.enqueued(pkt).low == w.low
            &&& w.offered(pkt).low == w.low
            &&& w.offered(pkt).high == (if w.high.len() >= 256 {
                w.high.skip(1).push(pkt)
            } else {
                w.high.push(pkt)
            })
        },
        pkt.priority == Priority::Low ==> {
            &&& w.enqueued(pkt).low == w.low.push(pkt)
            &&& w.enqueued(pkt).high == w.high
            &&& w.offered(pkt).high == w.high
            &&& w.offered(pkt).low == (if w.low.len() >= 256 {
                w.low.skip(1).push(pkt)
            } else {
                w.low.push(pkt)
            })
        },
        w.evicted(Priority::High).low == w.low && w.evicted(Priority::Low).high == w.high,
        w.high.len() > 0 ==> w.evicted(Priority::High).high == w.high.skip(1),
        w.low.len() > 0 ==> w.evicted(Priority::Low).low == w.low.skip(1),
        w.queue(Priority::High) == w.high && w.queue(Priority::Low) == w.low,
{
}

/// The drift of a packet is the time it waited, from T1 to its dispatch, in whole
/// microseconds: it is the last drift sample of its own class; the other class,
/// and everything else that is measured, stays. A packet without T1 has none.
pub proof fn lemma_drift_is_waiting_time(m: MetricsView, pkt: ChangePacket, now_ns: u64)
    ensures
        ({
            let after = drift_recorded(m, pkt, now_ns);
            &&& pkt.t1 is None ==> after == m
            &&& after == (MetricsView {
                human_drift_us: after.human_drift_us,
                bot_drift_us: after.bot_drift_us,
                ..m
            })
            &&& pkt.t1 matches Some(t1) ==> {
                let us = if t1 <= now_ns {
                    (now_ns - t1) / 1000
                } else {
                    0
                };
                &&& pkt.priority == Priority::High ==> after.human_drift_us.len() > 0
                    && after.human_drift_us.last() == us && after.bot_drift_us == m.bot_drift_us
                    && (m.human_drift_us.len() < 10_000 ==> after.human_drift_us.drop_last()
                    == m.human_drift_us)
                &&& pkt.priority == Priority::Low ==> after.bot_drift_us.len() > 0
                    && after.bot_drift_us.last() == us && after.human_drift_us == m.human_drift_us
                    && (m.bot_drift_us.len() < 10_000 ==> after.bot_drift_us.drop_last()
                    == m.bot_drift_us)
                &&& after.human_latency_us == m.human_latency_us && after.bot_latency_us
                    == m.bot_latency_us && after.deadline_misses == m.deadline_misses
            }
        }),
{
    let after = drift_recorded(m, pkt, now_ns);
    if pkt.t1 is Some {
        if pkt.priority == Priority::High && m.human_drift_us.len() < 10_000 {
            assert(after.human_drift_us.drop_last() =~= m.human_drift_us);
        }
        if pkt.priority == Priority::Low && m.bot_drift_us.len() < 10_000 {
            assert(after.bot_drift_us.drop_last() =~= m.bot_drift_us);
        }
    }
}

/// A stamp sets its own time and leaves what the packet says.
pub proof fn lemma_stamps(pkt: ChangePacket, now_ns: u64)
    ensures
        stamped_t1(pkt, now_ns) == (ChangePacket { t1: Some(now_ns), ..pkt }),
        stamped_t2(pkt, now_ns) == (ChangePacket { t2: Some(now_ns), ..pkt }),
        stamped_t1(pkt, now_ns).priority == pkt.priority,
        stamped_t2(pkt, now_ns).server_name == pkt.server_name,
{
}

/// Serving follows the order: the packet served is the first of it, and the
/// rest stays as it was.
pub proof fn lemma_serving_follows_order(w: Waiting)
    requires
        !w.is_empty(),
    ensures
        w.head() == w.order()[0],
        w.dequeued().order() == w.order().skip(1),
        w.wf() ==> w.dequeued().wf(),
{
    assert(w.dequeued().order() =~= w.order().skip(1));
}

/// The human queue drains completely, oldest first, before the bot queue does:
/// whoever serves `n` packets gets the first `n` of the order.
pub proof fn lemma_drain_order(w: Waiting, n: nat)
    requires
        n <= w.order().len(),
    ensures
        w.served_first(n) == w.order().take(n as int),
    decreases n,
{
    if n > 0 {
        lemma_serving_follows_order(w);
        lemma_drain_order(w.dequeued(), (n - 1) as nat);
        assert(w.served_first(n) =~= w.order().take(n as int));
    } else {
        assert(w.served_first(n) =~= w.order().take(0));
    }
}

/// A packet that comes in does not overtake any packet of its own priority or
/// of a higher one: of the packets that waited, the order stays the same.
pub proof fn lemma_enqueue_keeps_order(w: Waiting, pkt: ChangePacket)
    ensures
        pkt.priority == Priority::Low ==> w.enqueued(pkt).order() == w.order().push(pkt),
        pkt.priority == Priority::High ==> w.enqueued(pkt).order() == w.high.push(pkt) + w.low,
        !w.is_full(pkt.priority) && w.wf() ==> w.enqueued(pkt).wf(),
{
    if pkt.priority == Priority::Low {
        assert(w.enqueued(pkt).order() =~= w.order().push(pkt));
    }
}

/// Drop-oldest backpressure touches only the queue of the packet's own
/// priority and keeps every queue within its depth.
pub proof fn lemma_offer_is_bounded(w: Waiting, pkt: ChangePacket)
    requires
        w.wf(),
    ensures
        w.offered(pkt).wf(),
        pkt.priority == Priority::High ==> w.offered(pkt).low == w.low,
        pkt.priority == Priority::Low ==> w.offered(pkt).high == w.high,
        w.is_full(pkt.priority) ==> w.offered(pkt) == w.evicted(pkt.priority).enqueued(pkt),
        !w.is_full(pkt.priority) ==> w.offered(pkt) == w.enqueued(pkt),
{
}

/// Packets of one priority that come in under drop-oldest backpressure push
/// out the oldest: the most recent ones wait, as many as the queue holds.
pub proof fn lemma_offers_keep_latest(priority: Priority, pkts: Seq<ChangePacket>)
    requires
        forall|i: int| 0 <= i < pkts.len() ==> (#[trigger] pkts[i]).priority == priority,
    ensures
        ({
            let none = Waiting { high: Seq::empty(), low: Seq::empty() };
            none.offered_all(pkts).queue(priority) == (if pkts.len() <= QUEUE_DEPTH {
                pkts
            } else {
                pkts.skip(pkts.len() - QUEUE_DEPTH)
            })
        }),
{
    lemma_offers_are_capped(priority, pkts);
    lemma_capped_keeps_latest(QUEUE_DEPTH as int, pkts);
}

proof fn lemma_offers_are_capped(priority: Priority, pkts: Seq<ChangePacket>)
    requires
        forall|i: int| 0 <= i < pkts.len() ==> (#[trigger] pkts[i]).priority == priority,
    ensures
        ({
            let none = Waiting { high: Seq::empty(), low: Seq::empty() };
            none.offered_all(pkts).queue(priority) == push_all_capped(
                Seq::empty(),
                QUEUE_DEPTH as int,
                pkts,
            )
        }),
    decreases pkts.len(),
{
    if pkts.len() > 0 {
        let before = pkts.drop_last();
        assert forall|i: int| 0 <= i < before.len() implies (#[trigger] before[i]).priority
            == priority by {
            assert(before[i] == pkts[i]);
        }
        lemma_offers_are_capped(priority, before);
        assert(pkts.last() == pkts[pkts.len() - 1]);
    }
}

/// Two bounded queues of packets, of which the human one is served first.
pub struct PriorityScheduler {
    high: PacketChannel,
    low: PacketChannel,
}

impl View for PriorityScheduler {
    type V = Waiting;

    closed spec fn view(&self) -> Waiting {
        Waiting { high: self.high@, low: self.low@ }
    }
}

impl PriorityScheduler {
    pub closed spec fn wf(&self) -> bool {
        &&& self.high.wf()
        &&& self.low.wf()
        &&& self.high.cap() == QUEUE_DEPTH
        &&& self.low.cap() == QUEUE_DEPTH
        &&& self@.wf()
    }

    /// Whatever happened to a scheduler, its queues are in order.
    pub proof fn lemma_waiting_is_wf(&self)
        requires
            self.wf(),
        ensures
            self@.wf(),
    {
    }

    pub fn new() -> (scheduler: Self)
        ensures
            scheduler.wf(),
            scheduler@ == (Waiting { high: Seq::empty(), low: Seq::empty() }),
    {
        let scheduler = PriorityScheduler {
            high: PacketChannel::new(QUEUE_DEPTH),
            low: PacketChannel::new(QUEUE_DEPTH),
        };
        assert(scheduler@ =~= (Waiting { high: Seq::empty(), low: Seq::empty() }));
        scheduler
    }

    /// Stamps T1 and puts the packet at the end of the queue of its priority.
    /// `false` where that queue is full and the packet is dropped.
    pub fn enqueue(&mut self, pkt: ChangePacket, now_ns: u64) -> (accepted: bool)
        requires
            old(self).wf(),
        ensures
            final(self).wf(),
            accepted == !old(self)@.is_full(pkt.priority),
            final(self)@ == (if accepted {
                old(self)@.enqueued(stamped_t1(pkt, now_ns))
            } else {
                old(self)@
            }),
    {
        let mut pkt = pkt;
        pkt.t1 = Some(now_ns);
        let refused = match pkt.priority {
            Priority::High => self.high.try_send(pkt),
            Priority::Low => self.low.try_send(pkt),
        };
        refused.is_none()
    }

    /// Takes the next packet, human edits first, stamps T2 and records the
    /// drift, unless the store is out of reach.
    pub fn dequeue_next(&mut self, now_ns: u64, metrics: Option<&mut SharedMetrics>) -> (next:
        Option<ChangePacket>)
        requires
            old(self).wf(),
        ensures
            final(self).wf(),
            old(self)@.is_empty() ==> next is None && final(self)@ == old(self)@,
            !old(self)@.is_empty() ==> next == Some(stamped_t2(old(self)@.head(), now_ns)) && final(self)@ == old(self)@.dequeued(),
            metrics matches Some(m) ==> final(m).wf() == m.wf() && final(m)@ == (if old(self)@.is_empty() {
                m@
            } else {
                drift_recorded(m@, old(self)@.head(), now_ns)
            }),
    {
        let taken = match self.high.try_recv() {
            Some(pkt) => Some(pkt),
            None => self.low.try_recv(),
        };
        match taken {
            Some(pkt) => {
                let mut pkt = pkt;
                if let Some(m) = metrics {
                    record_drift(m, &pkt, now_ns);
                }
                pkt.t2 = Some(now_ns);
                Some(pkt)
            },
            None => None,
        }
    }

    /// Takes the oldest packet of this priority out of its queue.
    pub fn evict_oldest(&mut self, priority: Priority) -> (evicted: Option<ChangePacket>)
        requires
            old(self).wf(),
        ensures
            final(self).wf(),
            final(self)@ == old(self)@.evicted(priority),
            evicted == (if old(self)@.queue(priority).len() > 0 {
                Some(old(self)@.queue(priority)[0])
            } else {
                None
            }),
    {
        match priority {
            Priority::High => self.high.try_recv(),
            Priority::Low => self.low.try_recv(),
        }
    }

    /// Puts the packet into the queue of its priority; where that queue is
    /// full, its oldest packet makes room and is handed out.
    pub fn enqueue_drop_oldest(&mut self, pkt: ChangePacket, now_ns: u64) -> (dropped: Option<
        ChangePacket,
    >)
        requires
            old(self).wf(),
        ensures
            final(self).wf(),
            final(self)@ == old(self)@.offered(stamped_t1(pkt, now_ns)),
            dropped == (if old(self)@.is_full(pkt.priority) {
                Some(old(self)@.queue(pkt.priority)[0])
            } else {
                None
            }),
    {
        let mut pkt = pkt;
        pkt.t1 = Some(now_ns);
        match pkt.priority {
            Priority::High => self.high.send_drop_oldest(pkt),
            Priority::Low => self.low.send_drop_oldest(pkt),
        }
    }
}

} // verus!
