//! A bounded first-in-first-out queue of packets, on a crossbeam channel.

use crossbeam::channel::{bounded, Receiver, Sender, TrySendError};
use vstd::prelude::*;

use crate::metrics::push_capped;
use crate::types::ChangePacket;

verus! {

/// Greatest capacity for which a channel is made. All its places are allocated
/// at once, which fails for one that is far larger.
pub const MAX_CAPACITY: usize = 1_000_000;

/// The sending half of a crossbeam channel.
#[verifier::external_type_specification]
#[verifier::external_body]
#[verifier::reject_recursive_types(T)]
pub struct ExSender<T>(Sender<T>);

/// The receiving half of a crossbeam channel.
#[verifier::external_type_specification]
#[verifier::external_body]
#[verifier::reject_recursive_types(T)]
pub struct ExReceiver<T>(Receiver<T>);

/// The packets that wait in a channel, oldest first.
pub uninterp spec fn queued(rx: Receiver<ChangePacket>) -> Seq<ChangePacket>;

/// How many packets a channel was made for.
pub uninterp spec fn capacity(rx: Receiver<ChangePacket>) -> nat;

/// The two halves belong to one channel, and no other handle to it exists.
pub uninterp spec fn joined(tx: Sender<ChangePacket>, rx: Receiver<ChangePacket>) -> bool;

/// `crossbeam::channel::bounded`: makes an empty channel for `cap` packets and
/// hands out its only two handles.
#[verifier::external_body]
fn channel_bounded(cap: usize) -> (halves: (Sender<ChangePacket>, Receiver<ChangePacket>))
    requires
        0 < cap <= MAX_CAPACITY,
    ensures
        joined(halves.0, halves.1),
        queued(halves.1) == Seq::<ChangePacket>::empty(),
        capacity(halves.1) == cap,
{
    bounded(cap)
}

/// `Sender::try_send` of crossbeam, on a channel of which these are the only
/// handles, so that it is not disconnected: a packet goes to the end of the
/// queue, unless the queue is full; then it is handed back and nothing changes.
/// The receiver is lent so that the contract can speak of the queue.
#[verifier::external_body]
fn channel_try_send(
    tx: &mut Sender<ChangePacket>,
    rx: &mut Receiver<ChangePacket>,
    pkt: ChangePacket,
) -> (refused: Option<ChangePacket>)
    requires
        joined(*old(tx), *old(rx)),
    ensures
        joined(*final(tx), *final(rx)),
        capacity(*final(rx)) == capacity(*old(rx)),
        queued(*old(rx)).len() < capacity(*old(rx)) ==> refused is None && queued(*final(rx))
            == queued(*old(rx)).push(pkt),
        queued(*old(rx)).len() >= capacity(*old(rx)) ==> refused == Some(pkt) && queued(*final(rx))
            == queued(*old(rx)),
{
    let _ = rx;
    match tx.try_send(pkt) {
        Ok(()) => None,
        Err(TrySendError::Full(pkt)) => Some(pkt),
        Err(TrySendError::Disconnected(pkt)) => Some(pkt),
    }
}

/// `Receiver::try_recv` of crossbeam, on a channel of which these are the only
/// handles: takes the oldest packet, and returns an error only where the queue
/// is empty. The sender is lent so that the contract can say that the halves
/// stay joined.
#[verifier::external_body]
fn channel_try_recv(tx: &mut Sender<ChangePacket>, rx: &mut Receiver<ChangePacket>) -> (taken:
    Option<ChangePacket>)
    requires
        joined(*old(tx), *old(rx)),
    ensures
        joined(*final(tx), *final(rx)),
        capacity(*final(rx)) == capacity(*old(rx)),
        queued(*old(rx)).len() == 0 ==> taken is None && queued(*final(rx)) == queued(*old(rx)),
        queued(*old(rx)).len() > 0 ==> taken == Some(queued(*old(rx))[0]) && queued(*final(rx))
            == queued(*old(rx)).skip(1),
{
    let _ = tx;
    rx.try_recv().ok()
}

/// A bounded first-in-first-out queue of packets.
pub struct PacketChannel {
    tx: Sender<ChangePacket>,
    rx: Receiver<ChangePacket>,
}

impl View for PacketChannel {
    type V = Seq<ChangePacket>;

    closed spec fn view(&self) -> Seq<ChangePacket> {
        queued(self.rx)
    }
}

impl PacketChannel {
    /// How many packets fit.
    pub closed spec fn cap(&self) -> nat {
        capacity(self.rx)
    }

    /// The queue has room for a packet at least, and holds no more than fits.
    pub closed spec fn wf(&self) -> bool {
        &&& joined(self.tx, self.rx)
        &&& 0 < capacity(self.rx)
        &&& queued(self.rx).len() <= capacity(self.rx)
    }

    /// No further packet fits.
    pub open spec fn is_full(&self) -> bool {
        self@.len() >= self.cap()
    }

    pub proof fn lemma_bounded(&self)
        requires
            self.wf(),
        ensures
            self@.len() <= self.cap(),
    {
    }

    pub fn new(cap: usize) -> (channel: Self)
        requires
            0 < cap <= MAX_CAPACITY,
        ensures
            channel.wf(),
            channel.cap() == cap,
            channel@ == Seq::<ChangePacket>::empty(),
    {
        let (tx, rx) = channel_bounded(cap);
        PacketChannel { tx, rx }
    }

    /// Puts a packet at the end, or hands it back where the queue is full.
    pub fn try_send(&mut self, pkt: ChangePacket) -> (refused: Option<ChangePacket>)
        requires
            old(self).wf(),
        ensures
            final(self).wf(),
            final(self).cap() == old(self).cap(),
            !old(self).is_full() ==> refused is None && final(self)@ == old(self)@.push(pkt),
            old(self).is_full() ==> refused == Some(pkt) && final(self)@ == old(self)@,
    {
        channel_try_send(&mut self.tx, &mut self.rx, pkt)
    }

    /// Puts a packet at the end; where the queue is full, its oldest packet
    /// makes room and is handed out.
    pub fn send_drop_oldest(&mut self, pkt: ChangePacket) -> (dropped: Option<ChangePacket>)
        requires
            old(self).wf(),
        ensures
            final(self).wf(),
            final(self).cap() == old(self).cap(),
            final(self)@ == push_capped(old(self)@, old(self).cap() as int, pkt),
            dropped == (if old(self).is_full() {
                Some(old(self)@[0])
            } else {
                None
            }),
    {
        proof {
            self.lemma_bounded();
        }
        match self.try_send(pkt) {
            None => None,
            Some(pkt) => {
                let dropped = self.try_recv();
                let _ = self.try_send(pkt);
                dropped
            },
        }
    }

    /// Takes the oldest packet, if there is one.
    pub fn try_recv(&mut self) -> (taken: Option<ChangePacket>)
        requires
            old(self).wf(),
        ensures
            final(self).wf(),
            final(self).cap() == old(self).cap(),
            old(self)@.len() == 0 ==> taken is None && final(self)@ == old(self)@,
            old(self)@.len() > 0 ==> taken == Some(old(self)@[0]) && final(self)@ == old(self)@.skip(1),
    {
        channel_try_recv(&mut self.tx, &mut self.rx)
    }
}

} // verus!
