//! A recorder of samples, under one of three strategies.
//!
//! In mutex mode records are kept in a list of bounded length; in atomic mode
//! samples are only counted; in lock-free mode records go through a bounded
//! queue to a consumer, and a record that finds the queue full is dropped.

use crossbeam::queue::ArrayQueue;
use vstd::prelude::*;

use crate::control::SensorType;

verus! {

/// Records that the lock-free queue holds.
pub const QUEUE_CAPACITY: usize = 512;

/// Records that the mutex mode keeps at most.
pub const RECORD_LIMIT: usize = 4_096;

/// Records that go at once when there are too many.
pub const RECORD_BATCH: usize = 2_048;

/// Greatest capacity for which a queue is made. All its places are allocated
/// at once, which fails for one that is far larger.
pub const MAX_CAPACITY: usize = 1_000_000;

#[derive(Debug, Clone, Copy, PartialEq, Eq, Structural)]
pub enum SyncMode {
    Mutex,
    Atomic,
    LockFree,
}

/// A recorded sample.
#[derive(Debug, Clone, Copy, PartialEq, Eq, Structural)]
pub struct SyncRecord {
    pub sensor_type: SensorType,
    pub value: i64,
    pub sequence: u64,
    pub timestamp: u64,
}

/// The bounded lock-free queue of crossbeam.
#[verifier::external_type_specification]
#[verifier::external_body]
#[verifier::reject_recursive_types(T)]
pub struct ExArrayQueue<T>(ArrayQueue<T>);

/// The records in a queue, oldest first.
pub uninterp spec fn pending(queue: ArrayQueue<SyncRecord>) -> Seq<SyncRecord>;

/// How many records a queue was made for.
pub uninterp spec fn slots(queue: ArrayQueue<SyncRecord>) -> nat;

/// `ArrayQueue::new` of crossbeam: an empty queue for `cap` records. It panics
/// on a capacity of 0 or one that is too large.
#[verifier::external_body]
fn queue_new(cap: usize) -> (queue: ArrayQueue<SyncRecord>)
    requires
        0 < cap <= MAX_CAPACITY,
    ensures
        pending(queue) == Seq::<SyncRecord>::empty(),
        slots(queue) == cap,
{
    ArrayQueue::new(cap)
}

/// `ArrayQueue::push` of crossbeam, on a queue that nobody else uses: the
/// record goes to the end, and is refused only where the queue is full.
#[verifier::external_body]
fn queue_push(queue: &mut ArrayQueue<SyncRecord>, record: SyncRecord) -> (accepted: bool)
    ensures
        slots(*final(queue)) == slots(*old(queue)),
        accepted == (pending(*old(queue)).len() < slots(*old(queue))),
        pending(*final(queue)) == (if pending(*old(queue)).len() < slots(*old(queue)) {
            pending(*old(queue)).push(record)
        } else {
            pending(*old(queue))
        }),
{
    queue.push(record).is_ok()
}

/// `ArrayQueue::pop` of crossbeam, on a queue that nobody else uses: takes the
/// oldest record, if there is one.
#[verifier::external_body]
fn queue_pop(queue: &mut ArrayQueue<SyncRecord>) -> (taken: Option<SyncRecord>)
    ensures
        slots(*final(queue)) == slots(*old(queue)),
        pending(*old(queue)).len() == 0 ==> taken is None && pending(*final(queue)) == pending(
            *old(queue),
        ),
        pending(*old(queue)).len() > 0 ==> taken == Some(pending(*old(queue))[0]) && pending(
            *final(queue),
        ) == pending(*old(queue)).skip(1),
{
    queue.pop()
}

/// The records, bounded: where there are too many, the oldest batch goes.
pub open spec fn bounded_records(records: Seq<SyncRecord>) -> Seq<SyncRecord> {
    if records.len() > RECORD_LIMIT {
        records.skip(RECORD_BATCH as int)
    } else {
        records
    }
}

/// The records that are kept after each of `all` came in, in turn.
pub open spec fn kept_records(all: Seq<SyncRecord>) -> Seq<SyncRecord>
    decreases all.len(),
{
    if all.len() == 0 {
        all
    } else {
        bounded_records(kept_records(all.drop_last()).push(all.last()))
    }
}

/// The records that are kept are the latest ones, in order: all of them up to
/// the limit, and never more than that, nor fewer than half of it after.
pub proof fn lemma_latest_records_are_kept(all: Seq<SyncRecord>)
    ensures
        kept_records(all).len() <= RECORD_LIMIT,
        kept_records(all) == all.skip(all.len() - kept_records(all).len()),
        all.len() <= RECORD_LIMIT ==> kept_records(all) == all,
        all.len() > RECORD_LIMIT ==> kept_records(all).len() > RECORD_LIMIT - RECORD_BATCH,
    decreases all.len(),
{
    if all.len() == 0 {
        assert(all.skip(0) =~= all);
    } else {
        let before = all.drop_last();
        let kept = kept_records(before);
        lemma_latest_records_are_kept(before);
        assert(all =~= before.push(all.last()));
        assert(kept.push(all.last()) =~= all.skip(all.len() - kept.len() - 1));
        assert(kept_records(all) =~= all.skip(all.len() - kept_records(all).len()));
        if all.len() <= RECORD_LIMIT {
            assert(kept_records(all) =~= all);
        }
    }
}

/// State of a recorder.
#[verifier::ext_equal]
pub struct SyncState {
    pub mode: SyncMode,
    pub records: Seq<SyncRecord>,
    pub write_count: u64,
    pub atomic_counter: u64,
    pub queue: Seq<SyncRecord>,
    pub lf_drops: u64,
}

impl SyncState {
    pub open spec fn initial(mode: SyncMode) -> Self {
        SyncState {
            mode,
            records: Seq::empty(),
            write_count: 0,
            atomic_counter: 0,
            queue: Seq::empty(),
            lf_drops: 0,
        }
    }

    /// The state after one more sample.
    pub open spec fn recorded(self, record: SyncRecord) -> Self {
        match self.mode {
            SyncMode::Mutex => SyncState {
                records: bounded_records(self.records.push(record)),
                write_count: (self.write_count + 1) as u64,
                ..self
            },
            SyncMode::Atomic => SyncState {
                atomic_counter: self.atomic_counter.wrapping_add(1),
                ..self
            },
            SyncMode::LockFree => if self.queue.len() < QUEUE_CAPACITY {
                SyncState { queue: self.queue.push(record), ..self }
            } else {
                SyncState { lf_drops: self.lf_drops.wrapping_add(1), ..self }
            },
        }
    }

    pub open spec fn wf(self) -> bool {
        &&& self.records.len() <= RECORD_LIMIT
        &&& self.queue.len() <= QUEUE_CAPACITY
    }
}

/// Recording keeps the bounds. In lock-free mode each record either enters
/// the queue, behind those that are there, or counts as a drop.
pub proof fn lemma_recording_is_bounded(s: SyncState, record: SyncRecord)
    requires
        s.wf(),
    ensures
        s.recorded(record).wf(),
        s.mode == SyncMode::LockFree && s.lf_drops < u64::MAX ==> s.recorded(record).queue.len()
            + s.recorded(record).lf_drops == s.queue.len() + s.lf_drops + 1,
        s.queue.is_prefix_of(s.recorded(record).queue),
{
    assert(s.queue =~= s.recorded(record).queue.subrange(0, s.queue.len() as int));
}

/// What a sample does in each mode. Under the mutex it is the latest record and
/// counts as a write; 4096 records are kept, and one more makes the oldest 2048
/// go. In atomic mode it is counted alone. In lock-free mode it joins the queue
/// of 512, or is dropped where that is full.
pub proof fn lemma_what_a_sample_does(s: SyncState, record: SyncRecord)
    requires
        s.wf(),
    ensures
        ({
            let after = s.recorded(record);
            &&& s.mode == SyncMode::Mutex ==> {
                &&& after.records.len() > 0 && after.records.last() == record
                &&& s.records.len() < 4_096 ==> after.records == s.records.push(record)
                &&& s.records.len() == 4_096 ==> after.records == s.records.skip(2_048).push(record)
                &&& s.write_count < u64::MAX ==> after.write_count == s.write_count + 1
                &&& after.atomic_counter == s.atomic_counter && after.queue == s.queue
                    && after.lf_drops == s.lf_drops
            }
            &&& s.mode == SyncMode::Atomic ==> {
                &&& s.atomic_counter < u64::MAX ==> after.atomic_counter == s.atomic_counter + 1
                &&& after.records == s.records && after.queue == s.queue && after.write_count
                    == s.write_count && after.lf_drops == s.lf_drops
            }
            &&& s.mode == SyncMode::LockFree ==> {
                &&& s.queue.len() < 512 ==> after.queue == s.queue.push(record) && after.lf_drops
                    == s.lf_drops
                &&& s.queue.len() == 512 && s.lf_drops < u64::MAX ==> after.queue == s.queue
                    && after.lf_drops == s.lf_drops + 1
                &&& after.records == s.records && after.write_count == s.write_count
                    && after.atomic_counter == s.atomic_counter
            }
            &&& after.mode == s.mode
        }),
{
    if s.mode == SyncMode::Mutex && s.records.len() == 4_096 {
        assert(s.recorded(record).records =~= s.records.skip(2_048).push(record));
    }
}

/// A recorder of samples.
pub struct SyncManager {
    mode: SyncMode,
    records: Vec<SyncRecord>,
    write_count: u64,
    atomic_counter: u64,
    queue: ArrayQueue<SyncRecord>,
    lf_drops: u64,
}

impl View for SyncManager {
    type V = SyncState;

    closed spec fn view(&self) -> SyncState {
        SyncState {
            mode: self.mode,
            records: self.records@,
            write_count: self.write_count,
            atomic_counter: self.atomic_counter,
            queue: pending(self.queue),
            lf_drops: self.lf_drops,
        }
    }
}

impl SyncManager {
    pub closed spec fn wf(&self) -> bool {
        &&& self@.wf()
        &&& slots(self.queue) == QUEUE_CAPACITY
    }

    pub proof fn lemma_state_is_wf(&self)
        requires
            self.wf(),
        ensures
            self@.wf(),
    {
    }

    pub fn new(mode: SyncMode) -> (manager: Self)
        ensures
            manager.wf(),
            manager@ == SyncState::initial(mode),
    {
        let manager = SyncManager {
            mode,
            records: Vec::new(),
            write_count: 0,
            atomic_counter: 0,
            queue: queue_new(QUEUE_CAPACITY),
            lf_drops: 0,
        };
        assert(manager@ =~= SyncState::initial(mode));
        manager
    }

    /// Records a sample under the strategy of this recorder.
    pub fn record_sample(
        &mut self,
        sensor_type: SensorType,
        value: i64,
        sequence: u64,
        timestamp: u64,
    )
        requires
            old(self).wf(),
            old(self)@.mode == SyncMode::Mutex ==> old(self)@.write_count < u64::MAX,
        ensures
            final(self).wf(),
            final(self)@ == old(self)@.recorded(
                (SyncRecord { sensor_type, value, sequence, timestamp }),
            ),
    {
        let record = SyncRecord { sensor_type, value, sequence, timestamp };
        match self.mode {
            SyncMode::Mutex => {
                self.records.push(record);
                self.write_count = self.write_count + 1;
                if self.records.len() > RECORD_LIMIT {
                    let kept = self.records.split_off(RECORD_BATCH);
                    self.records = kept;
                    assert(self.records@ =~= old(self)@.records.push(record).skip(
                        RECORD_BATCH as int,
                    ));
                }
            },
            SyncMode::Atomic => {
                self.atomic_counter = self.atomic_counter.wrapping_add(1);
            },
            SyncMode::LockFree => {
                if !queue_push(&mut self.queue, record) {
                    self.lf_drops = self.lf_drops.wrapping_add(1);
                }
            },
        }
    }

    /// The consumer of the lock-free queue: takes out every record.
    pub fn consume(&mut self) -> (taken: Vec<SyncRecord>)
        requires
            old(self).wf(),
        ensures
            final(self).wf(),
            taken@ == old(self)@.queue,
            final(self)@ == (SyncState { queue: Seq::empty(), ..old(self)@ }),
    {
        let mut taken: Vec<SyncRecord> = Vec::new();
        let ghost all = self@.queue;
        let ghost before = self@;
        assert(taken@ + self@.queue =~= all);
        loop
            invariant_except_break
                self.wf(),
                self@ == (SyncState { queue: self@.queue, ..before }),
                taken@ + self@.queue == all,
            ensures
                self.wf(),
                self@ == (SyncState { queue: Seq::empty(), ..before }),
                taken@ == all,
            decreases self@.queue.len(),
        {
            let ghost queue = self@.queue;
            match queue_pop(&mut self.queue) {
                Some(record) => {
                    let ghost done = taken@;
                    taken.push(record);
                    assert(done + queue =~= done.push(queue[0]) + queue.skip(1));
                },
                None => {
                    assert(taken@ + self@.queue =~= taken@);
                    assert(self@.queue =~= Seq::empty());
                    break;
                },
            }
        }
        taken
    }

    pub fn mode(&self) -> (mode: SyncMode)
        ensures
            mode == self@.mode,
    {
        self.mode
    }

    /// Records that were dropped in lock-free mode, modulo 2⁶⁴.
    pub fn lock_free_drop_count(&self) -> (n: u64)
        ensures
            n == self@.lf_drops,
    {
        self.lf_drops
    }

    /// Samples that were counted in atomic mode, modulo 2⁶⁴.
    pub fn atomic_sample_count(&self) -> (n: u64)
        ensures
            n == self@.atomic_counter,
    {
        self.atomic_counter
    }

    /// Records that were written in mutex mode.
    pub fn mutex_write_count(&self) -> (n: u64)
        ensures
            n == self@.write_count,
    {
        self.write_count
    }
}

} // verus!
