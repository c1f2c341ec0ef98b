//! Counts of heap allocations, for the proof that the hot path makes none.
//!
//! The counts are set back before the measured window; what they show after it
//! was allocated within it.

use vstd::prelude::*;

verus! {

/// Allocations and deallocations since the last reset, modulo 2⁶⁴.
#[derive(Debug, Clone, Copy, PartialEq, Eq, Structural)]
pub struct AllocCounter {
    pub allocs: u64,
    pub deallocs: u64,
}

impl AllocCounter {
    pub fn new() -> (counter: Self)
        ensures
            counter == (AllocCounter { allocs: 0, deallocs: 0 }),
    {
        AllocCounter { allocs: 0, deallocs: 0 }
    }

    /// Memory was allocated, zeroed or not, or moved to another size.
    pub fn record_alloc(&mut self)
        ensures
            *final(self) == (AllocCounter { allocs: old(self).allocs.wrapping_add(1), ..*old(self) }),
    {
        self.allocs = self.allocs.wrapping_add(1);
    }

    /// Memory was given back.
    pub fn record_dealloc(&mut self)
        ensures
            *final(self) == (AllocCounter {
                deallocs: old(self).deallocs.wrapping_add(1),
                ..*old(self)
            }),
    {
        self.deallocs = self.deallocs.wrapping_add(1);
    }
}

/// Sets both counts back to 0 and returns what they were.
pub fn reset_and_read(counter: &mut AllocCounter) -> (counts: (u64, u64))
    ensures
        counts == (old(counter).allocs, old(counter).deallocs),
        *final(counter) == (AllocCounter { allocs: 0, deallocs: 0 }),
{
    let counts = (counter.allocs, counter.deallocs);
    *counter = AllocCounter::new();
    counts
}

/// The counts since the last reset.
pub fn read_counts(counter: &AllocCounter) -> (counts: (u64, u64))
    ensures
        counts == (counter.allocs, counter.deallocs),
{
    (counter.allocs, counter.deallocs)
}

/// Whether fewer than one allocation was made per packet.
pub fn is_alloc_free(allocs: u64, packets: u64) -> (yes: bool)
    ensures
        yes == (allocs < packets),
{
    allocs < packets
}

} // verus!
