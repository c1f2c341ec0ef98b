//! Exact quotients of whole numbers.

use vstd::prelude::*;

use crate::stats::{ints, sum};

verus! {

/// The number `num / den`.
#[derive(Debug, Clone, Copy, PartialEq, Eq, Structural)]
pub struct Ratio {
    pub num: u128,
    pub den: u128,
}

/// Events per second: `events` over a time given in nanoseconds.
pub open spec fn per_second(events: u64, duration_ns: u64) -> Ratio {
    Ratio { num: (events * 1_000_000_000) as u128, den: duration_ns as u128 }
}

/// The number 0.
pub open spec fn zero_ratio() -> Ratio {
    Ratio { num: 0, den: 1 }
}

impl Ratio {
    /// The ratio is the mean of the samples, and 0 where there are none.
    pub open spec fn is_mean_of(self, samples: Seq<u64>) -> bool {
        if samples.len() == 0 {
            self == zero_ratio()
        } else {
            self.num == sum(ints(samples)) && self.den == samples.len()
        }
    }

    pub fn zero() -> (r: Self)
        ensures
            r == zero_ratio(),
    {
        Ratio { num: 0, den: 1 }
    }

    pub fn events_per_second(events: u64, duration_ns: u64) -> (r: Self)
        requires
            duration_ns > 0,
        ensures
            r == per_second(events, duration_ns),
    {
        Ratio { num: events as u128 * 1_000_000_000u128, den: duration_ns as u128 }
    }
}

/// A throughput, times the seconds it was taken over, is the number of events.
pub proof fn lemma_throughput(events: u64, duration_ns: u64)
    requires
        duration_ns > 0,
    ensures
        per_second(events, duration_ns).den > 0,
        per_second(events, duration_ns).num * duration_ns == events * 1_000_000_000int
            * per_second(events, duration_ns).den,
        zero_ratio().num == 0 && zero_ratio().den > 0,
{
    let e = events as int;
    let d = duration_ns as int;
    assert(0 <= e * 1_000_000_000 <= u128::MAX) by (nonlinear_arith)
        requires
            0 <= e <= u64::MAX,
    ;
}

/// A mean, times the number of samples, is their sum.
pub proof fn lemma_mean(r: Ratio, samples: Seq<u64>)
    requires
        r.is_mean_of(samples),
    ensures
        r.den > 0,
        r.num * samples.len() == sum(ints(samples)) * r.den,
        samples.len() == 0 ==> r.num == 0,
{
    if samples.len() == 0 {
        assert(ints(samples) =~= Seq::<int>::empty());
        assert(sum(ints(samples)) == 0);
    }
    assert(r.num * 0 == 0 && 0 * r.den == 0);
}

} // verus!
