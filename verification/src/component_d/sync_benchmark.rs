//! What a contention benchmark of a synchronisation strategy tells.

use vstd::prelude::*;

use crate::component_d::leaderboard::SyncStrategy;
use crate::ratio::Ratio;
use crate::sorting::{
    ascending_order, lemma_ascending_order, lemma_ascending_order_is_unique, sorted_samples,
};
use crate::stats::{ints, sum, total};

verus! {

/// Result of a benchmark.
#[derive(Debug, Clone, Copy)]
pub struct SyncBenchResult {
    pub strategy: &'static str,
    pub writers: usize,
    /// Operations per second; without a number where no time went by.
    pub ops_per_sec: Ratio,
    pub mean_ns: Ratio,
    pub p99_ns: u64,
}

impl SyncStrategy {
    /// What `name` returns.
    pub open spec fn name_text(self) -> Seq<char> {
        match self {
            SyncStrategy::Mutex => "Mutex"@,
            SyncStrategy::RwLock => "RwLock"@,
            SyncStrategy::Atomic => "Atomic"@,
        }
    }

    pub fn name(self) -> (name: &'static str)
        ensures
            name@ == self.name_text(),
    {
        match self {
            SyncStrategy::Mutex => "Mutex",
            SyncStrategy::RwLock => "RwLock",
            SyncStrategy::Atomic => "Atomic",
        }
    }
}

/// The latency that 99 of 100 operations did not exceed: of `n` sorted
/// latencies the one at `99 n / 100`, and 0 where there are none.
pub open spec fn p99_of(latencies: Seq<u64>) -> u64 {
    if latencies.len() == 0 {
        0
    } else {
        ascending_order(latencies)[latencies.len() as int * 99 / 100]
    }
}

/// The 99th percentile of a benchmark, in whichever ascending row holds just the
/// latencies, is the first one behind 99 of 100 of them.
pub proof fn lemma_p99(latencies: Seq<u64>, sorted: Seq<u64>, i: int)
    requires
        latencies.len() > 0,
        sorted.to_multiset() == latencies.to_multiset(),
        forall|a: int, b: int| 0 <= a <= b < sorted.len() ==> sorted[a] <= sorted[b],
        100 * i <= 99 * latencies.len() < 100 * (i + 1),
    ensures
        0 <= i < sorted.len(),
        p99_of(latencies) == sorted[i],
{
    lemma_ascending_order(latencies);
    lemma_ascending_order_is_unique(latencies, sorted);
}

/// Evaluates a benchmark in which `writers` threads made `ops_each` operations
/// each, with the given latencies in ns, within `elapsed_ns`.
pub fn evaluate(
    strategy: SyncStrategy,
    writers: usize,
    ops_each: u64,
    latencies: &Vec<u64>,
    elapsed_ns: u64,
) -> (result: SyncBenchResult)
    requires
        writers * ops_each <= u64::MAX,
    ensures
        result.strategy@ == strategy.name_text(),
        result.writers == writers,
        result.ops_per_sec.num == writers * ops_each * 1_000_000_000,
        result.ops_per_sec.den == elapsed_ns,
        result.mean_ns.num == sum(ints(latencies@)),
        result.mean_ns.den == (if latencies.len() > 0 {
            latencies.len() as int
        } else {
            1
        }),
        result.p99_ns == p99_of(latencies@),
{
    let ops: u64 = writers as u64 * ops_each;
    let sorted = sorted_samples(latencies);
    let n: usize = sorted.len();
    let p99_ns: u64 = if n == 0 {
        0
    } else {
        let at: u128 = n as u128 * 99 / 100;
        sorted[at as usize]
    };
    let samples: u128 = if n > 0 {
        n as u128
    } else {
        1
    };
    SyncBenchResult {
        strategy: strategy.name(),
        writers,
        ops_per_sec: Ratio { num: ops as u128 * 1_000_000_000u128, den: elapsed_ns as u128 },
        mean_ns: Ratio { num: total(latencies), den: samples },
        p99_ns,
    }
}

} // verus!
