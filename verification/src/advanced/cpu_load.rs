//! Interference on purpose: arithmetic and cache pressure from noise threads.

use vstd::prelude::*;

verus! {

/// Bytes that a noise thread writes over: 1 MB.
pub const PRESSURE_BUF_SIZE: usize = 1_048_576;

/// Distance between two writes.
pub const STRIDE: usize = 64;

/// Arithmetic steps of a pass.
pub const ALU_STEPS: u64 = 4_096;

/// One arithmetic step.
pub open spec fn alu_step(acc: u64, i: u64) -> u64 {
    acc.wrapping_mul(6_364_136_223_846_793_005).wrapping_add(1_442_695_040_888_963_407) ^ i
}

/// The accumulator after the steps 0 to `n - 1`.
pub open spec fn alu_after(acc: u64, n: nat) -> u64
    decreases n,
{
    if n == 0 {
        acc
    } else {
        alu_step(alu_after(acc, (n - 1) as nat), (n - 1) as u64)
    }
}

/// Keeps the arithmetic unit busy.
pub fn alu_pass(acc: u64) -> (after: u64)
    ensures
        after == alu_after(acc, ALU_STEPS as nat),
{
    let mut a: u64 = acc;
    for i in 0..ALU_STEPS
        invariant
            a == alu_after(acc, i as nat),
    {
        a = a.wrapping_mul(6_364_136_223_846_793_005).wrapping_add(1_442_695_040_888_963_407) ^ i;
    }
    a
}

/// The accumulator after the first `n` writes of a pass.
pub open spec fn cache_acc(acc: u64, n: nat) -> u64
    decreases n,
{
    if n == 0 {
        acc
    } else {
        cache_acc(acc, (n - 1) as nat).wrapping_add(((n - 1) * STRIDE) as u64)
    }
}

/// Writes the low byte of the accumulator over every 64th byte of the buffer.
pub fn cache_pass(buf: &mut Vec<u8>, acc: u64) -> (after: u64)
    requires
        old(buf).len() == PRESSURE_BUF_SIZE,
    ensures
        final(buf).len() == PRESSURE_BUF_SIZE,
        after == cache_acc(acc, (PRESSURE_BUF_SIZE / STRIDE) as nat),
        forall|k: int|
            0 <= k < PRESSURE_BUF_SIZE / STRIDE ==> #[trigger] final(buf)[k * STRIDE] == (cache_acc(
                acc,
                k as nat,
            ) & 0xFF) as u8,
        forall|j: int|
            0 <= j < PRESSURE_BUF_SIZE && j % (STRIDE as int) != 0 ==> #[trigger] final(buf)[j]
                == old(buf)[j],
{
    let ghost before = buf@;
    let n: usize = PRESSURE_BUF_SIZE / STRIDE;
    let mut a: u64 = acc;
    for i in 0..n
        invariant
            n == PRESSURE_BUF_SIZE / STRIDE,
            buf.len() == PRESSURE_BUF_SIZE,
            before.len() == PRESSURE_BUF_SIZE,
            a == cache_acc(acc, i as nat),
            forall|k: int|
                0 <= k < i ==> #[trigger] buf[k * STRIDE] == (cache_acc(acc, k as nat)
                    & 0xFF) as u8,
            forall|j: int|
                0 <= j < PRESSURE_BUF_SIZE && j % (STRIDE as int) != 0 ==> #[trigger] buf[j]
                    == before[j],
    {
        let at: usize = i * STRIDE;
        buf.set(at, (a & 0xFF) as u8);
        a = a.wrapping_add(at as u64);
    }
    a
}

/// Starts and stops noise threads.
pub struct CpuLoadGenerator {
    stop: bool,
}

impl CpuLoadGenerator {
    /// The threads are to exit.
    pub closed spec fn is_stopped(&self) -> bool {
        self.stop
    }

    pub fn new() -> (generator: Self)
        ensures
            !generator.is_stopped(),
    {
        CpuLoadGenerator { stop: false }
    }

    /// Asks the threads to exit.
    pub fn stop(&mut self)
        ensures
            final(self).is_stopped(),
    {
        self.stop = true;
    }

    /// Takes the request back, so that threads can be started again.
    pub fn reset(&mut self)
        ensures
            !final(self).is_stopped(),
    {
        self.stop = false;
    }

    /// Whether the threads are to exit.
    pub fn stopped(&self) -> (yes: bool)
        ensures
            yes == self.is_stopped(),
    {
        self.stop
    }
}

impl Default for CpuLoadGenerator {
    fn default() -> (generator: Self)
        ensures
            !generator.is_stopped(),
    {
        CpuLoadGenerator::new()
    }
}

/// A pass takes 4096 arithmetic steps, each a multiplication, an addition and the
/// number of the step; the cache is written at every 64th byte of a megabyte.
pub proof fn lemma_passes(acc: u64, n: nat)
    requires
        n <= u64::MAX,
    ensures
        alu_after(acc, 0) == acc,
        alu_after(acc, n + 1) == (alu_after(acc, n).wrapping_mul(
            6_364_136_223_846_793_005,
        ).wrapping_add(1_442_695_040_888_963_407) ^ n as u64),
        cache_acc(acc, 0) == acc,
        cache_acc(acc, n + 1) == cache_acc(acc, n).wrapping_add((n * 64) as u64),
        ALU_STEPS == 4_096 && PRESSURE_BUF_SIZE == 1_048_576 && STRIDE == 64,
{
}

} // verus!
