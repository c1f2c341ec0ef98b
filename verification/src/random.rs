//! Draws from seeds, with the rand crate.
//!
//! A draw has a seed of its own, so that its result is settled by the seed and
//! by what is drawn.

use rand::rngs::StdRng;
use rand::{Rng, SeedableRng};
use vstd::prelude::*;

verus! {

/// What a fresh `StdRng` of this seed draws with `gen_ratio`.
pub uninterp spec fn seeded_ratio(seed: u64, numerator: u32, denominator: u32) -> bool;

/// What a fresh `StdRng` of this seed draws with `gen_range`, over `u64` from
/// `low` to below `high`.
pub uninterp spec fn seeded_range(seed: u64, low: u64, high: u64) -> u64;

/// `Rng::gen_ratio` of rand, on a fresh `StdRng` of the seed: true with
/// probability `numerator / denominator` over the seeds. The generator works
/// from the seed alone, and by integers of fixed width, so the result is a
/// function of the arguments. Of its values only the two certain cases are
/// claimed.
#[verifier::external_body]
pub(crate) fn draw_ratio(seed: u64, numerator: u32, denominator: u32) -> (hit: bool)
    requires
        denominator > 0,
        numerator <= denominator,
    ensures
        hit == seeded_ratio(seed, numerator, denominator),
        numerator == 0 ==> !hit,
        numerator == denominator ==> hit,
{
    StdRng::seed_from_u64(seed).gen_ratio(numerator, denominator)
}

/// `Rng::gen_range` of rand over a half-open range of `u64`, on a fresh
/// `StdRng` of the seed: any number of the range, all equally likely over the
/// seeds. The result is a function of the arguments; of its values only the
/// range is claimed.
#[verifier::external_body]
pub(crate) fn draw_range(seed: u64, low: u64, high: u64) -> (n: u64)
    requires
        low < high,
    ensures
        n == seeded_range(seed, low, high),
        low <= n < high,
{
    StdRng::seed_from_u64(seed).gen_range(low..high)
}

/// Seed of the `k`-th draw of the `i`-th item, where an item takes up to `per`
/// draws.
pub open spec fn draw_seed(seed: u64, i: u64, per: u64, k: u64) -> u64 {
    seed.wrapping_add(i.wrapping_mul(per)).wrapping_add(k)
}

/// Every draw of a row of items has a seed of its own, for as many items as
/// there are seeds.
pub proof fn lemma_seeds_differ(seed: u64, per: u64, i: u64, k: u64, j: u64, l: u64)
    requires
        k < per,
        l < per,
        i * per + k <= u64::MAX,
        j * per + l <= u64::MAX,
        draw_seed(seed, i, per, k) == draw_seed(seed, j, per, l),
    ensures
        i == j && k == l,
{
    let p = per as int;
    let a = i * p;
    let b = j * p;
    assert(a >= 0 && b >= 0) by (nonlinear_arith)
        requires
            a == i * p,
            b == j * p,
            p >= 0,
    ;
    vstd::arithmetic::div_mod::lemma_small_mod(a as nat, 0x1_0000_0000_0000_0000);
    vstd::arithmetic::div_mod::lemma_small_mod(b as nat, 0x1_0000_0000_0000_0000);
    assert(i.wrapping_mul(per) == a);
    assert(j.wrapping_mul(per) == b);
    assert(a + k == b + l);
    assert(i == j) by (nonlinear_arith)
        requires
            i * p + k == j * p + l,
            0 <= k < p,
            0 <= l < p,
    ;
}

/// Seed of the `k`-th draw of the `i`-th item.
pub fn seed_of_draw(seed: u64, i: u64, per: u64, k: u64) -> (own: u64)
    ensures
        own == draw_seed(seed, i, per, k),
{
    seed.wrapping_add(i.wrapping_mul(per)).wrapping_add(k)
}

} // verus!
