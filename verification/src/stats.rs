//! Sums, means and variances of samples, in exact arithmetic.

use vstd::prelude::*;

use crate::ratio::{zero_ratio, Ratio};

verus! {

/// The samples as integers.
pub open spec fn ints(s: Seq<u64>) -> Seq<int> {
    s.map_values(|x: u64| x as int)
}

pub open spec fn sum(s: Seq<int>) -> int
    decreases s.len(),
{
    if s.len() == 0 {
        0
    } else {
        sum(s.drop_last()) + s.last()
    }
}

pub open spec fn sum_of_squares(s: Seq<int>) -> int
    decreases s.len(),
{
    if s.len() == 0 {
        0
    } else {
        sum_of_squares(s.drop_last()) + s.last() * s.last()
    }
}

/// A sum grows by each element that is added, and a sum of squares by its square.
pub proof fn lemma_sums_grow(s: Seq<int>, x: int)
    ensures
        sum(Seq::empty()) == 0,
        sum(s.push(x)) == sum(s) + x,
        sum_of_squares(Seq::empty()) == 0,
        sum_of_squares(s.push(x)) == sum_of_squares(s) + x * x,
{
    assert(s.push(x).drop_last() =~= s);
}

/// Sum of `(n * x - t)²` over the elements `x` of `s`.
pub open spec fn scaled_deviation(s: Seq<int>, n: int, t: int) -> int
    decreases s.len(),
{
    if s.len() == 0 {
        0
    } else {
        scaled_deviation(s.drop_last(), n, t) + (n * s.last() - t) * (n * s.last() - t)
    }
}

/// The ratio is the population variance of `s`: the mean of the squared
/// distances `(x - sum / n)²`, which is the sum of `(n x - sum)²` over `n³`.
pub open spec fn is_variance(r: Ratio, s: Seq<int>) -> bool {
    let n = s.len() as int;
    &&& r.den == n * n
    &&& r.num * n == scaled_deviation(s, n, sum(s))
}

proof fn lemma_scaled_deviation(s: Seq<int>, n: int, t: int)
    ensures
        scaled_deviation(s, n, t) == n * n * sum_of_squares(s) - 2 * n * t * sum(s) + s.len() * (t
            * t),
        scaled_deviation(s, n, t) >= 0,
    decreases s.len(),
{
    if s.len() == 0 {
        assert(n * n * 0 - 2 * n * t * 0 + 0 * (t * t) == 0) by (nonlinear_arith);
    } else {
        let x = s.last();
        let q = sum_of_squares(s.drop_last());
        let z = sum(s.drop_last());
        let l = s.drop_last().len() as int;
        lemma_scaled_deviation(s.drop_last(), n, t);
        assert((n * x - t) * (n * x - t) >= 0) by (nonlinear_arith);
        assert(n * n * q - 2 * n * t * z + l * (t * t) + (n * x - t) * (n * x - t) == n * n * (q + x
            * x) - 2 * n * t * (z + x) + (l + 1) * (t * t)) by (nonlinear_arith);
    }
}

/// `n` times the sum of squares is at least the square of the sum; their
/// difference over `n²` is the variance.
pub proof fn lemma_variance(s: Seq<int>)
    requires
        s.len() > 0,
    ensures
        sum(s) * sum(s) <= s.len() * sum_of_squares(s),
        (s.len() * sum_of_squares(s) - sum(s) * sum(s)) * s.len() == scaled_deviation(
            s,
            s.len() as int,
            sum(s),
        ),
{
    let n = s.len() as int;
    let t = sum(s);
    let q = sum_of_squares(s);
    lemma_scaled_deviation(s, n, t);
    assert(n * n * q - 2 * n * t * t + n * (t * t) == (n * q - t * t) * n) by (nonlinear_arith);
    assert(n * q - t * t >= 0) by (nonlinear_arith)
        requires
            (n * q - t * t) * n >= 0,
            n > 0,
    ;
}

/// A sum is at most the number of samples times the greatest one there can be.
pub proof fn lemma_sum_bounds(s: Seq<u64>)
    ensures
        0 <= sum(ints(s)) <= s.len() * u64::MAX,
    decreases s.len(),
{
    if s.len() > 0 {
        lemma_sum_bounds(s.drop_last());
        assert(ints(s).drop_last() =~= ints(s.drop_last()));
        assert((s.len() - 1) * u64::MAX + u64::MAX == s.len() * u64::MAX) by (nonlinear_arith);
    }
}

proof fn lemma_squares_grow(s: Seq<u64>, i: int)
    requires
        0 <= i <= s.len(),
    ensures
        0 <= sum_of_squares(ints(s).take(i)) <= sum_of_squares(ints(s)),
    decreases s.len() - i,
{
    let v = ints(s);
    if i < s.len() {
        lemma_squares_grow(s, i + 1);
        assert(v.take(i + 1).drop_last() =~= v.take(i));
        assert(v[i] * v[i] >= 0) by (nonlinear_arith);
        lemma_squares_positive(s, i);
    } else {
        assert(v.take(i) =~= v);
        lemma_squares_positive(s, i);
    }
}

proof fn lemma_squares_positive(s: Seq<u64>, i: int)
    requires
        0 <= i <= s.len(),
    ensures
        sum_of_squares(ints(s).take(i)) >= 0,
    decreases i,
{
    let v = ints(s);
    if i > 0 {
        lemma_squares_positive(s, i - 1);
        assert(v.take(i).drop_last() =~= v.take(i - 1));
        assert(v[i - 1] * v[i - 1] >= 0) by (nonlinear_arith);
    }
}

/// Sum of the samples.
pub fn total(samples: &Vec<u64>) -> (t: u128)
    ensures
        t == sum(ints(samples@)),
{
    let ghost v = ints(samples@);
    let mut t: u128 = 0;
    for i in 0..samples.len()
        invariant
            v == ints(samples@),
            t == sum(v.take(i as int)),
            t <= i * u64::MAX,
    {
        assert(v.take(i as int + 1).drop_last() =~= v.take(i as int));
        assert((i + 1) * u64::MAX == i * u64::MAX + u64::MAX) by (nonlinear_arith);
        assert(i * u64::MAX + u64::MAX <= u128::MAX) by (nonlinear_arith)
            requires
                i < usize::MAX,
        ;
        t = t + samples[i] as u128;
    }
    assert(v.take(samples.len() as int) =~= v);
    t
}

/// Population variance of the samples, and 0 for fewer than two. `None` where
/// the count times the sum of squares does not fit 128 bits.
pub fn variance(samples: &Vec<u64>) -> (r: Option<Ratio>)
    ensures
        samples.len() < 2 ==> r == Some(zero_ratio()),
        samples.len() >= 2 ==> (r is Some <==> samples.len() * sum_of_squares(ints(samples@))
            <= u128::MAX),
        samples.len() >= 2 && r is Some ==> is_variance(r->0, ints(samples@)),
{
    if samples.len() < 2 {
        return Some(Ratio::zero());
    }
    let ghost v = ints(samples@);
    let n: u128 = samples.len() as u128;
    proof {
        lemma_variance(v);
        lemma_squares_grow(samples@, 0);
    }
    let mut q: u128 = 0;
    for i in 0..samples.len()
        invariant
            v == ints(samples@),
            samples.len() >= 2,
            q == sum_of_squares(v.take(i as int)),
    {
        let x: u128 = samples[i] as u128;
        assert(v.take(i as int + 1).drop_last() =~= v.take(i as int));
        assert(x * x <= u128::MAX) by (nonlinear_arith)
            requires
                x <= u64::MAX,
        ;
        let square: u128 = x * x;
        match q.checked_add(square) {
            Some(next) => {
                q = next;
            },
            None => {
                proof {
                    lemma_squares_grow(samples@, i as int + 1);
                    let n = samples.len() as int;
                    let all = sum_of_squares(v);
                    assert(n * all > u128::MAX) by (nonlinear_arith)
                        requires
                            n >= 2,
                            all > u128::MAX,
                    ;
                }
                return None;
            },
        }
    }
    assert(v.take(samples.len() as int) =~= v);
    let t = total(samples);
    match n.checked_mul(q) {
        Some(nq) => {
            proof {
                lemma_sum_bounds(samples@);
            }
            assert(t * t <= nq);
            assert(n * n <= u128::MAX) by (nonlinear_arith)
                requires
                    n <= u64::MAX,
            ;
            Some(Ratio { num: nq - t * t, den: n * n })
        },
        None => None,
    }
}

/// A deviation grows, with each element, by the square of that element's
/// distance.
pub proof fn lemma_deviation_grows(s: Seq<int>, x: int, n: int, t: int)
    ensures
        scaled_deviation(Seq::empty(), n, t) == 0,
        scaled_deviation(s.push(x), n, t) == scaled_deviation(s, n, t) + (n * x - t) * (n * x - t),
{
    assert(s.push(x).drop_last() =~= s);
}

/// The samples as integers are the same numbers.
pub proof fn lemma_ints(s: Seq<u64>, x: u64)
    ensures
        ints(Seq::empty()) == Seq::<int>::empty(),
        ints(s.push(x)) == ints(s).push(x as int),
{
    assert(ints(Seq::empty()) =~= Seq::<int>::empty());
    assert(ints(s.push(x)) =~= ints(s).push(x as int));
}

/// A variance, times the cube of the number of samples, is the sum of the squared
/// distances of `n` times each sample from the sum.
pub proof fn lemma_variance_ratio(r: Ratio, s: Seq<int>)
    requires
        s.len() > 0,
        is_variance(r, s),
    ensures
        r.den > 0,
        r.num * (s.len() * s.len() * s.len()) == scaled_deviation(s, s.len() as int, sum(s)) * r.den,
{
    let n = s.len() as int;
    let a = r.num as int;
    let d = scaled_deviation(s, n, sum(s));
    assert(n * n > 0) by (nonlinear_arith)
        requires
            n > 0,
    ;
    assert(a * (n * n * n) == (a * n) * (n * n)) by (nonlinear_arith);
}

} // verus!
