//! Sorting of samples.

use vstd::prelude::*;
use vstd::relations::sorted_by;
use vstd::seq_lib::{lemma_multiset_commutative, lemma_sorted_unique};

verus! {

/// Every element is at most each one after it.
pub open spec fn is_ascending(s: Seq<u64>) -> bool {
    forall|i: int, j: int| 0 <= i <= j < s.len() ==> s[i] <= s[j]
}

/// The elements of `s`, each as often as it occurs there, in ascending order.
pub open spec fn ascending_order(s: Seq<u64>) -> Seq<u64> {
    s.sort_by(|a: u64, b: u64| a <= b)
}

/// `ascending_order` keeps the elements and sorts them.
pub proof fn lemma_ascending_order(s: Seq<u64>)
    ensures
        ascending_order(s).to_multiset() == s.to_multiset(),
        ascending_order(s).len() == s.len(),
        is_ascending(ascending_order(s)),
{
    let leq = |a: u64, b: u64| a <= b;
    s.lemma_sort_by_ensures(leq);
    let sorted = s.sort_by(leq);
    assert(sorted.to_multiset().len() == s.to_multiset().len());
    broadcast use vstd::seq_lib::group_to_multiset_ensures;

    assert forall|i: int, j: int| 0 <= i <= j < sorted.len() implies sorted[i] <= sorted[j] by {
        if i < j {
            assert(leq(sorted[i], sorted[j]));
        }
    }
}

/// Only one ascending sequence holds the elements of `s`.
pub proof fn lemma_ascending_order_is_unique(s: Seq<u64>, sorted: Seq<u64>)
    requires
        is_ascending(sorted),
        sorted.to_multiset() == s.to_multiset(),
    ensures
        sorted == ascending_order(s),
{
    let leq = |a: u64, b: u64| a <= b;
    s.lemma_sort_by_ensures(leq);
    assert(sorted_by(sorted, leq)) by {
        assert forall|i: int, j: int| 0 <= i < j < sorted.len() implies leq(
            sorted[i],
            sorted[j],
        ) by {
            assert(sorted[i] <= sorted[j]);
        }
    }
    lemma_sorted_unique(sorted, s.sort_by(leq), leq);
}

/// Merges two ascending vectors into one.
fn merge(a: Vec<u64>, b: Vec<u64>) -> (merged: Vec<u64>)
    requires
        is_ascending(a@),
        is_ascending(b@),
    ensures
        is_ascending(merged@),
        merged@.to_multiset() == (a@ + b@).to_multiset(),
{
    broadcast use vstd::seq_lib::group_to_multiset_ensures;

    let mut merged: Vec<u64> = Vec::new();
    let mut i: usize = 0;
    let mut j: usize = 0;
    proof {
        lemma_multiset_commutative(a@.take(0), b@.take(0));
        assert(merged@.to_multiset() =~= a@.take(0).to_multiset().add(b@.take(0).to_multiset()));
    }
    while i < a.len() || j < b.len()
        invariant
            i <= a.len(),
            j <= b.len(),
            is_ascending(a@),
            is_ascending(b@),
            is_ascending(merged@),
            merged@.to_multiset() == a@.take(i as int).to_multiset().add(
                b@.take(j as int).to_multiset(),
            ),
            forall|k: int| #![auto] 0 <= k < merged.len() && i < a.len() ==> merged[k] <= a[i as int],
            forall|k: int| #![auto] 0 <= k < merged.len() && j < b.len() ==> merged[k] <= b[j as int],
        decreases a.len() - i + b.len() - j,
    {
        broadcast use {
            vstd::multiset::group_multiset_axioms,
            vstd::seq_lib::group_to_multiset_ensures,
        };

        if j >= b.len() || (i < a.len() && a[i] <= b[j]) {
            proof {
                assert(a@.take(i as int + 1) =~= a@.take(i as int).push(a[i as int]));
                assert(merged@.push(a[i as int]).to_multiset() =~= a@.take(
                    i as int + 1,
                ).to_multiset().add(b@.take(j as int).to_multiset()));
            }
            merged.push(a[i]);
            i += 1;
        } else {
            proof {
                assert(b@.take(j as int + 1) =~= b@.take(j as int).push(b[j as int]));
                assert(merged@.push(b[j as int]).to_multiset() =~= a@.take(
                    i as int,
                ).to_multiset().add(b@.take(j as int + 1).to_multiset()));
            }
            merged.push(b[j]);
            j += 1;
        }
    }
    proof {
        assert(a@.take(i as int) =~= a@);
        assert(b@.take(j as int) =~= b@);
        lemma_multiset_commutative(a@, b@);
    }
    merged
}

/// Sorts the samples from `from` up to, not including, `to`.
fn sort_range(samples: &Vec<u64>, from: usize, to: usize) -> (sorted: Vec<u64>)
    requires
        from <= to <= samples.len(),
    ensures
        is_ascending(sorted@),
        sorted@.to_multiset() == samples@.subrange(from as int, to as int).to_multiset(),
    decreases to - from,
{
    if to - from <= 1 {
        let mut sorted: Vec<u64> = Vec::new();
        if from < to {
            sorted.push(samples[from]);
        }
        assert(sorted@ =~= samples@.subrange(from as int, to as int));
        sorted
    } else {
        let mid: usize = from + (to - from) / 2;
        let left = sort_range(samples, from, mid);
        let right = sort_range(samples, mid, to);
        proof {
            let low = samples@.subrange(from as int, mid as int);
            let high = samples@.subrange(mid as int, to as int);
            assert(low + high =~= samples@.subrange(from as int, to as int));
            lemma_multiset_commutative(low, high);
            lemma_multiset_commutative(left@, right@);
        }
        merge(left, right)
    }
}

/// The samples in ascending order.
pub fn sorted_samples(samples: &Vec<u64>) -> (sorted: Vec<u64>)
    ensures
        sorted@ == ascending_order(samples@),
        sorted.len() == samples.len(),
{
    let sorted = sort_range(samples, 0, samples.len());
    proof {
        assert(samples@.subrange(0, samples.len() as int) =~= samples@);
        lemma_ascending_order_is_unique(samples@, sorted@);
        lemma_ascending_order(samples@);
    }
    sorted
}

} // verus!
