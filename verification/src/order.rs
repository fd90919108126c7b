//! Ordering of key sequences: what it means to be sorted, how often a key
//! occurs, and the one sorted arrangement of a sample.

use vstd::prelude::*;
use vstd::relations::{sorted_by, total_ordering};
use vstd::seq_lib::{group_to_multiset_ensures, lemma_sorted_unique};

verus! {

/// The usual order on keys, as a relation.
pub open spec fn key_leq() -> spec_fn(i64, i64) -> bool {
    |a: i64, b: i64| a <= b
}

/// `s` is in non-decreasing order.
pub open spec fn sorted(s: Seq<i64>) -> bool {
    forall|i: int, j: int| 0 <= i <= j < s.len() ==> s[i] <= s[j]
}

/// How many times `x` occurs in `s`.
pub open spec fn count(s: Seq<i64>, x: i64) -> nat {
    s.to_multiset().count(x)
}

/// The elements of `s` arranged in non-decreasing order.
pub open spec fn in_order(s: Seq<i64>) -> Seq<i64> {
    s.sort_by(key_leq())
}

/// The order on keys is total.
pub proof fn lemma_key_leq_total()
    ensures
        total_ordering(key_leq()),
{
}

/// `in_order(s)` is sorted and holds exactly the elements of `s`.
pub proof fn lemma_in_order(s: Seq<i64>)
    ensures
        sorted(in_order(s)),
        in_order(s).to_multiset() == s.to_multiset(),
        in_order(s).len() == s.len(),
{
    broadcast use group_to_multiset_ensures;

    lemma_key_leq_total();
    s.lemma_sort_by_ensures(key_leq());
    let t = in_order(s);
    assert(t.to_multiset() =~= s.to_multiset());
    assert(t.len() == t.to_multiset().len());
    assert(s.len() == s.to_multiset().len());
    assert forall|i: int, j: int| 0 <= i <= j < t.len() implies t[i] <= t[j] by {
        if i < j {
            assert(key_leq()(t[i], t[j]));
        }
    }
}

/// A sorted sequence with the elements of `s` is `in_order(s)`: the sorted
/// arrangement of a sample is unique.
pub proof fn lemma_in_order_unique(s: Seq<i64>, t: Seq<i64>)
    requires
        sorted(t),
        t.to_multiset() == s.to_multiset(),
    ensures
        t == in_order(s),
{
    lemma_key_leq_total();
    lemma_in_order(s);
    let u = in_order(s);
    assert(sorted_by(t, key_leq()));
    assert(sorted_by(u, key_leq()));
    lemma_sorted_unique(t, u, key_leq());
}

/// Appending `a` adds one occurrence of `a` and none of any other key.
pub proof fn lemma_count_push(s: Seq<i64>, a: i64, x: i64)
    ensures
        count(s.push(a), x) == count(s, x) + (if a == x { 1nat } else { 0nat }),
{
    broadcast use group_to_multiset_ensures;
    broadcast use vstd::multiset::group_multiset_axioms;

    assert(s.push(a).to_multiset() =~= s.to_multiset().insert(a));
}

/// A key that stands at no position of `s` occurs zero times in it.
pub proof fn lemma_count_absent(s: Seq<i64>, x: i64)
    requires
        forall|i: int| 0 <= i < s.len() ==> s[i] != x,
    ensures
        count(s, x) == 0,
{
    broadcast use group_to_multiset_ensures;

    assert(!s.contains(x));
}

/// No key occurs more often than the sample is long.
pub proof fn lemma_count_bounded(s: Seq<i64>, x: i64)
    ensures
        count(s, x) <= s.len(),
    decreases s.len(),
{
    if s.len() == 0 {
        lemma_count_absent(s, x);
    } else {
        lemma_count_bounded(s.drop_last(), x);
        assert(s =~= s.drop_last().push(s.last()));
        lemma_count_push(s.drop_last(), s.last(), x);
    }
}

/// Sorts `v` in place with `[i64]::sort_unstable` of the standard library,
/// which is documented to leave the slice in ascending order and to
/// rearrange, never add or drop, its elements.
#[verifier::external_body]
pub(crate) fn sort_keys(v: &mut Vec<i64>)
    ensures
        sorted(final(v)@),
        final(v)@.to_multiset() == old(v)@.to_multiset(),
{
    v.sort_unstable();
}

} // verus!
