//! What holds of every summary, proved from the definitions.

use vstd::prelude::*;
use vstd::seq_lib::group_to_multiset_ensures;
use crate::encoding::{is_finite, line_of, with_line};
use crate::mode::is_mode;
use crate::order::{
    count, in_order, lemma_count_absent, lemma_count_bounded, lemma_count_push, lemma_in_order,
    lemma_in_order_unique, sorted,
};
use crate::percentile::{lemma_rank_in_bounds, lemma_rank_monotonic, nearest_rank, rank};
use crate::summary::Stats;

verus! {

/// The sample of `n` copies of `k`.
pub open spec fn constant(k: i64, n: nat) -> Seq<i64> {
    Seq::new(n, |i: int| k)
}

/// A sample has one summary: two records that describe it are equal.
pub proof fn law_summary_unique(s: Seq<i64>, a: Stats, b: Stats)
    requires
        a.describes(s),
        b.describes(s),
    ensures
        a == b,
{
    if s.len() == 0 {
        if a.mode.is_some() {
            lemma_count_absent(s, a.mode.unwrap());
        }
        if b.mode.is_some() {
            lemma_count_absent(s, b.mode.unwrap());
        }
    } else {
        let m = a.mode.unwrap();
        let n = b.mode.unwrap();
        assert(count(s, m) <= b.mode_count);
        assert(count(s, n) <= a.mode_count);
        assert(a.mode_count == b.mode_count);
        assert(m <= n && n <= m);
    }
    assert(a.mode == b.mode);
}

/// The count is the number of elements of the sample.
pub proof fn law_len(s: Seq<i64>, r: Stats)
    requires
        r.describes(s),
    ensures
        r.len == s.len(),
{
}

/// Two samples with the same elements have the same sorted arrangement,
/// however each lists them.
pub proof fn law_order_of_rearrangement(s: Seq<i64>, t: Seq<i64>)
    requires
        s.to_multiset() == t.to_multiset(),
    ensures
        in_order(s) == in_order(t),
{
    lemma_in_order(t);
    lemma_in_order_unique(s, in_order(t));
}

/// A percentile depends on the elements of the sample alone, not on the
/// order in which the sample lists them.
pub proof fn law_percentile_of_rearrangement(s: Seq<i64>, t: Seq<i64>, percent: nat)
    requires
        s.to_multiset() == t.to_multiset(),
    ensures
        nearest_rank(in_order(s), percent) == nearest_rank(in_order(t), percent),
{
    law_order_of_rearrangement(s, t);
}

/// The whole summary depends on the elements of the sample alone: a record
/// that describes a sample describes each rearrangement of it.
pub proof fn law_summary_of_rearrangement(s: Seq<i64>, t: Seq<i64>, r: Stats)
    requires
        s.to_multiset() == t.to_multiset(),
        r.describes(s),
    ensures
        r.describes(t),
{
    broadcast use group_to_multiset_ensures;

    law_order_of_rearrangement(s, t);
    assert(s.len() == s.to_multiset().len());
    assert(t.len() == t.to_multiset().len());
    assert forall|x: i64| #[trigger] count(t, x) == count(s, x) by {}
}

/// A line that is skipped, because it holds no number or none that is
/// finite, changes nothing in the summary: neither the count nor any other
/// field.
pub proof fn law_skipped_line(sample: Seq<i64>, parsed: Option<u64>, before: Stats, after: Stats)
    requires
        !(line_of(parsed) is Value),
        before.describes(sample),
        after.describes(with_line(sample, line_of(parsed))),
    ensures
        with_line(sample, line_of(parsed)) == sample,
        after == before,
{
    law_summary_unique(sample, before, after);
}

/// A line that holds a finite number adds one to the count.
pub proof fn law_kept_line(sample: Seq<i64>, parsed: Option<u64>, before: Stats, after: Stats)
    requires
        line_of(parsed) is Value,
        before.describes(sample),
        after.describes(with_line(sample, line_of(parsed))),
    ensures
        parsed.is_some(),
        is_finite(parsed.unwrap()),
        after.len == before.len + 1,
{
}

/// The summary of the empty sample: count and mode count are zero, and no
/// other field has a value.
pub proof fn law_empty(r: Stats)
    requires
        r.describes(Seq::<i64>::empty()),
    ensures
        r.len == 0,
        r.mode_count == 0,
        r.mode.is_none(),
        r.min.is_none(),
        r.max.is_none(),
        r.p50.is_none(),
        r.p75.is_none(),
        r.p90.is_none(),
        r.p95.is_none(),
        r.p99.is_none(),
{
    let s = Seq::<i64>::empty();
    lemma_in_order(s);
    if r.mode.is_some() {
        lemma_count_absent(s, r.mode.unwrap());
    }
}

/// In the sample of `n` copies of `k`, `k` occurs `n` times and no other
/// key occurs.
pub proof fn lemma_count_constant(k: i64, n: nat, x: i64)
    ensures
        count(constant(k, n), x) == (if x == k { n } else { 0 }),
    decreases n,
{
    if n == 0 || x != k {
        lemma_count_absent(constant(k, n), x);
    } else {
        let shorter = constant(k, (n - 1) as nat);
        lemma_count_constant(k, (n - 1) as nat, x);
        assert(constant(k, n) =~= shorter.push(k));
        lemma_count_push(shorter, k, x);
    }
}

/// The summary of `n > 0` copies of `k`: the count is `n`, the mode is `k`
/// and occurs `n` times, and the extremes and every percentile are `k`.
pub proof fn law_constant(k: i64, n: nat, r: Stats)
    requires
        n > 0,
        r.describes(constant(k, n)),
    ensures
        r.len == n,
        r.mode == Some(k),
        r.mode_count == n,
        r.min == Some(k),
        r.max == Some(k),
        r.p50 == Some(k),
        r.p75 == Some(k),
        r.p90 == Some(k),
        r.p95 == Some(k),
        r.p99 == Some(k),
{
    let s = constant(k, n);
    assert(sorted(s));
    lemma_in_order_unique(s, s);
    lemma_rank_in_bounds(n, 50);
    lemma_rank_in_bounds(n, 75);
    lemma_rank_in_bounds(n, 90);
    lemma_rank_in_bounds(n, 95);
    lemma_rank_in_bounds(n, 99);
    let m = r.mode.unwrap();
    lemma_count_constant(k, n, m);
}

/// The summary of a sample of one element `x`: the mode is `x` with one
/// occurrence, and the extremes and every percentile are `x`.
pub proof fn law_single(x: i64, r: Stats)
    requires
        r.describes(seq![x]),
    ensures
        r.len == 1,
        r.mode == Some(x),
        r.mode_count == 1,
        r.min == Some(x),
        r.max == Some(x),
        r.p50 == Some(x),
        r.p75 == Some(x),
        r.p90 == Some(x),
        r.p95 == Some(x),
        r.p99 == Some(x),
{
    assert(seq![x] =~= constant(x, 1));
    law_constant(x, 1, r);
}

/// The mode is an element of the sample, it occurs as often as the mode
/// count says, which is at least once and at most the length of the sample,
/// no key occurs more often, and a key that occurs as often is not smaller.
pub proof fn law_mode_is_most_frequent(s: Seq<i64>, r: Stats, x: i64)
    requires
        r.describes(s),
        s.len() > 0,
    ensures
        r.mode.is_some(),
        s.contains(r.mode.unwrap()),
        count(s, r.mode.unwrap()) == r.mode_count,
        1 <= r.mode_count <= r.len,
        count(s, x) <= r.mode_count,
        count(s, x) == r.mode_count ==> r.mode.unwrap() <= x,
{
    broadcast use group_to_multiset_ensures;

    let m = r.mode.unwrap();
    assert(is_mode(s, m, r.mode_count as nat));
    assert(count(s, m) > 0);
    lemma_count_bounded(s, m);
}

/// The minimum and the maximum are elements of the sample, and every
/// element lies between them.
pub proof fn law_extremes_bound(s: Seq<i64>, r: Stats, i: int)
    requires
        r.describes(s),
        0 <= i < s.len(),
    ensures
        r.min.is_some(),
        r.max.is_some(),
        s.contains(r.min.unwrap()),
        s.contains(r.max.unwrap()),
        r.min.unwrap() <= s[i] <= r.max.unwrap(),
{
    broadcast use group_to_multiset_ensures;

    let t = in_order(s);
    lemma_in_order(s);
    assert(t.contains(t[0]));
    assert(t.contains(t[t.len() - 1]));
    assert(s.contains(s[i]));
    assert(t.to_multiset().count(s[i]) > 0);
    assert(t.contains(s[i]));
    let j = choose|j: int| 0 <= j < t.len() && t[j] == s[i];
    assert(t[0] <= t[j] <= t[t.len() - 1]);
    assert(s.to_multiset().count(t[0]) > 0);
    assert(s.to_multiset().count(t[t.len() - 1]) > 0);
}

/// The percentiles rise with their percentage and lie between the extremes.
pub proof fn law_percentiles_ordered(s: Seq<i64>, r: Stats)
    requires
        r.describes(s),
        s.len() > 0,
    ensures
        r.min.unwrap() <= r.p50.unwrap(),
        r.p50.unwrap() <= r.p75.unwrap(),
        r.p75.unwrap() <= r.p90.unwrap(),
        r.p90.unwrap() <= r.p95.unwrap(),
        r.p95.unwrap() <= r.p99.unwrap(),
        r.p99.unwrap() <= r.max.unwrap(),
{
    let t = in_order(s);
    let n = t.len();
    lemma_in_order(s);
    lemma_rank_in_bounds(n, 50);
    lemma_rank_in_bounds(n, 75);
    lemma_rank_in_bounds(n, 90);
    lemma_rank_in_bounds(n, 95);
    lemma_rank_in_bounds(n, 99);
    lemma_rank_monotonic(n, 50, 75);
    lemma_rank_monotonic(n, 75, 90);
    lemma_rank_monotonic(n, 90, 95);
    lemma_rank_monotonic(n, 95, 99);
    assert(t[0] <= t[rank(n, 50) as int]);
    assert(t[rank(n, 50) as int] <= t[rank(n, 75) as int]);
    assert(t[rank(n, 75) as int] <= t[rank(n, 90) as int]);
    assert(t[rank(n, 90) as int] <= t[rank(n, 95) as int]);
    assert(t[rank(n, 95) as int] <= t[rank(n, 99) as int]);
    assert(t[rank(n, 99) as int] <= t[n - 1]);
}

} // verus!
