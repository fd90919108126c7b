//! The summary record of a sample and the function that computes it.

use vstd::prelude::*;
use vstd::seq_lib::group_to_multiset_ensures;
use crate::mode::{mode_of, sorted_mode};
use crate::order::{count, in_order, lemma_in_order_unique, sort_keys};
use crate::percentile::{nearest_rank, percentile};

verus! {

/// The order statistics of one sample. A field that has no value for the
/// empty sample is `None` there.
#[derive(Clone, Copy, Debug, PartialEq, Eq)]
pub struct Stats {
    /// Number of elements.
    pub len: usize,
    /// Smallest element.
    pub min: Option<i64>,
    /// Largest element.
    pub max: Option<i64>,
    /// Most frequent element, the smallest of several equally frequent ones.
    pub mode: Option<i64>,
    /// How often the mode occurs.
    pub mode_count: usize,
    /// Median.
    pub p50: Option<i64>,
    /// 75th percentile.
    pub p75: Option<i64>,
    /// 90th percentile.
    pub p90: Option<i64>,
    /// 95th percentile.
    pub p95: Option<i64>,
    /// 99th percentile.
    pub p99: Option<i64>,
}

/// First element of `s`, or nothing where `s` is empty.
pub open spec fn first_of(s: Seq<i64>) -> Option<i64> {
    if s.len() == 0 {
        None
    } else {
        Some(s[0])
    }
}

/// Last element of `s`, or nothing where `s` is empty.
pub open spec fn last_of(s: Seq<i64>) -> Option<i64> {
    if s.len() == 0 {
        None
    } else {
        Some(s[s.len() - 1])
    }
}

impl Stats {
    /// This record is the summary of the sample `s`, whatever the order in
    /// which `s` lists its elements.
    pub open spec fn describes(self, s: Seq<i64>) -> bool {
        let t = in_order(s);
        &&& self.len == s.len()
        &&& self.min == first_of(t)
        &&& self.max == last_of(t)
        &&& mode_of(s, self.mode, self.mode_count as nat)
        &&& self.p50 == nearest_rank(t, 50)
        &&& self.p75 == nearest_rank(t, 75)
        &&& self.p90 == nearest_rank(t, 90)
        &&& self.p95 == nearest_rank(t, 95)
        &&& self.p99 == nearest_rank(t, 99)
    }
}

/// Smallest and largest element of `v`, which the caller has put in order.
pub fn extremes(v: &[i64]) -> (r: (Option<i64>, Option<i64>))
    ensures
        r.0 == first_of(v@),
        r.1 == last_of(v@),
{
    let n: usize = v.len();
    if n == 0 {
        (None, None)
    } else {
        (Some(v[0]), Some(v[n - 1]))
    }
}

/// Puts `v` in non-decreasing order and returns the summary of the sample
/// it holds. The empty sample is summarised too, not refused: its count and
/// its mode count are zero, and its extremes, mode and percentiles are
/// `None`.
pub fn stats(v: &mut Vec<i64>) -> (r: Stats)
    ensures
        final(v)@ == in_order(old(v)@),
        r.len == old(v)@.len(),
        r.describes(old(v)@),
{
    sort_keys(v);
    proof {
        broadcast use group_to_multiset_ensures;

        lemma_in_order_unique(old(v)@, v@);
        assert(v@.len() == v@.to_multiset().len());
        assert(old(v)@.len() == old(v)@.to_multiset().len());
    }
    let (min, max) = extremes(v.as_slice());
    let (mode, mode_count) = sorted_mode(v.as_slice());
    proof {
        assert forall|x: i64| #[trigger] count(old(v)@, x) == count(v@, x) by {}
    }
    Stats {
        len: v.len(),
        min,
        max,
        mode,
        mode_count,
        p50: percentile(v.as_slice(), 50),
        p75: percentile(v.as_slice(), 75),
        p90: percentile(v.as_slice(), 90),
        p95: percentile(v.as_slice(), 95),
        p99: percentile(v.as_slice(), 99),
    }
}

} // verus!
