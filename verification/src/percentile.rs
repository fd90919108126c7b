//! Truncating nearest-rank percentiles.
//!
//! A percentile is an element of the sample, picked by its rank in sorted
//! order. The rank is computed in whole numbers, so it is exact for a sample
//! of any length: no product is rounded before it is truncated.

use vstd::prelude::*;

verus! {

/// The rank that the `percent`-th percentile takes in a sample of `len`
/// elements: `len * percent / 100`, rounded down.
pub open spec fn rank(len: nat, percent: nat) -> nat {
    len * percent / 100
}

/// The element of `s` at the rank of the `percent`-th percentile, or nothing
/// where `s` is empty. No neighbouring elements are averaged.
pub open spec fn nearest_rank(s: Seq<i64>, percent: nat) -> Option<i64> {
    if s.len() == 0 {
        None
    } else {
        Some(s[rank(s.len(), percent) as int])
    }
}

/// Below one hundred percent the rank is an index into the sample.
pub proof fn lemma_rank_in_bounds(len: nat, percent: nat)
    requires
        0 < len,
        percent < 100,
    ensures
        rank(len, percent) < len,
{
    assert(len * percent / 100 < len) by (nonlinear_arith)
        requires
            0 < len,
            percent < 100,
    ;
}

/// A larger percentage never has a smaller rank.
pub proof fn lemma_rank_monotonic(len: nat, p: nat, q: nat)
    requires
        p <= q,
    ensures
        rank(len, p) <= rank(len, q),
{
    assert(len * p / 100 <= len * q / 100) by (nonlinear_arith)
        requires
            p <= q,
    ;
}

/// The index of the `percent`-th percentile in a sample of `len` elements.
pub fn percentile_rank(len: usize, percent: u8) -> (r: usize)
    requires
        0 < percent < 100,
    ensures
        r == rank(len as nat, percent as nat),
        len > 0 ==> r < len,
{
    let wide: u128 = len as u128;
    proof {
        assert(wide * (percent as u128) <= 0xffff_ffff_ffff_ffff * 100) by (nonlinear_arith)
            requires
                wide <= 0xffff_ffff_ffff_ffff,
                percent < 100,
        ;
        if len > 0 {
            lemma_rank_in_bounds(len as nat, percent as nat);
        } else {
            assert(0nat * (percent as nat) / 100 == 0) by (nonlinear_arith);
        }
    }
    let scaled: u128 = wide * (percent as u128);
    let index: u128 = scaled / 100;
    index as usize
}

/// The `percent`-th percentile of `v`, which the caller has put in order:
/// the element at rank `len * percent / 100`, or nothing where `v` is empty.
pub fn percentile(v: &[i64], percent: u8) -> (r: Option<i64>)
    requires
        0 < percent < 100,
    ensures
        r == nearest_rank(v@, percent as nat),
{
    let n: usize = v.len();
    if n == 0 {
        None
    } else {
        let i: usize = percentile_rank(n, percent);
        Some(v[i])
    }
}

} // verus!
