//! The number that a finite double stands for, and the proof that keys
//! order finite doubles as their values do.
//!
//! Every finite double is a whole multiple of the smallest positive one,
//! two to the power -1074, so its value is given here as that multiple: an
//! integer.

use vstd::prelude::*;
use vstd::arithmetic::power2::{
    lemma_pow2_pos, lemma_pow2_strictly_increases, lemma_pow2_unfold, pow2,
};
use crate::encoding::{is_finite, is_negative, key_of, magnitude};

verus! {

/// Two to the power 52: the weight of the exponent field in a magnitude,
/// and the hidden leading bit of a normal double's significand.
pub const HIDDEN_BIT: u64 = 0x10_0000_0000_0000;

/// The exponent field of a magnitude.
pub open spec fn exponent(m: int) -> nat {
    (m / HIDDEN_BIT as int) as nat
}

/// The fraction field of a magnitude.
pub open spec fn fraction(m: int) -> nat {
    (m % HIDDEN_BIT as int) as nat
}

/// The absolute value of the double with magnitude `m`, in units of two to
/// the power -1074. With exponent field 0 the double is subnormal and its
/// value is the fraction; otherwise the significand is the fraction with
/// the hidden bit, scaled by the exponent.
pub open spec fn scaled_magnitude(m: int) -> int {
    if exponent(m) == 0 {
        fraction(m) as int
    } else {
        (HIDDEN_BIT + fraction(m)) * pow2((exponent(m) - 1) as nat)
    }
}

/// The value of the finite double with pattern `bits`, in units of two to
/// the power -1074.
pub open spec fn scaled_value(bits: u64) -> int {
    if is_negative(bits) {
        -scaled_magnitude(magnitude(bits))
    } else {
        scaled_magnitude(magnitude(bits))
    }
}

/// Every value with exponent field `e` is below `2^52 * 2^e`, and every
/// value with a positive exponent field `e` is at least `2^52 * 2^(e-1)`.
proof fn lemma_magnitude_bounds(m: int)
    requires
        0 <= m,
    ensures
        scaled_magnitude(m) < HIDDEN_BIT * pow2(exponent(m)),
        exponent(m) > 0 ==> scaled_magnitude(m) >= HIDDEN_BIT * pow2((exponent(m) - 1) as nat),
{
    let e = exponent(m);
    let f = fraction(m);
    assert(f < HIDDEN_BIT);
    lemma_pow2_pos(e);
    if e == 0 {
        assert(HIDDEN_BIT * pow2(e) >= HIDDEN_BIT) by (nonlinear_arith)
            requires
                pow2(e) > 0,
        ;
    } else {
        let p = pow2((e - 1) as nat);
        lemma_pow2_pos((e - 1) as nat);
        lemma_pow2_unfold(e);
        assert((HIDDEN_BIT + f) * p < HIDDEN_BIT * (2 * p)) by (nonlinear_arith)
            requires
                f < HIDDEN_BIT,
                p > 0,
        ;
        assert((HIDDEN_BIT + f) * p >= HIDDEN_BIT * p) by (nonlinear_arith)
            requires
                f >= 0,
                p > 0,
        ;
    }
}

/// A larger magnitude is a larger absolute value.
pub proof fn lemma_magnitude_order(m: int, n: int)
    requires
        0 <= m < n,
    ensures
        scaled_magnitude(m) < scaled_magnitude(n),
{
    let e = exponent(m);
    let g = exponent(n);
    assert(e <= g) by (nonlinear_arith)
        requires
            0 <= m < n,
            e == m / 0x10_0000_0000_0000,
            g == n / 0x10_0000_0000_0000,
    ;
    if e == g {
        assert(fraction(m) < fraction(n));
        if e > 0 {
            let p = pow2((e - 1) as nat);
            lemma_pow2_pos((e - 1) as nat);
            assert((HIDDEN_BIT + fraction(m)) * p < (HIDDEN_BIT + fraction(n)) * p)
                by (nonlinear_arith)
                requires
                    fraction(m) < fraction(n),
                    p > 0,
            ;
        }
    } else {
        lemma_magnitude_bounds(m);
        lemma_magnitude_bounds(n);
        let p = pow2(e);
        let q = pow2((g - 1) as nat);
        if e < g - 1 {
            lemma_pow2_strictly_increases(e, (g - 1) as nat);
        }
        assert(HIDDEN_BIT * p <= HIDDEN_BIT * q) by (nonlinear_arith)
            requires
                p <= q,
        ;
    }
}

/// Keys order finite doubles as their values do, and two finite doubles
/// have the same key exactly when they have the same value.
pub proof fn law_key_order(a: u64, b: u64)
    requires
        is_finite(a),
        is_finite(b),
    ensures
        key_of(a) < key_of(b) <==> scaled_value(a) < scaled_value(b),
        key_of(a) == key_of(b) <==> scaled_value(a) == scaled_value(b),
{
    let m = magnitude(a);
    let n = magnitude(b);
    if m < n {
        lemma_magnitude_order(m, n);
    }
    if n < m {
        lemma_magnitude_order(n, m);
    }
    if 0 < m {
        lemma_magnitude_order(0, m);
    }
    if 0 < n {
        lemma_magnitude_order(0, n);
    }
    assert(scaled_magnitude(0) == 0);
}

} // verus!
