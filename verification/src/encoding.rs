//! Finite IEEE-754 doubles as integer keys.
//!
//! A double is handled by its 64-bit pattern: one sign bit, then 63 bits of
//! magnitude (exponent and fraction). Among finite doubles a larger
//! magnitude is a larger absolute value, so the signed magnitude orders them
//! as their values do, and the two zeros, which compare equal, share the
//! key 0.

use vstd::prelude::*;

verus! {

/// The bit that holds the sign.
pub const SIGN_BIT: u64 = 0x8000_0000_0000_0000;

/// The magnitude of infinity: every finite double has a smaller one, every
/// NaN a larger one.
pub const INFINITY_BITS: u64 = 0x7ff0_0000_0000_0000;

/// The pattern without its sign bit.
pub open spec fn magnitude(bits: u64) -> int {
    if bits >= SIGN_BIT {
        bits - SIGN_BIT
    } else {
        bits as int
    }
}

/// The sign bit is set.
pub open spec fn is_negative(bits: u64) -> bool {
    bits >= SIGN_BIT
}

/// The pattern is neither an infinity nor a NaN.
pub open spec fn is_finite(bits: u64) -> bool {
    magnitude(bits) < INFINITY_BITS
}

/// The signed magnitude of a pattern.
pub open spec fn key_of(bits: u64) -> int {
    if is_negative(bits) {
        -magnitude(bits)
    } else {
        magnitude(bits)
    }
}

/// `key` is the key of some finite double.
pub open spec fn is_key(key: int) -> bool {
    -INFINITY_BITS < key < INFINITY_BITS
}

/// The pattern that a key stands for; for the key 0 it is positive zero.
pub open spec fn bits_of(key: int) -> int {
    if key < 0 {
        SIGN_BIT - key
    } else {
        key
    }
}

/// Whether the pattern is that of a finite double.
pub fn is_finite_bits(bits: u64) -> (r: bool)
    ensures
        r == is_finite(bits),
{
    if bits >= SIGN_BIT {
        bits - SIGN_BIT < INFINITY_BITS
    } else {
        bits < INFINITY_BITS
    }
}

/// The key of a pattern.
pub fn key_of_bits(bits: u64) -> (r: i64)
    ensures
        r == key_of(bits),
{
    if bits >= SIGN_BIT {
        let m: u64 = bits - SIGN_BIT;
        -(m as i64)
    } else {
        bits as i64
    }
}

/// The pattern of a key, or nothing where `key` is the key of no finite
/// double.
pub fn bits_of_key(key: i64) -> (r: Option<u64>)
    ensures
        is_key(key as int) ==> r == Some(bits_of(key as int) as u64),
        !is_key(key as int) ==> r.is_none(),
        r matches Some(b) ==> is_finite(b) && key_of(b) == key,
{
    if key <= -0x7ff0_0000_0000_0000i64 || key >= 0x7ff0_0000_0000_0000i64 {
        None
    } else if key < 0 {
        let m: i64 = -key;
        Some(SIGN_BIT + (m as u64))
    } else {
        Some(key as u64)
    }
}

/// What becomes of one input line.
#[derive(Clone, Copy, Debug, PartialEq, Eq)]
pub enum Line {
    /// The line held a finite number; its key joins the sample.
    Value(i64),
    /// The line held no number.
    Unparseable,
    /// The line held an infinity or a NaN.
    NonFinite,
}

/// The fate of a line, given the pattern that parsing it produced, if any:
/// only a finite number is kept.
pub open spec fn line_of(parsed: Option<u64>) -> Line {
    match parsed {
        None => Line::Unparseable,
        Some(bits) => if is_finite(bits) {
            Line::Value(key_of(bits) as i64)
        } else {
            Line::NonFinite
        },
    }
}

/// The sample after a line with the given fate: one key longer for a
/// value, unchanged for a skipped line.
pub open spec fn with_line(sample: Seq<i64>, line: Line) -> Seq<i64> {
    match line {
        Line::Value(key) => sample.push(key),
        _ => sample,
    }
}

/// Decides the fate of one line from the result of parsing it.
pub fn classify(parsed: Option<u64>) -> (r: Line)
    ensures
        r == line_of(parsed),
{
    match parsed {
        None => Line::Unparseable,
        Some(bits) => {
            if is_finite_bits(bits) {
                Line::Value(key_of_bits(bits))
            } else {
                Line::NonFinite
            }
        },
    }
}

/// Adds one line to the sample: the key of a finite number is appended, and
/// any other line leaves the sample as it was. Returns the line's fate.
pub fn collect_line(sample: &mut Vec<i64>, parsed: Option<u64>) -> (r: Line)
    ensures
        r == line_of(parsed),
        final(sample)@ == with_line(old(sample)@, r),
{
    let line = classify(parsed);
    match line {
        Line::Value(key) => {
            sample.push(key);
        },
        _ => {},
    }
    line
}

} // verus!
