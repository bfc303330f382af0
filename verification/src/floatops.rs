//! Binary64 values as opaque bit patterns.
//!
//! The engine stores every floating-point value as the `u64` bit pattern of
//! an IEEE-754 binary64 number and never computes with machine floating
//! point itself.  The pieces of binary64 behaviour that are pure bit
//! manipulation — the NaN and zero tests, sign negation, and the standard
//! sign-magnitude ordering — are defined and verified here.  The remaining
//! operations (arithmetic, the conversions with integers and with decimal
//! text) are supplied by the embedder through the [`FloatOps`] trait; the
//! engine's contracts treat their results as unconstrained bit patterns.

use vstd::prelude::*;

verus! {

/// Mask of the sign bit of a binary64 bit pattern.
pub const F64_SIGN_MASK: u64 = 0x8000_0000_0000_0000;

/// Mask of the exponent and mantissa bits of a binary64 bit pattern.
pub const F64_ABS_MASK: u64 = 0x7fff_ffff_ffff_ffff;

/// Bit pattern of positive infinity; every pattern whose magnitude bits
/// exceed it encodes a NaN.
pub const F64_INF_BITS: u64 = 0x7ff0_0000_0000_0000;

/// True when the bit pattern encodes a NaN: the exponent field is all ones
/// and the mantissa is not zero.
pub open spec fn f64_is_nan(b: u64) -> bool {
    b & F64_ABS_MASK > F64_INF_BITS
}

/// True when the bit pattern encodes a zero (either `+0.0` or `-0.0`).
pub open spec fn f64_is_zero(b: u64) -> bool {
    b & F64_ABS_MASK == 0
}

/// The bit pattern of the negation: the sign bit is flipped.
pub open spec fn f64_neg(b: u64) -> u64 {
    b ^ F64_SIGN_MASK
}

/// The key under which non-NaN binary64 bit patterns order as the values
/// they encode: negative patterns are mapped below positive ones and their
/// magnitude order is reversed.
pub open spec fn f64_order_key(b: u64) -> u64 {
    if b >= F64_SIGN_MASK {
        !b
    } else {
        (b + F64_SIGN_MASK) as u64
    }
}

/// IEEE-754 equality on bit patterns: NaN equals nothing, the two zeros are
/// equal, and every other value is equal exactly to itself.
pub open spec fn f64_eq(a: u64, b: u64) -> bool {
    &&& !f64_is_nan(a)
    &&& !f64_is_nan(b)
    &&& (a == b || (f64_is_zero(a) && f64_is_zero(b)))
}

/// IEEE-754 `<` on bit patterns: false whenever either side is NaN or both
/// sides are zeros, and otherwise the sign-magnitude order of the encoded
/// values.
pub open spec fn f64_lt(a: u64, b: u64) -> bool {
    &&& !f64_is_nan(a)
    &&& !f64_is_nan(b)
    &&& !(f64_is_zero(a) && f64_is_zero(b))
    &&& f64_order_key(a) < f64_order_key(b)
}

/// IEEE-754 `<=` on bit patterns.
pub open spec fn f64_le(a: u64, b: u64) -> bool {
    f64_lt(a, b) || f64_eq(a, b)
}

/// Runtime NaN test; see [`f64_is_nan`].
pub fn f64_bits_is_nan(b: u64) -> (r: bool)
    ensures
        r == f64_is_nan(b),
{
    b & F64_ABS_MASK > F64_INF_BITS
}

/// Runtime zero test; see [`f64_is_zero`].
pub fn f64_bits_is_zero(b: u64) -> (r: bool)
    ensures
        r == f64_is_zero(b),
{
    b & F64_ABS_MASK == 0
}

/// Runtime negation; see [`f64_neg`].
pub fn f64_bits_neg(b: u64) -> (r: u64)
    ensures
        r == f64_neg(b),
{
    b ^ F64_SIGN_MASK
}

/// Runtime equality; see [`f64_eq`].
pub fn f64_bits_eq(a: u64, b: u64) -> (r: bool)
    ensures
        r == f64_eq(a, b),
{
    !f64_bits_is_nan(a) && !f64_bits_is_nan(b) && (a == b || (f64_bits_is_zero(a)
        && f64_bits_is_zero(b)))
}

/// Runtime `<`; see [`f64_lt`].
pub fn f64_bits_lt(a: u64, b: u64) -> (r: bool)
    ensures
        r == f64_lt(a, b),
{
    if f64_bits_is_nan(a) || f64_bits_is_nan(b) {
        return false;
    }
    if f64_bits_is_zero(a) && f64_bits_is_zero(b) {
        return false;
    }
    let ka: u64 = if a >= F64_SIGN_MASK {
        !a
    } else {
        a + F64_SIGN_MASK
    };
    let kb: u64 = if b >= F64_SIGN_MASK {
        !b
    } else {
        b + F64_SIGN_MASK
    };
    ka < kb
}

/// Runtime `<=`; see [`f64_le`].
pub fn f64_bits_le(a: u64, b: u64) -> (r: bool)
    ensures
        r == f64_le(a, b),
{
    f64_bits_lt(a, b) || f64_bits_eq(a, b)
}

/// The binary64 operations the engine cannot perform itself.
///
/// Every method takes and returns binary64 values as their bit patterns.
/// The engine states nothing about the results: a value that passes through
/// one of these operations is left open in the engine's contracts.  An
/// embedder is expected to implement each method with the machine's own
/// floating point — `add` as `+` on the encoded values, `from_int` as the
/// rounding conversion of the integer, `to_int` as the saturating truncation
/// toward zero, `from_text` as the reading of a decimal literal and
/// `to_text` as its printing — and every method must return normally on all
/// inputs.
pub trait FloatOps {
    /// The sum of the two encoded values.
    fn add(&self, a: u64, b: u64) -> u64;

    /// The difference of the two encoded values.
    fn sub(&self, a: u64, b: u64) -> u64;

    /// The product of the two encoded values.
    fn mul(&self, a: u64, b: u64) -> u64;

    /// The quotient of the two encoded values.
    fn div(&self, a: u64, b: u64) -> u64;

    /// The first encoded value raised to the second.
    fn pow(&self, a: u64, b: u64) -> u64;

    /// The binary64 value nearest to the integer.
    fn from_int(&self, i: i64) -> u64;

    /// The encoded value truncated toward zero to an integer.
    fn to_int(&self, b: u64) -> i64;

    /// The binary64 value a decimal literal denotes.
    fn from_text(&self, s: &str) -> u64;

    /// The decimal text of the encoded value.
    fn to_text(&self, b: u64) -> String;
}

} // verus!
