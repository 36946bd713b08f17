//! Ordering of IEEE 754 single-precision values given by their bit patterns (the
//! `u32` that `f32::to_bits` gives).
//!
//! A value is NaN when its exponent bits are all set and its mantissa is not zero;
//! NaN is unordered with everything, itself included. Other values are ordered by
//! sign and magnitude, with negative and positive zero equal.

use vstd::prelude::*;

verus! {

/// Bit pattern of the sign.
pub const SIGN_BIT: u32 = 0x8000_0000;

/// Bit pattern of positive infinity: the largest magnitude that is not NaN.
pub const POSITIVE_INFINITY_BITS: u32 = 0x7F80_0000;

/// The magnitude bits (everything but the sign) of `bits`.
pub open spec fn magnitude(bits: u32) -> int {
    if bits >= SIGN_BIT {
        bits - SIGN_BIT
    } else {
        bits as int
    }
}

/// `bits` is a NaN.
pub open spec fn is_nan(bits: u32) -> bool {
    magnitude(bits) > POSITIVE_INFINITY_BITS
}

/// Position of a value that is not NaN on the number line: values compare as
/// their ranks do.
pub open spec fn rank(bits: u32) -> int {
    if bits >= SIGN_BIT {
        -magnitude(bits)
    } else {
        magnitude(bits)
    }
}

/// `a < b` for the values with bit patterns `a` and `b`.
pub open spec fn less(a: u32, b: u32) -> bool {
    !is_nan(a) && !is_nan(b) && rank(a) < rank(b)
}

/// `a <= b` for the values with bit patterns `a` and `b`.
pub open spec fn at_most(a: u32, b: u32) -> bool {
    !is_nan(a) && !is_nan(b) && rank(a) <= rank(b)
}

/// `a == b` for the values with bit patterns `a` and `b`.
pub open spec fn same_value(a: u32, b: u32) -> bool {
    !is_nan(a) && !is_nan(b) && rank(a) == rank(b)
}

fn rank_of(bits: u32) -> (r: i64)
    ensures
        r == rank(bits),
{
    if bits >= SIGN_BIT {
        -((bits - SIGN_BIT) as i64)
    } else {
        bits as i64
    }
}

fn nan(bits: u32) -> (r: bool)
    ensures
        r == is_nan(bits),
{
    let m = if bits >= SIGN_BIT {
        bits - SIGN_BIT
    } else {
        bits
    };
    m > POSITIVE_INFINITY_BITS
}

/// Whether the value with bit pattern `a` is below the one with bit pattern `b`.
pub fn bits_less(a: u32, b: u32) -> (r: bool)
    ensures
        r == less(a, b),
{
    !nan(a) && !nan(b) && rank_of(a) < rank_of(b)
}

/// Whether the value with bit pattern `a` is at most the one with bit pattern `b`.
pub fn bits_at_most(a: u32, b: u32) -> (r: bool)
    ensures
        r == at_most(a, b),
{
    !nan(a) && !nan(b) && rank_of(a) <= rank_of(b)
}

/// Whether the values with bit patterns `a` and `b` are equal.
pub fn bits_equal(a: u32, b: u32) -> (r: bool)
    ensures
        r == same_value(a, b),
{
    !nan(a) && !nan(b) && rank_of(a) == rank_of(b)
}

} // verus!
