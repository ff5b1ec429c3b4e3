//! Numbers of the language: IEEE-754 binary64 values, held as their 64-bit
//! encodings.
//!
//! Sign, ordering and equality depend on the encoding alone and are decided
//! here. The four rounding operations are named by [`ArithOp`] and left to an
//! arithmetic function that the caller of the evaluator supplies.

use vstd::prelude::*;

verus! {

/// The sign bit of an encoding.
pub const SIGN_BIT: u64 = 0x8000_0000_0000_0000;

/// The encoding of positive infinity: every exponent bit set, no fraction bit.
pub const INFINITY_BITS: u64 = 0x7ff0_0000_0000_0000;

/// A rounding operation on two numbers.
#[derive(Clone, Copy, PartialEq, Eq, Structural, Debug)]
pub enum ArithOp {
    Add,
    Sub,
    Mul,
    Div,
}

/// The encoding without its sign bit.
pub open spec fn magnitude(bits: u64) -> int {
    if bits >= SIGN_BIT {
        bits - SIGN_BIT
    } else {
        bits as int
    }
}

/// Whether the sign bit is set.
pub open spec fn is_negative(bits: u64) -> bool {
    bits >= SIGN_BIT
}

/// Whether the encoding is a NaN: all exponent bits set and a fraction that is
/// not zero.
pub open spec fn is_nan(bits: u64) -> bool {
    magnitude(bits) > INFINITY_BITS
}

/// The place of a number that is not a NaN in the order of the reals extended
/// by the two infinities. Both zeros have place 0.
pub open spec fn order_key(bits: u64) -> int {
    if is_negative(bits) {
        -magnitude(bits)
    } else {
        magnitude(bits)
    }
}

/// `a == b` on numbers: false when either is a NaN, and the two zeros are equal.
pub open spec fn num_eq(a: u64, b: u64) -> bool {
    !is_nan(a) && !is_nan(b) && order_key(a) == order_key(b)
}

/// `a < b` on numbers: false when either is a NaN.
pub open spec fn num_lt(a: u64, b: u64) -> bool {
    !is_nan(a) && !is_nan(b) && order_key(a) < order_key(b)
}

/// `a <= b` on numbers: false when either is a NaN.
pub open spec fn num_le(a: u64, b: u64) -> bool {
    !is_nan(a) && !is_nan(b) && order_key(a) <= order_key(b)
}

/// `-a` on numbers: the same encoding with the sign bit flipped, for a NaN too.
pub open spec fn negated(bits: u64) -> u64 {
    if bits >= SIGN_BIT {
        (bits - SIGN_BIT) as u64
    } else {
        (bits + SIGN_BIT) as u64
    }
}

/// Whether `bits` encodes a NaN.
pub fn nan(bits: u64) -> (r: bool)
    ensures
        r == is_nan(bits),
{
    let abs: u64 = if bits >= SIGN_BIT {
        bits - SIGN_BIT
    } else {
        bits
    };
    abs > INFINITY_BITS
}

/// Flips the sign of a number.
pub fn negate(bits: u64) -> (r: u64)
    ensures
        r == negated(bits),
{
    if bits >= SIGN_BIT {
        bits - SIGN_BIT
    } else {
        bits + SIGN_BIT
    }
}

/// Whether `a < b` as numbers.
pub fn less(a: u64, b: u64) -> (r: bool)
    ensures
        r == num_lt(a, b),
{
    if nan(a) || nan(b) {
        return false;
    }
    if a >= SIGN_BIT {
        if b >= SIGN_BIT {
            // Both negative: the larger magnitude is the smaller number.
            a > b
        } else {
            // Negative against non-negative: smaller unless both are zero.
            a > SIGN_BIT || b > 0
        }
    } else {
        b < SIGN_BIT && a < b
    }
}

/// Whether `a == b` as numbers.
pub fn equal(a: u64, b: u64) -> (r: bool)
    ensures
        r == num_eq(a, b),
{
    if nan(a) || nan(b) {
        return false;
    }
    let a_zero = a == 0 || a == SIGN_BIT;
    let b_zero = b == 0 || b == SIGN_BIT;
    a == b || (a_zero && b_zero)
}

/// Whether `a <= b` as numbers.
pub fn less_equal(a: u64, b: u64) -> (r: bool)
    ensures
        r == num_le(a, b),
{
    less(a, b) || equal(a, b)
}

/// Whether `a > b` as numbers.
pub fn greater(a: u64, b: u64) -> (r: bool)
    ensures
        r == num_lt(b, a),
{
    less(b, a)
}

/// Whether `a >= b` as numbers.
pub fn greater_equal(a: u64, b: u64) -> (r: bool)
    ensures
        r == num_le(b, a),
{
    less_equal(b, a)
}

} // verus!
