//! Real scalars, carried as IEEE 754 binary64 bit patterns.
//!
//! The drivers never compute with a scalar. They move it, store zero, and
//! compare a residual norm with a threshold; this module gives the order
//! that such a comparison follows.
use vstd::prelude::*;

verus! {

/// The pattern of positive zero.
pub const ZERO: u64 = 0;

/// The sign bit; every pattern at or above it is negative.
pub const SIGN: u64 = 0x8000_0000_0000_0000;

/// The pattern of positive infinity, the largest magnitude that is a number.
pub const INFINITY: u64 = 0x7FF0_0000_0000_0000;

/// The pattern without its sign bit: exponent and fraction.
pub open spec fn magnitude(x: u64) -> int {
    if x >= SIGN {
        x - SIGN
    } else {
        x as int
    }
}

/// Whether the pattern encodes no number.
pub open spec fn is_nan(x: u64) -> bool {
    magnitude(x) > INFINITY
}

/// An integer that orders the numbers as their values do. Both zeros get 0.
pub open spec fn rank(x: u64) -> int {
    if x >= SIGN {
        -magnitude(x)
    } else {
        magnitude(x)
    }
}

/// `a > b` as IEEE 754 defines it: false as soon as one side is no number.
pub open spec fn greater(a: u64, b: u64) -> bool {
    !is_nan(a) && !is_nan(b) && rank(a) > rank(b)
}

/// Compares two scalars without leaving the integers.
pub fn exceeds(a: u64, b: u64) -> (r: bool)
    ensures
        r == greater(a, b),
{
    let a_negative: bool = a >= SIGN;
    let b_negative: bool = b >= SIGN;
    let a_size: u64 = if a_negative { a - SIGN } else { a };
    let b_size: u64 = if b_negative { b - SIGN } else { b };
    if a_size > INFINITY || b_size > INFINITY {
        false
    } else if a_negative {
        b_negative && a_size < b_size
    } else if b_negative {
        a_size > 0 || b_size > 0
    } else {
        a_size > b_size
    }
}

} // verus!
