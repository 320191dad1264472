//! Comparisons of single-precision values given by their IEEE 754 bit patterns.
use vstd::prelude::*;

verus! {

/// The sign bit of a single-precision bit pattern.
pub const SIGN_BIT: u32 = 0x8000_0000;

/// The bit pattern of positive infinity; every larger magnitude is a NaN.
pub const INFINITY_BITS: u32 = 0x7F80_0000;

/// The magnitude (all bits but the sign) of a bit pattern.
pub open spec fn magnitude(bits: u32) -> int {
    if bits >= SIGN_BIT { bits - SIGN_BIT } else { bits as int }
}

/// Whether a bit pattern encodes a NaN.
pub open spec fn is_nan(bits: u32) -> bool {
    magnitude(bits) > INFINITY_BITS
}

/// The position of a value on the number line: values of the same sign are
/// ordered by magnitude, and both zeros sit at 0.
pub open spec fn rank(bits: u32) -> int {
    if bits >= SIGN_BIT { -magnitude(bits) } else { magnitude(bits) }
}

/// `a < b` on the values the patterns encode.
pub open spec fn spec_lt(a: u32, b: u32) -> bool {
    !is_nan(a) && !is_nan(b) && rank(a) < rank(b)
}

/// `a <= b` on the values the patterns encode.
pub open spec fn spec_le(a: u32, b: u32) -> bool {
    !is_nan(a) && !is_nan(b) && rank(a) <= rank(b)
}

/// `a == b` on the values the patterns encode.
pub open spec fn spec_eq(a: u32, b: u32) -> bool {
    !is_nan(a) && !is_nan(b) && rank(a) == rank(b)
}

/// The rank of a bit pattern, as an integer that can be compared directly.
pub fn rank_of(bits: u32) -> (r: i64)
    ensures
        r == rank(bits),
{
    if bits >= SIGN_BIT {
        -((bits - SIGN_BIT) as i64)
    } else {
        bits as i64
    }
}

/// Whether `bits` encodes a NaN.
pub fn nan(bits: u32) -> (r: bool)
    ensures
        r == is_nan(bits),
{
    let m: u32 = if bits >= SIGN_BIT { bits - SIGN_BIT } else { bits };
    m > INFINITY_BITS
}

/// `a < b` on the encoded values: false whenever either is a NaN.
pub fn lt(a: u32, b: u32) -> (r: bool)
    ensures
        r == spec_lt(a, b),
{
    !nan(a) && !nan(b) && rank_of(a) < rank_of(b)
}

/// `a <= b` on the encoded values: false whenever either is a NaN.
pub fn le(a: u32, b: u32) -> (r: bool)
    ensures
        r == spec_le(a, b),
{
    !nan(a) && !nan(b) && rank_of(a) <= rank_of(b)
}

/// `a == b` on the encoded values: the two zeros are equal, a NaN equals nothing.
pub fn eq(a: u32, b: u32) -> (r: bool)
    ensures
        r == spec_eq(a, b),
{
    !nan(a) && !nan(b) && rank_of(a) == rank_of(b)
}

} // verus!
