//! The binary32 encoding facts that the padding rules rest on.

use vstd::prelude::*;

verus! {

/// Bit pattern of positive zero.
pub const ZERO: u32 = 0;

/// Bit pattern of the canonical quiet NaN.
pub const NAN: u32 = 0x7fc0_0000;

/// Mask of the sign bit.
pub const SIGN: u32 = 0x8000_0000;

/// Whether `x` encodes positive or negative zero.
pub open spec fn is_zero(x: u32) -> bool {
    x == 0 || x == 0x8000_0000u32
}

/// The encoding of the negation of the value that `x` encodes: the sign bit
/// flipped, every other bit kept.
pub open spec fn negated(x: u32) -> u32 {
    if x >= 0x8000_0000u32 {
        (x - 0x8000_0000u32) as u32
    } else {
        (x + 0x8000_0000u32) as u32
    }
}

/// Tests for positive or negative zero.
pub fn zero(x: u32) -> (r: bool)
    ensures
        r == is_zero(x),
{
    assert((x & 0x7fff_ffff == 0) <==> (x == 0 || x == 0x8000_0000u32)) by (bit_vector);
    x & 0x7fff_ffff == 0
}

/// Flips the sign bit.
pub fn negate(x: u32) -> (r: u32)
    ensures
        r == negated(x),
{
    assert(x >= 0x8000_0000u32 ==> x ^ 0x8000_0000u32 == (x - 0x8000_0000u32) as u32)
        by (bit_vector);
    assert(x < 0x8000_0000u32 ==> x ^ 0x8000_0000u32 == (x + 0x8000_0000u32) as u32)
        by (bit_vector);
    x ^ SIGN
}

} // verus!
