//! Ordering of IEEE 754 single-precision values represented by their raw
//! 32-bit patterns.
//!
//! The binary decoders never compute with floating-point numbers; header
//! words that hold single-precision values are carried as `u32` bit
//! patterns.  Comparing two such words follows the IEEE 754 rules: any
//! comparison involving a NaN is false, positive and negative zero are
//! equal, and every other pair orders by sign and magnitude (for a fixed
//! sign, the magnitude bits order the values).

use vstd::prelude::*;

verus! {

/// Bit pattern of the single-precision value nearest to 0.001.
pub const F32_BITS_0_001: u32 = 0x3A83_126F;

/// Bit pattern of the single-precision value 10.0.
pub const F32_BITS_10: u32 = 0x4120_0000;

/// True when `u` encodes a NaN: exponent all ones, mantissa non-zero.
pub open spec fn f32_is_nan(u: u32) -> bool {
    u & 0x7F80_0000 == 0x7F80_0000 && u & 0x007F_FFFF != 0
}

/// Sign-magnitude key giving the IEEE 754 order of non-NaN values: both
/// zeros map to 0, and larger values map to larger keys.
pub open spec fn f32_key(u: u32) -> int {
    if u & 0x8000_0000 != 0 {
        -((u & 0x7FFF_FFFF) as int)
    } else {
        (u & 0x7FFF_FFFF) as int
    }
}

/// IEEE 754 `>` on bit patterns: false if either side is NaN, the key
/// order otherwise.
pub open spec fn f32_gt(a: u32, b: u32) -> bool {
    !f32_is_nan(a) && !f32_is_nan(b) && f32_key(a) > f32_key(b)
}

/// True when `u` encodes a NaN.
pub fn f32_bits_is_nan(u: u32) -> (r: bool)
    ensures
        r == f32_is_nan(u),
{
    u & 0x7F80_0000 == 0x7F80_0000 && u & 0x007F_FFFF != 0
}

/// IEEE 754 `a > b` on bit patterns.
pub fn f32_bits_gt(a: u32, b: u32) -> (r: bool)
    ensures
        r == f32_gt(a, b),
{
    if f32_bits_is_nan(a) || f32_bits_is_nan(b) {
        return false;
    }
    let mag_a = (a & 0x7FFF_FFFF) as i64;
    let mag_b = (b & 0x7FFF_FFFF) as i64;
    let key_a: i64 = if a & 0x8000_0000 != 0 { -mag_a } else { mag_a };
    let key_b: i64 = if b & 0x8000_0000 != 0 { -mag_b } else { mag_b };
    key_a > key_b
}

/// IEEE 754 `a < b` on bit patterns.
pub fn f32_bits_lt(a: u32, b: u32) -> (r: bool)
    ensures
        r == f32_gt(b, a),
{
    f32_bits_gt(b, a)
}

} // verus!
