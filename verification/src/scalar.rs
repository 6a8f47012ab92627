//! IEEE-754 single-precision scalars, carried as raw 32-bit patterns.
//!
//! The buffer constructors never do general arithmetic on scalars: they only
//! compare them for IEEE equality, negate them, and halve them. Each of those
//! three operations is exact on bit patterns, so each is defined here as a
//! spec function and implemented by an executable function proved against it.

use vstd::prelude::*;

verus! {

/// The pattern encodes a NaN: exponent field all ones and a nonzero fraction.
pub open spec fn is_nan_bits(b: u32) -> bool {
    b & 0x7f80_0000 == 0x7f80_0000 && b & 0x007f_ffff != 0
}

/// The pattern encodes positive or negative zero.
pub open spec fn is_zero_bits(b: u32) -> bool {
    b & 0x7fff_ffff == 0
}

/// IEEE-754 equality on single-precision patterns: a NaN equals nothing (not
/// even itself), the two zeros equal each other, and every other value equals
/// exactly its own pattern.
pub open spec fn eq_bits(a: u32, b: u32) -> bool {
    &&& !is_nan_bits(a)
    &&& !is_nan_bits(b)
    &&& (a == b || (is_zero_bits(a) && is_zero_bits(b)))
}

/// Negation flips the sign bit and leaves everything else alone, for zeros,
/// subnormals, infinities and NaNs alike.
pub open spec fn neg_bits(b: u32) -> u32 {
    b ^ 0x8000_0000
}

/// Halving a single-precision value. Infinities and NaNs are unchanged; a
/// value with exponent field two or more has that field decremented, which is
/// exact; at the bottom of the range the significand (with the hidden bit
/// restored when the exponent field is one) shifts right one place, rounding
/// a dropped one bit to the nearest even significand.
pub open spec fn half_bits(b: u32) -> u32 {
    let sign: u32 = b & 0x8000_0000;
    let exp: u32 = (b >> 23) & 0xff;
    if exp == 0xff {
        b
    } else if exp >= 2 {
        (b - 0x0080_0000) as u32
    } else {
        let m: u32 = if exp == 1 {
            (b & 0x007f_ffff) | 0x0080_0000
        } else {
            b & 0x007f_ffff
        };
        let h: u32 = m >> 1;
        let r: u32 = if m & 1 == 1 && h & 1 == 1 {
            (h + 1) as u32
        } else {
            h
        };
        sign | r
    }
}

/// Decides IEEE-754 equality of two single-precision patterns.
pub fn scalar_eq(a: u32, b: u32) -> (r: bool)
    ensures
        r == eq_bits(a, b),
{
    let a_nan: bool = a & 0x7f80_0000 == 0x7f80_0000 && a & 0x007f_ffff != 0;
    let b_nan: bool = b & 0x7f80_0000 == 0x7f80_0000 && b & 0x007f_ffff != 0;
    let both_zero: bool = a & 0x7fff_ffff == 0 && b & 0x7fff_ffff == 0;
    !a_nan && !b_nan && (a == b || both_zero)
}

/// Negates a single-precision pattern.
pub fn scalar_neg(b: u32) -> (r: u32)
    ensures
        r == neg_bits(b),
{
    b ^ 0x8000_0000
}

/// Halves a single-precision pattern.
pub fn scalar_half(b: u32) -> (r: u32)
    ensures
        r == half_bits(b),
{
    let sign: u32 = b & 0x8000_0000;
    let exp: u32 = (b >> 23) & 0xff;
    if exp == 0xff {
        b
    } else if exp >= 2 {
        assert(b >= 0x0100_0000) by (bit_vector)
            requires
                (b >> 23) & 0xff >= 2,
        ;
        b - 0x0080_0000
    } else {
        let m: u32 = if exp == 1 {
            (b & 0x007f_ffff) | 0x0080_0000
        } else {
            b & 0x007f_ffff
        };
        assert(m >> 1 <= 0x7fff_ffff) by (bit_vector);
        let h: u32 = m >> 1;
        let r: u32 = if m & 1 == 1 && h & 1 == 1 {
            h + 1
        } else {
            h
        };
        sign | r
    }
}

} // verus!
