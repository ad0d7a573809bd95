//! Integer views of stored fraction bit patterns.
//!
//! The world file stores a few vertical coordinates and clocks as 64-bit
//! binary fractions. The data model keeps whole numbers, so the bit
//! patterns are truncated toward zero on read, entirely in integer
//! arithmetic: the exponent and fraction fields are extracted and the
//! implied leading bit is shifted into place. Values below one, negative
//! values and invalid patterns become zero; values too large to represent
//! saturate.

use vstd::prelude::*;

verus! {

use vstd::arithmetic::power2::pow2;

/// The whole-number part of the 64-bit binary fraction with the given bit
/// pattern, truncated toward zero and clamped to `u32`: negative values
/// and patterns that carry no number become zero, too-large values
/// saturate.
pub open spec fn spec_f64_trunc_u32(bits: u64) -> u32 {
    let sign = bits / 0x8000_0000_0000_0000;
    let exp = (bits / 0x10_0000_0000_0000) % 0x800;
    let frac = bits % 0x10_0000_0000_0000;
    if sign == 1 {
        0
    } else if exp == 0x7FF {
        if frac != 0 {
            0
        } else {
            0xFFFF_FFFF
        }
    } else if exp < 1023 {
        0
    } else if exp >= 1023 + 32 {
        0xFFFF_FFFF
    } else {
        ((((frac + 0x10_0000_0000_0000) as int) / (pow2((1023 + 52 - exp) as nat) as int)) % 0x1_0000_0000) as u32
    }
}

/// Truncate a stored 64-bit fraction to a whole `u32`.
pub fn f64_trunc_u32(bits: u64) -> (r: u32)
    ensures
        r == spec_f64_trunc_u32(bits),
{
    let sign = bits / 0x8000_0000_0000_0000;
    let exp = (bits / 0x10_0000_0000_0000) % 0x800;
    let frac = bits % 0x10_0000_0000_0000;
    if sign == 1 {
        0
    } else if exp == 0x7FF {
        if frac != 0 {
            0
        } else {
            0xFFFF_FFFF
        }
    } else if exp < 1023 {
        0
    } else if exp >= 1023 + 32 {
        0xFFFF_FFFF
    } else {
        let shift = 1023 + 52 - exp;
        let m = frac + 0x10_0000_0000_0000;
        let q = m >> (shift as u64);
        proof {
            vstd::bits::lemma_u64_shr_is_div(m, shift);
        }
        (q % 0x1_0000_0000) as u32
    }
}

/// The whole-number part of the 64-bit binary fraction with the given bit
/// pattern, truncated toward zero and clamped to `i32`.
pub open spec fn spec_f64_trunc_i32(bits: u64) -> i32 {
    let sign = bits / 0x8000_0000_0000_0000;
    let mag = spec_f64_trunc_u32((bits % 0x8000_0000_0000_0000) as u64);
    if sign == 1 {
        if mag >= 0x8000_0000 {
            (-0x8000_0000) as i32
        } else {
            (-(mag as int)) as i32
        }
    } else {
        if mag >= 0x7FFF_FFFF {
            0x7FFF_FFFF
        } else {
            mag as i32
        }
    }
}

/// Truncate a stored 64-bit fraction to a whole `i32`.
pub fn f64_trunc_i32(bits: u64) -> (r: i32)
    ensures
        r == spec_f64_trunc_i32(bits),
{
    let sign = bits / 0x8000_0000_0000_0000;
    let mag = f64_trunc_u32(bits % 0x8000_0000_0000_0000);
    if sign == 1 {
        if mag >= 0x8000_0000 {
            -0x8000_0000
        } else {
            -(mag as i64) as i32
        }
    } else {
        if mag >= 0x7FFF_FFFF {
            0x7FFF_FFFF
        } else {
            mag as i32
        }
    }
}

} // verus!
