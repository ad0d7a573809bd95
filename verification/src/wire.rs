//! Little-endian byte-level primitives shared by every codec in the crate.
//!
//! All multi-byte numeric fields on disk and on the wire are little-endian.
//! Booleans occupy one byte (zero is false, non-zero is true). Writers append
//! to a growing byte vector; readers walk a byte slice with an explicit
//! cursor, returning `None` when the input is exhausted.

use vstd::prelude::*;

verus! {

use vstd::bytes::spec_u16_to_le_bytes;
use vstd::bytes::spec_u16_from_le_bytes;
use vstd::bytes::spec_u32_to_le_bytes;
use vstd::bytes::spec_u32_from_le_bytes;
use vstd::bytes::spec_u64_to_le_bytes;
use vstd::bytes::spec_u64_from_le_bytes;
use vstd::bytes::spec_u128_to_le_bytes;
use vstd::bytes::spec_u128_from_le_bytes;
use vstd::bytes::u16_from_le_bytes;
use vstd::bytes::u32_from_le_bytes;
use vstd::bytes::u64_from_le_bytes;
use vstd::bytes::u128_from_le_bytes;
use vstd::bytes::u16_to_le_bytes;
use vstd::bytes::u32_to_le_bytes;
use vstd::bytes::u64_to_le_bytes;
use vstd::bytes::u128_to_le_bytes;
use vstd::bytes::lemma_auto_spec_u16_to_from_le_bytes;
use vstd::bytes::lemma_auto_spec_u32_to_from_le_bytes;
use vstd::bytes::lemma_auto_spec_u64_to_from_le_bytes;
use vstd::bytes::lemma_auto_spec_u128_to_from_le_bytes;

/// One byte for a boolean: zero is false, anything else is true.
pub open spec fn bool_byte(v: bool) -> u8 {
    if v {
        1
    } else {
        0
    }
}

/// Append one byte.
pub fn put_u8(out: &mut Vec<u8>, v: u8)
    ensures
        final(out)@ == old(out)@.push(v),
{
    out.push(v);
}

/// Append one boolean as a byte (1 for true, 0 for false).
pub fn put_bool(out: &mut Vec<u8>, v: bool)
    ensures
        final(out)@ == old(out)@.push(bool_byte(v)),
{
    if v {
        out.push(1);
    } else {
        out.push(0);
    }
}

/// Append a `u16` in little-endian order.
pub fn put_u16(out: &mut Vec<u8>, v: u16)
    ensures
        final(out)@ == old(out)@ + spec_u16_to_le_bytes(v),
{
    let bs = u16_to_le_bytes(v);
    out.extend_from_slice(bs.as_slice());
}

/// Append a `u32` in little-endian order.
pub fn put_u32(out: &mut Vec<u8>, v: u32)
    ensures
        final(out)@ == old(out)@ + spec_u32_to_le_bytes(v),
{
    let bs = u32_to_le_bytes(v);
    out.extend_from_slice(bs.as_slice());
}

/// Append a `u64` in little-endian order.
pub fn put_u64(out: &mut Vec<u8>, v: u64)
    ensures
        final(out)@ == old(out)@ + spec_u64_to_le_bytes(v),
{
    let bs = u64_to_le_bytes(v);
    out.extend_from_slice(bs.as_slice());
}

/// Append a `u128` in little-endian order.
pub fn put_u128(out: &mut Vec<u8>, v: u128)
    ensures
        final(out)@ == old(out)@ + spec_u128_to_le_bytes(v),
{
    let bs = u128_to_le_bytes(v);
    out.extend_from_slice(bs.as_slice());
}

/// Append an `i16` in little-endian order (two's complement).
pub fn put_i16(out: &mut Vec<u8>, v: i16)
    ensures
        final(out)@ == old(out)@ + spec_u16_to_le_bytes(v as u16),
{
    put_u16(out, v as u16);
}

/// Append an `i32` in little-endian order (two's complement).
pub fn put_i32(out: &mut Vec<u8>, v: i32)
    ensures
        final(out)@ == old(out)@ + spec_u32_to_le_bytes(v as u32),
{
    put_u32(out, v as u32);
}

/// Append an `i64` in little-endian order (two's complement).
pub fn put_i64(out: &mut Vec<u8>, v: i64)
    ensures
        final(out)@ == old(out)@ + spec_u64_to_le_bytes(v as u64),
{
    put_u64(out, v as u64);
}

/// Read one byte at the cursor, advancing it.
pub fn take_u8(inp: &[u8], pos: &mut usize) -> (r: Option<u8>)
    ensures
        r is Some <==> *old(pos) + 1 <= inp@.len(),
        r is Some ==> *final(pos) == *old(pos) + 1 && r->0 == inp@[*old(pos) as int],
        r is None ==> *final(pos) == *old(pos),
{
    if *pos < inp.len() {
        let b = inp[*pos];
        *pos = *pos + 1;
        Some(b)
    } else {
        None
    }
}

/// Read one boolean byte: zero is false, anything else is true.
pub fn take_bool(inp: &[u8], pos: &mut usize) -> (r: Option<bool>)
    ensures
        r is Some <==> *old(pos) + 1 <= inp@.len(),
        r is Some ==> *final(pos) == *old(pos) + 1 && r->0 == (inp@[*old(pos) as int] != 0),
        r is None ==> *final(pos) == *old(pos),
{
    match take_u8(inp, pos) {
        Some(b) => Some(b != 0),
        None => None,
    }
}

/// Read one boolean byte, accepting only the canonical values 0 and 1.
pub fn take_bool_strict(inp: &[u8], pos: &mut usize) -> (r: Option<bool>)
    ensures
        r is Some <==> *old(pos) + 1 <= inp@.len() && inp@[*old(pos) as int] < 2,
        r is Some ==> *final(pos) == *old(pos) + 1 && inp@[*old(pos) as int] == bool_byte(r->0),
{
    let start: usize = *pos;
    match take_u8(inp, pos) {
        Some(0) => Some(false),
        Some(1) => Some(true),
        Some(_) => {
            *pos = start;
            None
        },
        None => None,
    }
}

/// Copy `n` bytes at the cursor into a fresh vector, advancing the cursor.
pub fn take_bytes(inp: &[u8], pos: &mut usize, n: usize) -> (r: Option<Vec<u8>>)
    ensures
        r is Some <==> *old(pos) + n <= inp@.len(),
        r is Some ==> *final(pos) == *old(pos) + n && r->0@ == inp@.subrange(
            *old(pos) as int,
            *old(pos) + n,
        ),
        r is None ==> *final(pos) == *old(pos),
{
    if n <= inp.len() && *pos <= inp.len() - n {
        let start: usize = *pos;
        let end: usize = start + n;
        let mut out: Vec<u8> = Vec::new();
        let mut i: usize = 0;
        while i < n
            invariant
                start + n == end,
                end <= inp@.len(),
                i <= n,
                out@ == inp@.subrange(start as int, start + i),
            decreases n - i,
        {
            out.push(inp[start + i]);
            assert(out@ =~= inp@.subrange(start as int, start + i + 1));
            i = i + 1;
        }
        *pos = start + n;
        Some(out)
    } else {
        None
    }
}

/// Read a little-endian `u16` at the cursor.
pub fn take_u16(inp: &[u8], pos: &mut usize) -> (r: Option<u16>)
    ensures
        r is Some <==> *old(pos) + 2 <= inp@.len(),
        r is Some ==> *final(pos) == *old(pos) + 2 && inp@.subrange(*old(pos) as int, *old(pos) + 2)
            == spec_u16_to_le_bytes(r->0) && r->0 == spec_u16_from_le_bytes(
            inp@.subrange(*old(pos) as int, *old(pos) + 2),
        ),
        r is None ==> *final(pos) == *old(pos),
{
    proof {
        lemma_auto_spec_u16_to_from_le_bytes();
    }
    match take_bytes(inp, pos, 2) {
        Some(bs) => Some(u16_from_le_bytes(bs.as_slice())),
        None => None,
    }
}

/// Read a little-endian `u32` at the cursor.
pub fn take_u32(inp: &[u8], pos: &mut usize) -> (r: Option<u32>)
    ensures
        r is Some <==> *old(pos) + 4 <= inp@.len(),
        r is Some ==> *final(pos) == *old(pos) + 4 && inp@.subrange(*old(pos) as int, *old(pos) + 4)
            == spec_u32_to_le_bytes(r->0) && r->0 == spec_u32_from_le_bytes(
            inp@.subrange(*old(pos) as int, *old(pos) + 4),
        ),
        r is None ==> *final(pos) == *old(pos),
{
    proof {
        lemma_auto_spec_u32_to_from_le_bytes();
    }
    match take_bytes(inp, pos, 4) {
        Some(bs) => Some(u32_from_le_bytes(bs.as_slice())),
        None => None,
    }
}

/// Read a little-endian `u64` at the cursor.
pub fn take_u64(inp: &[u8], pos: &mut usize) -> (r: Option<u64>)
    ensures
        r is Some <==> *old(pos) + 8 <= inp@.len(),
        r is Some ==> *final(pos) == *old(pos) + 8 && inp@.subrange(*old(pos) as int, *old(pos) + 8)
            == spec_u64_to_le_bytes(r->0) && r->0 == spec_u64_from_le_bytes(
            inp@.subrange(*old(pos) as int, *old(pos) + 8),
        ),
        r is None ==> *final(pos) == *old(pos),
{
    proof {
        lemma_auto_spec_u64_to_from_le_bytes();
    }
    match take_bytes(inp, pos, 8) {
        Some(bs) => Some(u64_from_le_bytes(bs.as_slice())),
        None => None,
    }
}

/// Read a little-endian `u128` at the cursor.
pub fn take_u128(inp: &[u8], pos: &mut usize) -> (r: Option<u128>)
    ensures
        r is Some <==> *old(pos) + 16 <= inp@.len(),
        r is Some ==> *final(pos) == *old(pos) + 16 && inp@.subrange(
            *old(pos) as int,
            *old(pos) + 16,
        ) == spec_u128_to_le_bytes(r->0) && r->0 == spec_u128_from_le_bytes(
            inp@.subrange(*old(pos) as int, *old(pos) + 16),
        ),
        r is None ==> *final(pos) == *old(pos),
{
    proof {
        lemma_auto_spec_u128_to_from_le_bytes();
    }
    match take_bytes(inp, pos, 16) {
        Some(bs) => Some(u128_from_le_bytes(bs.as_slice())),
        None => None,
    }
}

/// Read a little-endian `i16` (two's complement) at the cursor.
pub fn take_i16(inp: &[u8], pos: &mut usize) -> (r: Option<i16>)
    ensures
        r is Some <==> *old(pos) + 2 <= inp@.len(),
        r is Some ==> *final(pos) == *old(pos) + 2 && inp@.subrange(*old(pos) as int, *old(pos) + 2)
            == spec_u16_to_le_bytes(r->0 as u16),
        r is None ==> *final(pos) == *old(pos),
{
    match take_u16(inp, pos) {
        Some(v) => {
            let s = #[verifier::truncate] (v as i16);
            proof {
                assert((#[verifier::truncate] (v as i16)) as u16 == v) by (bit_vector);
            }
            Some(s)
        },
        None => None,
    }
}

/// Read a little-endian `i32` (two's complement) at the cursor.
pub fn take_i32(inp: &[u8], pos: &mut usize) -> (r: Option<i32>)
    ensures
        r is Some <==> *old(pos) + 4 <= inp@.len(),
        r is Some ==> *final(pos) == *old(pos) + 4 && inp@.subrange(*old(pos) as int, *old(pos) + 4)
            == spec_u32_to_le_bytes(r->0 as u32),
        r is None ==> *final(pos) == *old(pos),
{
    match take_u32(inp, pos) {
        Some(v) => {
            let s = #[verifier::truncate] (v as i32);
            proof {
                assert((#[verifier::truncate] (v as i32)) as u32 == v) by (bit_vector);
            }
            Some(s)
        },
        None => None,
    }
}

/// Read a little-endian `i64` (two's complement) at the cursor.
pub fn take_i64(inp: &[u8], pos: &mut usize) -> (r: Option<i64>)
    ensures
        r is Some <==> *old(pos) + 8 <= inp@.len(),
        r is Some ==> *final(pos) == *old(pos) + 8 && inp@.subrange(*old(pos) as int, *old(pos) + 8)
            == spec_u64_to_le_bytes(r->0 as u64),
        r is None ==> *final(pos) == *old(pos),
{
    match take_u64(inp, pos) {
        Some(v) => {
            let s = #[verifier::truncate] (v as i64);
            proof {
                assert((#[verifier::truncate] (v as i64)) as u64 == v) by (bit_vector);
            }
            Some(s)
        },
        None => None,
    }
}

} // verus!
