//! Variable-length integers and length-prefixed strings.
//!
//! A variable-length integer stores 7 data bits per byte, low-order group
//! first; the high bit of a byte is set exactly when more bytes follow. A
//! variable-length string is the integer byte count of its UTF-8 encoding,
//! followed by that many bytes.

use vstd::prelude::*;

verus! {

use vstd::utf8::valid_utf8;
use vstd::utf8::decode_utf8;
use vstd::utf8::encode_utf8;
use crate::wire::take_u8;

/// The canonical variable-length encoding of `v`.
pub open spec fn varint_bytes(v: u64) -> Seq<u8>
    decreases v,
{
    if v < 128 {
        seq![v as u8]
    } else {
        seq![(v % 128 + 128) as u8] + varint_bytes(v / 128)
    }
}

/// The variable-length integer starting at position `p` of `b`, with the
/// position just past it; `None` if the input ends early or the value
/// overflows 64 bits.
pub open spec fn varint_at(b: Seq<u8>, p: int) -> Option<(u64, int)>
    decreases b.len() - p,
{
    if p < 0 || p >= b.len() {
        None
    } else if b[p] < 128 {
        Some((b[p] as u64, p + 1))
    } else {
        match varint_at(b, p + 1) {
            Some((rest, q)) => {
                let low = (b[p] - 128) as u64;
                if rest <= (u64::MAX - low as int) as u64 / 128 {
            Some(((rest * 128 + low as int) as u64, q))
                } else {
                    None
                }
            },
            None => None,
        }
    }
}

/// Append the canonical variable-length encoding of `v`.
pub fn put_varint(out: &mut Vec<u8>, v: u64)
    ensures
        final(out)@ == old(out)@ + varint_bytes(v),
    decreases v,
{
    if v < 128 {
        out.push(v as u8);
        assert(final(out)@ =~= old(out)@ + varint_bytes(v));
    } else {
        out.push((v % 128 + 128) as u8);
        put_varint(out, v / 128);
        assert(final(out)@ =~= old(out)@ + varint_bytes(v));
    }
}

/// Read a variable-length integer at the cursor.
pub fn take_varint(inp: &[u8], pos: &mut usize) -> (r: Option<u64>)
    ensures
        r is Some <==> varint_at(inp@, *old(pos) as int) is Some,
        r is Some ==> varint_at(inp@, *old(pos) as int) == Some((r->0, *final(pos) as int)),
    decreases inp@.len() - *old(pos),
{
    let b = match take_u8(inp, pos) {
        Some(b) => b,
        None => {
            return None;
        },
    };
    if b < 128 {
        Some(b as u64)
    } else {
        let rest = match take_varint(inp, pos) {
            Some(rest) => rest,
            None => {
                return None;
            },
        };
        let low = (b - 128) as u64;
        if rest <= (u64::MAX - low) / 128 {
            Some(rest * 128 + low)
        } else {
            None
        }
    }
}

/// Decoding the canonical encoding of `v`, embedded at `p`, yields `v`.
pub proof fn lemma_varint_round_trip(b: Seq<u8>, p: int, v: u64)
    requires
        0 <= p,
        p + varint_bytes(v).len() <= b.len(),
        b.subrange(p, p + varint_bytes(v).len()) == varint_bytes(v),
    ensures
        varint_at(b, p) == Some((v, p + varint_bytes(v).len())),
    decreases v,
{
    let n = varint_bytes(v).len();
    assert(b[p] == varint_bytes(v)[0]);
    if v < 128 {
    } else {
        let tail = varint_bytes(v / 128);
        assert(b.subrange(p + 1, p + n) =~= tail) by {
            assert forall|i: int| 0 <= i < tail.len() implies b.subrange(p + 1, p + n)[i]
                == tail[i] by {
                assert(b.subrange(p, p + n)[i + 1] == tail[i]);
            }
        }
        lemma_varint_round_trip(b, p + 1, v / 128);
        assert(b[p] == v % 128 + 128);
        assert((v / 128) * 128 + v % 128 == v) by (nonlinear_arith);
        assert(v / 128 <= (u64::MAX - (v % 128)) / 128) by (nonlinear_arith);
    }
}

/// The canonical encoding never takes more than `k` bytes when `v` fits in
/// `7 * k` bits: one byte below 2^7, two below 2^14, and so on.
pub proof fn lemma_varint_minimal(v: u64, k: nat)
    requires
        k >= 1,
        (v as nat) < vstd::arithmetic::power::pow(128, k),
    ensures
        varint_bytes(v).len() <= k,
    decreases v,
{
    if v < 128 {
    } else {
        vstd::arithmetic::power::lemma_pow1(128);
        if k == 1 {
            assert(false);
        } else {
            vstd::arithmetic::power::lemma_pow_adds(128, 1, (k - 1) as nat);
            assert(vstd::arithmetic::power::pow(128, k) == 128 * vstd::arithmetic::power::pow(
                128,
                (k - 1) as nat,
            ));
            let p1 = vstd::arithmetic::power::pow(128, (k - 1) as nat);
            assert(v / 128 < p1) by (nonlinear_arith)
                requires
                    v < 128 * p1 && v >= 128,
            {
            }
            lemma_varint_minimal(v / 128, (k - 1) as nat);
        }
    }
}

/// The byte form of a variable-length string: the byte count of the UTF-8
/// encoding, then the encoding itself.
pub open spec fn varstring_bytes(s: Seq<char>) -> Seq<u8> {
    varint_bytes(encode_utf8(s).len() as u64) + encode_utf8(s)
}

/// The variable-length string starting at position `p` of `b`, with the
/// position just past it; `None` when the count overruns the input or the
/// bytes are not valid UTF-8.
pub open spec fn varstring_at(b: Seq<u8>, p: int) -> Option<(Seq<char>, int)> {
    match varint_at(b, p) {
        Some((n, q)) => {
            if q + n <= b.len() && valid_utf8(b.subrange(q, q + n)) {
                Some((decode_utf8(b.subrange(q, q + n)), q + n))
            } else {
                None
            }
        },
        None => None,
    }
}

/// Relies on `String::from_utf8`: returns the decoded string exactly when
/// the bytes are valid UTF-8.
#[verifier::external_body]
pub(crate) fn string_from_utf8(v: Vec<u8>) -> (r: Option<String>)
    ensures
        r is Some <==> valid_utf8(v@),
        r is Some ==> r->0@ == decode_utf8(v@),
{
    match String::from_utf8(v) {
        Ok(s) => Some(s),
        Err(_) => None,
    }
}

/// Append the variable-length encoding of `s`.
pub fn put_varstring(out: &mut Vec<u8>, s: &str)
    ensures
        final(out)@ == old(out)@ + varstring_bytes(s@),
{
    let bs = s.as_bytes();
    put_varint(out, bs.len() as u64);
    out.extend_from_slice(bs);
    assert(final(out)@ =~= old(out)@ + varstring_bytes(s@));
}

/// Read a variable-length string at the cursor.
pub fn take_varstring(inp: &[u8], pos: &mut usize) -> (r: Option<String>)
    ensures
        r is Some <==> varstring_at(inp@, *old(pos) as int) is Some,
        r is Some ==> (varstring_at(inp@, *old(pos) as int) matches Some((s, q)) && r->0@ == s
            && *final(pos) as int == q),
{
    let n = match take_varint(inp, pos) {
        Some(n) => n,
        None => {
            return None;
        },
    };
    if n > inp.len() as u64 {
        return None;
    }
    let bytes = match crate::wire::take_bytes(inp, pos, n as usize) {
        Some(bytes) => bytes,
        None => {
            return None;
        },
    };
    string_from_utf8(bytes)
}

/// Encoding a string and decoding the result yields the string again, and
/// the encoding of an empty string is a single zero byte.
pub proof fn lemma_varstring_round_trip(b: Seq<u8>, p: int, s: Seq<char>)
    requires
        0 <= p,
        encode_utf8(s).len() <= u64::MAX,
        p + varstring_bytes(s).len() <= b.len(),
        b.subrange(p, p + varstring_bytes(s).len()) == varstring_bytes(s),
    ensures
        varstring_at(b, p) == Some((s, p + varstring_bytes(s).len())),
        s.len() == 0 ==> varstring_bytes(s) =~= seq![0u8],
{
    broadcast use vstd::utf8::encode_utf8_valid_utf8, vstd::utf8::encode_utf8_decode_utf8;

    let u = encode_utf8(s);
    let cnt = varint_bytes(u.len() as u64);
    let n = varstring_bytes(s).len();
    assert(b.subrange(p, p + cnt.len() as int) =~= cnt) by {
        assert forall|i: int| 0 <= i < cnt.len() implies b.subrange(p, p + cnt.len() as int)[i]
            == cnt[i] by {
            assert(b.subrange(p, p + n)[i] == cnt[i]);
        }
    }
    lemma_varint_round_trip(b, p, u.len() as u64);
    let q = p + cnt.len();
    assert(b.subrange(q, q + u.len()) =~= u) by {
        assert forall|i: int| 0 <= i < u.len() implies b.subrange(q, q + u.len() as int)[i]
            == u[i] by {
            assert(b.subrange(p, p + n)[cnt.len() + i] == u[i]);
        }
    }
    assert(valid_utf8(u));
    assert(decode_utf8(u) == s);
    if s.len() == 0 {
        assert(encode_utf8(s) =~= Seq::<u8>::empty());
    }
}

} // verus!
