//! Draws from the thread-local random number generator, behind trusted
//! wrappers. Nothing can be promised of a random value, so only ranges
//! are stated.

use vstd::prelude::*;

verus! {

/// Relies on `rand::random`: a fresh 32-bit value.
#[verifier::external_body]
pub(crate) fn random_i32() -> i32 {
    rand::random()
}

/// Relies on `rand::random`: a fresh 64-bit value.
#[verifier::external_body]
pub(crate) fn random_u64() -> u64 {
    rand::random()
}

/// Relies on `rand::random`: a fresh 128-bit value.
#[verifier::external_body]
pub(crate) fn random_u128() -> u128 {
    rand::random()
}

/// Relies on `rand::random`: a fresh boolean.
#[verifier::external_body]
pub(crate) fn random_flag() -> bool {
    rand::random()
}

/// Relies on `rand::random_range`: a value drawn from the half-open range,
/// which its documentation promises to lie within it.
#[verifier::external_body]
pub(crate) fn random_range_u32(lo: u32, hi: u32) -> (r: u32)
    requires
        lo < hi,
    ensures
        lo <= r < hi,
{
    rand::random_range(lo..hi)
}

} // verus!
