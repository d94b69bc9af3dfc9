//! The library's only source of randomness: one trusted call into the
//! `rand` crate, and verified maps from raw words into scalar ranges.

use vstd::prelude::*;

verus! {

/// Relies on `rand::random::<u64>`: one uniformly distributed 64-bit
/// word from the thread-local generator. Nothing is assumed of the
/// value; callers state what holds of every outcome.
#[verifier::external_body]
pub(crate) fn random_u64() -> (r: u64) {
    rand::random::<u64>()
}

/// A random scalar in `[0, ONE)`: a draw from the unit interval.
pub fn random_unit_scalar() -> (r: i64)
    ensures
        0 <= r < crate::fixed::ONE,
{
    (random_u64() % 65536) as i64
}

/// A random scalar in `[lo, hi)`; `lo` when the range is empty.
pub fn random_in(lo: i64, hi: i64) -> (r: i64)
    requires
        lo <= hi,
    ensures
        lo <= r,
        lo < hi ==> r < hi,
        lo == hi ==> r == lo,
{
    if lo == hi {
        lo
    } else {
        let span: u128 = (hi as i128 - lo as i128) as u128;
        let x: u128 = (random_u64() as u128) % span;
        let r: i128 = lo as i128 + x as i128;
        r as i64
    }
}

/// A random axis index: 0, 1 or 2, each possible.
pub fn random_axis() -> (r: usize)
    ensures
        r < 3,
{
    (random_u64() % 3) as usize
}

} // verus!
