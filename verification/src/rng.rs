//! Randomness for spawning, splitting, and power-up drops, drawn from the
//! `rand` crate behind trusted wrappers. The engine states what holds of
//! every outcome; nothing about any draw is assumed beyond its range.

use vstd::prelude::*;

verus! {

/// Relies on rand::random_range over `lo..hi`: a draw from a non-empty
/// half-open range lies within it.
#[verifier::external_body]
pub(crate) fn random_u64(lo: u64, hi: u64) -> (r: u64)
    requires
        lo < hi,
    ensures
        lo <= r < hi,
{
    rand::random_range(lo..hi)
}

/// Relies on rand::random_range over `lo..hi`: a draw from a non-empty
/// half-open range lies within it.
#[verifier::external_body]
pub(crate) fn random_i64(lo: i64, hi: i64) -> (r: i64)
    requires
        lo < hi,
    ensures
        lo <= r < hi,
{
    rand::random_range(lo..hi)
}

} // verus!
