//! The source of random numbers the shoe and the automated players consume.
use rand::Rng;
use vstd::prelude::*;

verus! {

/// Relies on `rand::Rng::gen_range` on `rand::thread_rng()`: for `lo < hi` it
/// returns a value of the half-open range `lo..hi` (it panics only on an empty
/// range, which `requires` excludes).
#[verifier::external_body]
pub(crate) fn random_in(lo: u64, hi: u64) -> (r: u64)
    requires
        lo < hi,
    ensures
        lo <= r < hi,
{
    rand::thread_rng().gen_range(lo..hi)
}

} // verus!
