//! The engine's single source of randomness: a trusted wrapper around the
//! `rand` crate. The contract states only what holds of every possible
//! outcome; nothing is promised about the distribution itself.

use vstd::prelude::*;

verus! {

/// Relies on `rand::thread_rng` and `Rng::gen_range` over `0..bound`:
/// the sample lies in the half-open range. `gen_range` panics on an empty
/// range, so the bound must be positive.
#[verifier::external_body]
pub(crate) fn rand_below(bound: u32) -> (r: u32)
    requires
        bound >= 1,
    ensures
        r < bound,
{
    rand::Rng::gen_range(&mut rand::thread_rng(), 0..bound)
}

} // verus!
