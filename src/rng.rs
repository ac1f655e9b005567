//! The random source, nanorand's Pcg64, and the draws the engine makes from it.

use nanorand::pcg64::Pcg64;
use nanorand::Rng;
use vstd::prelude::*;

verus! {

#[verifier::external_type_specification]
#[verifier::external_body]
pub struct ExPcg64(Pcg64);

/// Relies on nanorand's `Rng::shuffle`: it only swaps elements of the
/// slice, so the same items come back in some order.
#[verifier::external_body]
pub(crate) fn shuffle<T>(rng: &mut Pcg64, v: &mut Vec<T>)
    ensures
        final(v)@.to_multiset() == old(v)@.to_multiset(),
{
    rng.shuffle(v)
}

/// Relies on nanorand's `Rng::generate_range` on `lo..=hi`: the draw lies in
/// the range (it panics only when `lo > hi`).
#[verifier::external_body]
pub(crate) fn generate_range(rng: &mut Pcg64, lo: u64, hi: u64) -> (r: u64)
    requires
        lo <= hi,
        hi < u64::MAX,
    ensures
        lo <= r <= hi,
{
    rng.generate_range(lo..=hi)
}

} // verus!
