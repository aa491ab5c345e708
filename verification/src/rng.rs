//! Randomness, drawn from the `rand` crate through two trusted wrappers.
//! Nothing downstream depends on *which* values come back: every caller's
//! contract states what holds of every possible outcome.

use vstd::prelude::*;
use rand::Rng;
use rand::seq::SliceRandom;

verus! {

/// Relies on rand::thread_rng and rand::Rng::gen: a 32-bit value; being
/// random, nothing is promised of it.
#[verifier::external_body]
pub(crate) fn random_u32() -> u32 {
    rand::thread_rng().gen()
}

/// Relies on rand::seq::SliceRandom::shuffle: a Fisher-Yates pass of
/// in-place swaps, so the elements are reordered but none is added, lost or
/// changed.
#[verifier::external_body]
pub(crate) fn shuffle_values(v: &mut Vec<i32>)
    ensures
        final(v)@.to_multiset() == old(v)@.to_multiset(),
{
    v.shuffle(&mut rand::thread_rng());
}

/// A fixed-point sample in `[0, 1)`: sixteen fractional bits of one draw.
pub fn fx_rand01() -> (r: i64)
    ensures
        0 <= r < crate::fixed::FX_ONE,
{
    let x = random_u32();
    (x % 65536) as i64
}

/// A uniformly chosen axis index.
pub fn random_axis() -> (r: usize)
    ensures
        r < 3,
{
    let x = random_u32();
    (x % 3) as usize
}

} // verus!
