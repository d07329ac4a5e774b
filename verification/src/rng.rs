//! Random numbers, from `fastrand`.

use vstd::prelude::*;

verus! {

/// `fastrand::u32` over a range gives some number of that range. An empty range panics, so the
/// bound is positive.
#[verifier::external_body]
pub(crate) fn roll_below(bound: u32) -> (roll: u32)
    requires
        bound > 0,
    ensures
        roll < bound,
{
    fastrand::u32(0..bound)
}

/// `fastrand::u64` over the full range gives any number at all.
#[verifier::external_body]
pub(crate) fn any_number() -> (n: u64) {
    fastrand::u64(..)
}

} // verus!
