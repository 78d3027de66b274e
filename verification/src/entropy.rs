//! The source of the random bytes that the random-number instruction uses.

use vstd::prelude::*;

verus! {

/// A byte drawn by `rand::random_range` over the whole range of `u8`, from
/// the generator of the calling thread. Nothing is claimed of its value:
/// two calls may well differ.
#[verifier::external_body]
pub(crate) fn random_byte() -> (byte: u8) {
    rand::random_range(..=u8::MAX)
}

} // verus!
