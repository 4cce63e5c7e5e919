//! The process's random number generator.

use rand::RngCore;
use vstd::prelude::*;

verus! {

/// `rand::rng().next_u64()`: the next 64-bit value of the thread-local
/// generator. The value depends on chance, so nothing is stated about it.
#[verifier::external_body]
pub(crate) fn random_u64() -> u64 {
    rand::rng().next_u64()
}

} // verus!
