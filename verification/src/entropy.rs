//! Process-local randomness for identifier generation.

use vstd::prelude::*;

verus! {

/// Relies on rand::random: draws a thread-local random value.
/// Nothing is promised of the result.
#[verifier::external_body]
pub fn random_u128() -> u128 {
    rand::random::<u128>()
}

/// Relies on rand::random: draws a thread-local random value.
/// Nothing is promised of the result.
#[verifier::external_body]
pub fn random_u64() -> u64 {
    rand::random::<u64>()
}

} // verus!
