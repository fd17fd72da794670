//! Random suffixes for container names.

use std::collections::hash_map::{DefaultHasher, RandomState};
use std::hash::{BuildHasher, Hasher};
use vstd::prelude::*;

verus! {

/// `RandomState::new`: a hash builder seeded with fresh randomness from the operating system.
/// Nothing is stated of its keys, which are random.
#[verifier::external_body]
fn fresh_random_state() -> RandomState {
    RandomState::new()
}

/// `BuildHasher::build_hasher` on a `RandomState`: a hasher keyed by that state. Nothing is
/// stated of the result, whose keys are random.
#[verifier::external_body]
fn keyed_hasher(state: &RandomState) -> DefaultHasher {
    state.build_hasher()
}

/// Map a 64-bit hash to a name suffix in `1..=999_999`.
pub fn name_suffix_from_hash(hash: u64) -> (suffix: u32)
    ensures
        suffix == hash % 999_999 + 1,
        1 <= suffix <= 999_999,
{
    let reduced: u64 = hash % 999_999;
    (reduced as u32) + 1
}

/// Generate a random name suffix in the range `1..=999_999`, using OS-seeded randomness.
pub fn random_name_suffix() -> (suffix: u32)
    ensures
        1 <= suffix <= 999_999,
{
    let state = fresh_random_state();
    let hasher = keyed_hasher(&state);
    let hash = hasher.finish();
    name_suffix_from_hash(hash)
}

} // verus!
