use vstd::prelude::*;
use ahash::RandomState;

verus! {

/// The randomly seeded hash builder of `ahash`.
#[verifier::external_type_specification]
#[verifier::external_body]
pub struct ExRandomState(ahash::RandomState);

/// Calls `ahash::RandomState::new`: a hash builder with fresh random seeds.
#[verifier::external_body]
pub(crate) fn new_hasher() -> RandomState {
    RandomState::new()
}

/// Calls `ahash::RandomState::hash_one` on the bytes. The result depends on the
/// builder's random seeds and on the platform, so nothing is stated of it: not
/// even that two calls on one builder and equal bytes agree.
#[verifier::external_body]
pub(crate) fn hash_bytes(hasher: &RandomState, bytes: &Vec<u8>) -> u64 {
    hasher.hash_one(bytes)
}

} // verus!
