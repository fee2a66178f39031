use vstd::prelude::*;
use rand::rngs::ThreadRng;

verus! {

/// The thread-local random number generator of `rand`.
#[verifier::external_type_specification]
#[verifier::external_body]
pub struct ExThreadRng(rand::rngs::ThreadRng);

/// Calls `rand::thread_rng`: a handle to the thread's generator. Nothing is
/// stated of it; it is only handed on to other calls.
#[verifier::external_body]
pub(crate) fn thread_rng() -> ThreadRng {
    rand::thread_rng()
}

/// Calls `rand::Rng::gen::<u8>`: one random byte. Any byte may come back, so
/// nothing is stated of it.
#[verifier::external_body]
pub(crate) fn random_byte(rng: &mut ThreadRng) -> u8 {
    rand::Rng::gen::<u8>(rng)
}

/// Calls `rand::seq::SliceRandom::shuffle` on the bytes: they come back in a
/// random order, the same bytes as many times each. Which order is not stated.
#[verifier::external_body]
pub(crate) fn shuffle_bytes(bytes: &mut Vec<u8>, rng: &mut ThreadRng)
    ensures
        final(bytes)@.len() == old(bytes)@.len(),
        final(bytes)@.to_multiset() == old(bytes)@.to_multiset(),
{
    rand::seq::SliceRandom::shuffle(bytes.as_mut_slice(), rng)
}

} // verus!
