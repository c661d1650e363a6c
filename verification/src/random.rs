//! The chance in the game, drawn from the thread-local generator of `rand`.

use vstd::prelude::*;
use rand::rngs::ThreadRng;
use rand::seq::IteratorRandom;

verus! {

/// The thread-local random number generator of `rand`, carried through as it is.
#[verifier::external_type_specification]
#[verifier::external_body]
pub struct ExThreadRng(rand::rngs::ThreadRng);

/// Calls `rand::rng()`: a handle to the thread-local generator. Nothing is
/// stated of it; it is only handed on to `choose_index`.
#[verifier::external_body]
pub(crate) fn thread_rng() -> ThreadRng {
    rand::rng()
}

/// Calls `rand::random_range(0..len)`: an index below `len`, drawn uniformly
/// by the thread-local generator. The call panics on an empty range, which the
/// `requires` rules out; which index comes back is chance and not stated.
#[verifier::external_body]
pub(crate) fn random_index(len: usize) -> (index: usize)
    requires
        len > 0,
    ensures
        index < len,
{
    rand::random_range(0..len)
}

/// Calls `IteratorRandom::choose` on the candidates (a `Vec`'s iterator, whose
/// size hint is exact) with the generator `rng`: `None` exactly when there is
/// no candidate, else one of them. Which one is chance and not stated, nor what
/// becomes of the generator's state.
#[verifier::external_body]
pub(crate) fn choose_index(candidates: Vec<usize>, rng: &mut ThreadRng) -> (chosen: Option<usize>)
    ensures
        chosen is None <==> candidates@.len() == 0,
        chosen matches Some(c) ==> candidates@.contains(c),
{
    candidates.into_iter().choose(rng)
}

} // verus!
