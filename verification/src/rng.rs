//! Trusted wrappers around the `rand` crate.
//!
//! Randomness cannot be pinned down by a contract, so each wrapper states
//! only what holds of every possible outcome.

use vstd::prelude::*;
use rand::Rng;
use rand::seq::SliceRandom;

verus! {

use crate::deck::Card;

/// Relies on rand's `SliceRandom::shuffle`: a Fisher-Yates shuffle permutes
/// the slice in place by swaps, so the multiset of cards is unchanged.
#[verifier::external_body]
pub(crate) fn shuffle_cards(cards: &mut Vec<Card>)
    ensures
        final(cards)@.to_multiset() == old(cards)@.to_multiset(),
        final(cards)@.len() == old(cards)@.len(),
{
    cards.as_mut_slice().shuffle(&mut rand::thread_rng());
}

/// Relies on rand's `Rng::gen::<u16>`: returns some unconstrained identifier.
#[verifier::external_body]
pub(crate) fn random_u16() -> u16 {
    rand::thread_rng().gen::<u16>()
}

/// Relies on rand's `Rng::gen_range`: a sample from `0..n` is below `n`
/// (the call panics on an empty range, which the precondition rules out).
#[verifier::external_body]
pub(crate) fn random_below(n: usize) -> (r: usize)
    requires
        n >= 1,
    ensures
        r < n,
{
    rand::thread_rng().gen_range(0..n)
}

} // verus!
