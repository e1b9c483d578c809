//! Random choices, drawn from `rand`'s thread-local generator.

use rand::seq::IndexedRandom;
use vstd::prelude::*;

verus! {

/// `IndexedRandom::choose` with the thread-local generator: one of
/// `items`, drawn at random; none when there are none. The contract
/// claims only that the choice is one of the items.
#[verifier::external_body]
pub(crate) fn pick<T>(items: &[T]) -> (r: Option<&T>)
    ensures
        (items@.len() == 0) == (r is None),
        r matches Some(x) ==> items@.contains(*x),
{
    items.choose(&mut rand::rng())
}

} // verus!
