use vstd::prelude::*;

use rand::seq::{IndexedRandom, IteratorRandom};
use rand::Rng;

verus! {

/// Draws an integer in `[low, high]` with `rand::Rng::random_range` on the thread generator.
/// The contract claims only that the drawn value lies in the range: `random_range` asserts that
/// the range is not empty, and the inclusive integer sampler returns a value between the bounds.
#[verifier::external_body]
pub(crate) fn random_i64_in(low: i64, high: i64) -> (r: i64)
    requires
        low <= high,
    ensures
        low <= r <= high,
{
    rand::rng().random_range(low..=high)
}

/// Picks an element of `values` with `rand::seq::IndexedRandom::choose` on the thread generator.
/// The contract claims what `choose` returns whatever is drawn: `None` exactly for an empty
/// slice, and otherwise one of the slice's elements.
#[verifier::external_body]
pub(crate) fn choose_u8(values: &[u8]) -> (r: Option<u8>)
    ensures
        r is None <==> values@.len() == 0,
        r matches Some(v) ==> values@.contains(v),
{
    values.choose(&mut rand::rng()).copied()
}

/// Picks an index in `0..end` with `rand::seq::IteratorRandom::choose` on the thread generator.
/// The contract claims what `choose` returns whatever is drawn: `None` exactly for an empty
/// range, and otherwise an index below `end`.
#[verifier::external_body]
pub(crate) fn choose_index(end: usize) -> (r: Option<usize>)
    ensures
        r is None <==> end == 0,
        r matches Some(i) ==> i < end,
{
    (0..end).choose(&mut rand::rng())
}

} // verus!
