//! Random draws. Everything the library takes from the process-wide random
//! source passes through the three functions of this module, whose contracts
//! state what holds of every outcome of a draw and nothing about which
//! outcome comes.

use rand::seq::IteratorRandom;
use rand::seq::SliceRandom;
use rand::Rng;
use vstd::prelude::*;

verus! {

/// Calls `rand::seq::IteratorRandom::choose` on the range `0..len` with the
/// thread-local generator. Trusted: the draw is empty exactly when the range
/// is, and otherwise is a member of the range.
#[verifier::external_body]
pub(crate) fn random_index(len: usize) -> (index: Option<usize>)
    ensures
        len == 0 <==> index is None,
        index matches Some(i) ==> i < len,
{
    (0..len).choose(&mut rand::thread_rng())
}

/// Calls `rand::seq::SliceRandom::choose` on the items with the thread-local
/// generator. Trusted: the draw is empty exactly when there are no items, and
/// otherwise refers to one of them.
#[verifier::external_body]
pub(crate) fn random_element<T>(items: &Vec<T>) -> (item: Option<&T>)
    ensures
        items@.len() == 0 <==> item is None,
        item matches Some(x) ==> exists|i: int| 0 <= i < items@.len() && items@[i] == *x,
{
    items.choose(&mut rand::thread_rng())
}

/// Calls `rand::Rng::gen_range` on the inclusive range `low..=high` with the
/// thread-local generator. Trusted: the draw lies in the range. The outside
/// function panics on an empty range, which `requires` leaves out.
#[verifier::external_body]
pub(crate) fn random_between(low: i32, high: i32) -> (value: i32)
    requires
        low <= high,
    ensures
        low <= value <= high,
{
    rand::thread_rng().gen_range(low..=high)
}

} // verus!
