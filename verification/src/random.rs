//! Chance, as far as the library needs it.

use vstd::prelude::*;

verus! {

/// A number between `low` and `high`, both included, drawn by
/// `rand::Rng::random_range` from the generator that `rand::rng` keeps for
/// the current thread. All that is claimed of the number is that it lies in
/// the range; an empty range, on which the call panics, is left out.
#[verifier::external_body]
pub(crate) fn random_in_range(low: i64, high: i64) -> (n: i64)
    requires
        low <= high,
    ensures
        low <= n <= high,
{
    rand::Rng::random_range(&mut rand::rng(), low..=high)
}

} // verus!
