//! The one source of chance in the library: uniform picks from `rand`'s thread-local generator.

use vstd::prelude::*;

verus! {

/// Calls `rand::random_range(low..=high)`, which draws a value uniformly from the
/// inclusive range and panics only when the range is empty. The contract claims only
/// that the value lies inside the range; which value comes back is left to chance.
#[verifier::external_body]
pub(crate) fn random_index(low: usize, high: usize) -> (value: usize)
    requires
        low <= high,
    ensures
        low <= value <= high,
{
    rand::random_range(low..=high)
}

} // verus!
