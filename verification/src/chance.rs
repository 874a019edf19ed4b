//! Random draws.
use rand::Rng;
use vstd::prelude::*;

verus! {

/// Draws a number from `low` to `high`, both included, with
/// `rand::thread_rng().gen_range(low..=high)`. Stated: the number lies in
/// that range; which one it is depends on the random generator and is left
/// open.
#[verifier::external_body]
pub(crate) fn random_between(low: i32, high: i32) -> (r: i32)
    requires
        low <= high,
    ensures
        low <= r <= high,
{
    rand::thread_rng().gen_range(low..=high)
}

} // verus!
