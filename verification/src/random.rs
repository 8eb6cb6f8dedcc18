//! Random draws.
use vstd::prelude::*;

verus! {

/// Calls `rand::random_range(low..high)`, a draw from the thread-local
/// generator. rand documents (and its source shows) that the value lies in
/// `low..high`, and that it panics on an empty range, which `requires`
/// leaves out. Which value comes is chance: nothing more is claimed.
#[verifier::external_body]
pub(crate) fn random_i32(low: i32, high: i32) -> (r: i32)
    requires
        low < high,
    ensures
        low <= r < high,
{
    rand::random_range(low..high)
}

} // verus!
