//! Random draws. What is drawn is not known to the verifier: callers state
//! what holds of every value in the range.

use rand::Rng;
use vstd::prelude::*;

verus! {

/// Calls `rand::thread_rng` and `Rng::gen_range` on the half-open range
/// `low..high`, which panics on an empty range and otherwise returns a value
/// of the range. Which value, nothing says: two calls on one range may
/// differ. `thread_rng` itself fails only where the operating system has no
/// randomness to seed it with.
#[verifier::external_body]
pub(crate) fn gen_range(low: i64, high: i64) -> (r: i64)
    requires
        low < high,
    ensures
        low <= r < high,
{
    rand::thread_rng().gen_range(low..high)
}

} // verus!
