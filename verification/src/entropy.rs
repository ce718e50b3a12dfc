//! The one source of randomness: replacement letters and the driver's port
//! are both drawn here.

use vstd::prelude::*;
use rand::Rng;

verus! {

/// Draws an integer from `low..high` with `rand::Rng::gen_range` on the
/// thread's generator. The contract claims only what holds of every draw:
/// the result lies in the range. The range must hold a value, as `gen_range`
/// panics on an empty one.
#[verifier::external_body]
pub(crate) fn random_below(low: usize, high: usize) -> (r: usize)
    requires
        low < high,
    ensures
        low <= r < high,
{
    rand::thread_rng().gen_range(low..high)
}

} // verus!
