//! Where the random numbers come from.

use rand::Rng;
use vstd::prelude::*;

verus! {

/// A number drawn from `min..max`: `rand::Rng::gen_range` on the generator
/// that `rand::thread_rng` hands out.
///
/// Trusted, not proved. `gen_range` panics on an empty range, so the range
/// must not be empty; what it returns lies in the range. Which number comes
/// is left open: two calls on the same range may differ. The generator
/// itself panics only where the system gives it nothing to start from.
#[verifier::external_body]
pub fn random_range(min: usize, max: usize) -> (drawn: usize)
    requires
        min < max,
    ensures
        min <= drawn < max,
{
    rand::thread_rng().gen_range(min..max)
}

} // verus!
