use vstd::prelude::*;

use rand::RngExt;

verus! {

/// Relies on rand::rng and rand::RngExt::random_range: for a nonempty range
/// 0..n the call returns a uniformly distributed element of the range.
/// Nothing beyond membership in the range can be stated of a random draw.
#[verifier::external_body]
pub(crate) fn random_below(n: usize) -> (r: usize)
    requires
        n >= 1,
    ensures
        r < n,
{
    rand::rng().random_range(0..n)
}

} // verus!
