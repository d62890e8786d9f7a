//! The one random draw the scheduler makes: an integer below a bound.
//!
//! Nothing is assumed of the distribution; every caller is verified for
//! every value the draw may take.

use vstd::prelude::*;

verus! {

use rand::Rng;

/// Relies on rand's thread_rng and Rng::gen_range over `0..bound`: a
/// drawn integer strictly below `bound`.
#[verifier::external_body]
pub(crate) fn random_below(bound: u32) -> (r: u32)
    requires
        bound >= 1,
    ensures
        r < bound,
{
    rand::thread_rng().gen_range(0..bound)
}

} // verus!
