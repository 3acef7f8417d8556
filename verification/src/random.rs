//! The one place where chance enters the library.

use vstd::prelude::*;
use rand::Rng;

verus! {

/// `Rng::gen_range(0, bound)` of rand on the generator of the calling thread:
/// an index drawn from `0..bound`. The range must not be empty, or rand panics.
/// Nothing is claimed of the draw but its range.
#[verifier::external_body]
pub(crate) fn random_below(bound: usize) -> (r: usize)
    requires
        bound > 0,
    ensures
        r < bound,
{
    rand::thread_rng().gen_range(0, bound)
}

} // verus!
