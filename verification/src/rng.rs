//! The one randomized ingredient: a uniform draw used to place food.

use vstd::prelude::*;
use rand::Rng;

verus! {

/// Relies on `rand::thread_rng` and `rand::Rng::gen_range`: sampling the
/// half-open range `0..n` yields a value at least `0` and strictly below
/// `n`. `gen_range` panics on an empty range, which the precondition
/// rules out. Nothing more is assumed of the draw: it is random.
#[verifier::external_body]
pub(crate) fn random_below(n: i32) -> (r: i32)
    requires
        n > 0,
    ensures
        0 <= r < n,
{
    rand::thread_rng().gen_range(0..n)
}

} // verus!
