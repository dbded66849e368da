//! Draws from the thread-local random number generator of `rand`.

use vstd::prelude::*;

verus! {

/// A uniform draw from `0..bound`: `rand::Rng::gen_range(0..bound)` on
/// `rand::thread_rng()`. `gen_range` panics on an empty range, hence the
/// `requires`. The value is random: only its range is claimed.
#[verifier::external_body]
pub fn random_below(bound: u32) -> (r: u32)
    requires
        bound > 0,
    ensures
        r < bound,
{
    rand::Rng::gen_range(&mut rand::thread_rng(), 0..bound)
}

/// One element of `items` picked at random:
/// `rand::seq::SliceRandom::choose` on `rand::thread_rng()`. As its
/// documentation and source show, it returns `None` exactly when the slice
/// is empty and otherwise a reference to an element of the slice; which
/// element is random and is not claimed.
#[verifier::external_body]
pub fn choose_one<'a, T>(items: &'a [T]) -> (r: Option<&'a T>)
    ensures
        r is Some <==> items@.len() > 0,
        r matches Some(x) ==> items@.contains(*x),
{
    rand::seq::SliceRandom::choose(items, &mut rand::thread_rng())
}

} // verus!
