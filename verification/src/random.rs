//! Random draws, taken from the generator of the running thread.

use vstd::prelude::*;
use rand::distributions::{IndependentSample, Range};
use rand::Rng;
use crate::sprite::Sprite;

verus! {

/// `rand::Rng::gen_range(0, high)` on `rand::thread_rng()`.
///
/// Believed of it: the number drawn is below `high`. Which number comes is left open.
/// `gen_range` panics on an empty range, so `high` must be positive.
#[verifier::external_body]
pub(crate) fn random_below(high: u64) -> (r: u64)
    requires
        high > 0,
    ensures
        r < high,
{
    rand::thread_rng().gen_range(0, high)
}

/// `rand::distributions::Range::new(0, high)`, sampled once with `ind_sample` on
/// `rand::thread_rng()`.
///
/// Believed of it: the number drawn is below `high`. Which number comes is left open.
/// `Range::new` panics on an empty range, so `high` must be positive.
#[verifier::external_body]
pub(crate) fn sample_below(high: u32) -> (r: u32)
    requires
        high > 0,
    ensures
        r < high,
{
    Range::new(0, high).ind_sample(&mut rand::thread_rng())
}

/// `rand::Rng::choose` on `rand::thread_rng()`.
///
/// Believed of it: from an empty list it returns nothing, from any other one of the
/// list's sprites. Which one comes is left open.
#[verifier::external_body]
pub(crate) fn choose_sprite(sprites: &Vec<Sprite>) -> (r: Option<Sprite>)
    ensures
        match r {
            Some(sprite) => sprites@.contains(sprite),
            None => sprites@.len() == 0,
        },
{
    rand::thread_rng().choose(sprites).copied()
}

} // verus!
