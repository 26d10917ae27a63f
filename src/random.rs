//! Draws from a seedable pseudo-random source.
use vstd::prelude::*;
use rand::Rng;
use rand::seq::SliceRandom;

verus! {

#[verifier::external_type_specification]
#[verifier::external_body]
pub struct ExStdRng(rand::rngs::StdRng);

/// Relies on rand's `SliceRandom::choose`: on a non-empty slice, one of its
/// elements (handed back as a clone).
#[verifier::external_body]
pub(crate) fn choose_branch(branches: &Vec<String>, rng: &mut rand::rngs::StdRng) -> (r: Option<
    String,
>)
    requires
        branches@.len() > 0,
    ensures
        r is Some,
        branches@.contains(r->Some_0),
{
    branches.choose(rng).cloned()
}

/// Relies on rand's `Rng::gen_range` over `0..=9`: one decimal digit.
#[verifier::external_body]
pub(crate) fn draw_digit(rng: &mut rand::rngs::StdRng) -> (r: u8)
    ensures
        r <= 9,
{
    rng.gen_range(0..=9u8)
}

} // verus!
