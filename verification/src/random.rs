use rand::distributions::Distribution;
use rand::Rng;
use vstd::prelude::*;

verus! {

/// The seedable generator that every random choice of the library draws from.
#[verifier::external_type_specification]
#[verifier::external_body]
pub struct ExStdRng(rand::rngs::StdRng);

/// Sum of a sequence of weights, as a mathematical integer.
pub open spec fn weight_sum(s: Seq<u64>) -> int
    decreases s.len(),
{
    if s.len() == 0 {
        0
    } else {
        weight_sum(s.drop_last()) + s.last()
    }
}

/// Calls `rand::distributions::WeightedIndex::new(weights)` and samples it with `rng`.
/// `WeightedIndex` draws a number below the total weight and returns the index of the
/// first weight whose running sum exceeds it, so the index is in range and its weight is
/// positive. Which such index comes out depends on the generator: nothing more is stated.
/// `new` fails on an empty list or a zero total (excluded here), and the running sum
/// must fit in a `u64`.
#[verifier::external_body]
pub(crate) fn sample_weighted_index(rng: &mut rand::rngs::StdRng, weights: &Vec<u64>) -> (i: usize)
    requires
        weights.len() > 0,
        weight_sum(weights@) > 0,
        weight_sum(weights@) <= u64::MAX,
    ensures
        i < weights.len(),
        weights@[i as int] > 0,
{
    rand::distributions::WeightedIndex::new(weights).unwrap().sample(rng)
}

/// Calls `rand::Rng::gen_range(start..end)`, which panics on an empty range and
/// otherwise returns a value in `start..end`.
#[verifier::external_body]
pub(crate) fn gen_range_i32(rng: &mut rand::rngs::StdRng, start: i32, end: i32) -> (r: i32)
    requires
        start < end,
    ensures
        start <= r < end,
{
    rng.gen_range(start..end)
}

/// Calls `rand::Rng::gen_range(start..end)` on `u32`, which panics on an empty range and
/// otherwise returns a value in `start..end`.
#[verifier::external_body]
pub(crate) fn gen_range_u32(rng: &mut rand::rngs::StdRng, start: u32, end: u32) -> (r: u32)
    requires
        start < end,
    ensures
        start <= r < end,
{
    rng.gen_range(start..end)
}

} // verus!
