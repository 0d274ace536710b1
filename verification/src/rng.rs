//! The engine's only boundary with the `rand` crate: a thread-local random
//! number generator, one uniform integer draw, and the weighted index
//! distribution that the pattern sampler is built on. Everything else in the
//! crate is verified against the contracts stated here.

use rand::distributions::WeightedIndex;
use vstd::prelude::*;

verus! {

#[verifier::external_type_specification]
#[verifier::external_body]
pub struct ExThreadRng(rand::rngs::ThreadRng);

/// Holds a `rand` weighted index distribution over `u32` weights. The bounds
/// on the distribution's type parameter name `rand` traits, so the type
/// cannot be declared to the verifier directly; it is carried opaquely here
/// and spoken of through [`weighted_index_len`].
#[verifier::external_body]
pub struct WeightedU32Index {
    dist: WeightedIndex<u32>,
}

/// The number of weights a [`WeightedU32Index`] distribution was built from:
/// the drawn indices range over exactly that many values.
pub uninterp spec fn weighted_index_len(dist: WeightedU32Index) -> nat;

/// The sum of a weight vector, as the `rand` crate accumulates it.
pub open spec fn weights_total(weights: Seq<u32>) -> int
    decreases weights.len(),
{
    if weights.len() == 0 {
        0
    } else {
        weights_total(weights.drop_last()) + weights.last()
    }
}

/// Relies on rand::thread_rng: hands out the thread-local generator.
#[verifier::external_body]
pub(crate) fn fresh_rng() -> rand::rngs::ThreadRng {
    rand::thread_rng()
}

/// Relies on rand::Rng::gen_range over the inclusive range `0..=bound`: the
/// range is never empty, so the call cannot panic, and whatever is drawn lies
/// in the range.
#[verifier::external_body]
pub(crate) fn rand_upto(rng: &mut rand::rngs::ThreadRng, bound: usize) -> (r: usize)
    ensures
        r <= bound,
{
    rand::Rng::gen_range(rng, 0..=bound)
}

/// Relies on rand::distributions::WeightedIndex::new: it fails exactly on an
/// empty weight vector (`NoItem`) or an all-zero one (`AllWeightsZero`) —
/// unsigned weights are never negative — and a successful build keeps one
/// cumulative weight short of the full vector, so the distribution ranges
/// over `weights.len()` indices. The total is required to fit the weight type
/// because `new` sums the weights with plain additions.
#[verifier::external_body]
pub(crate) fn new_weighted_index(weights: &Vec<u32>) -> (r: Option<WeightedU32Index>)
    requires
        weights_total(weights@) <= u32::MAX,
    ensures
        r is Some <==> (weights@.len() > 0 && weights_total(weights@) > 0),
        r is Some ==> weighted_index_len(r->Some_0) == weights@.len(),
{
    match WeightedIndex::new(weights.iter().cloned()) {
        Ok(dist) => Some(WeightedU32Index { dist }),
        Err(_) => None,
    }
}

/// Relies on WeightedIndex's Distribution::sample: a binary search over the
/// stored cumulative weights (one fewer than the weights the distribution was
/// built from) whose error position is at most their number, so the index is
/// always below the number of weights.
#[verifier::external_body]
pub(crate) fn sample_weighted_index(
    dist: &WeightedU32Index,
    rng: &mut rand::rngs::ThreadRng,
) -> (r: usize)
    requires
        weighted_index_len(*dist) >= 1,
    ensures
        r < weighted_index_len(*dist),
{
    rand::distributions::Distribution::sample(&dist.dist, rng)
}

} // verus!
