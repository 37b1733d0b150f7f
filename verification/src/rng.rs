use vstd::prelude::*;
use rand::distributions::Distribution;
use crate::seqsum::seg_sum;

verus! {

/// Relies on rand's WeightedIndex over the thread-local generator: draws an
/// index with probability proportional to its weight. The draw is random, so
/// nothing more is promised than that the index is in range and that an index
/// with zero weight is never returned.
#[verifier::external_body]
pub fn sample_weighted_index(weights: &Vec<usize>) -> (r: usize)
    requires
        weights@.len() > 0,
        0 < seg_sum(weights@, 0, weights@.len() as int),
        seg_sum(weights@, 0, weights@.len() as int) <= usize::MAX,
    ensures
        r < weights@.len(),
        0 < weights@[r as int],
{
    let dist = rand::distributions::WeightedIndex::new(weights.iter()).unwrap();
    dist.sample(&mut rand::thread_rng())
}

} // verus!
