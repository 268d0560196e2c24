//! The random draws the simulation makes.
//!
//! Nothing here is verified: each function hands a request to the `rand`
//! crate, and its contract records what that crate documents about the
//! answer. Every caller is verified for all answers the contract allows.

use vstd::prelude::*;
use rand::distr::weighted::WeightedIndex;
use rand::distr::Distribution;
use rand::Rng;

verus! {

/// Sum of a list of weights.
pub open spec fn total_weight(weights: Seq<i32>) -> int
    decreases weights.len(),
{
    if weights.len() == 0 {
        0
    } else {
        total_weight(weights.drop_last()) + weights.last()
    }
}

/// Weights a weighted draw can be made from: at least one, none negative,
/// not all zero, and with a sum that fits the weight type.
pub open spec fn valid_weights(weights: Seq<i32>) -> bool {
    &&& weights.len() > 0
    &&& forall|i: int| 0 <= i < weights.len() ==> weights[i] >= 0
    &&& 0 < total_weight(weights) <= i32::MAX
}

/// A prepared weighted draw over the indices of a list of weights; holds a
/// `rand::distr::weighted::WeightedIndex<i32>`.
#[verifier::external_body]
pub struct WeightedChoice {
    index: WeightedIndex<i32>,
}

/// The weights a [`WeightedChoice`] was prepared from.
pub uninterp spec fn choice_weights(choice: WeightedChoice) -> Seq<i32>;

/// Calls `rand::rng().random_range(low..high)`: some value of the half-open
/// range, which must not be empty.
#[verifier::external_body]
pub(crate) fn random_range(low: i32, high: i32) -> (value: i32)
    requires
        low < high,
    ensures
        low <= value < high,
{
    rand::rng().random_range(low..high)
}

/// Calls `rand::random::<bool>()`: either value may come back.
#[verifier::external_body]
pub(crate) fn random_bool() -> bool {
    rand::random()
}

/// Calls `WeightedIndex::new` on the weights. It succeeds exactly on
/// [`valid_weights`], and the result remembers the weights it was given.
#[verifier::external_body]
pub(crate) fn weighted_choice_new(weights: &[i32]) -> (choice: Option<WeightedChoice>)
    ensures
        choice is Some <==> valid_weights(weights@),
        choice matches Some(c) ==> choice_weights(c) == weights@,
{
    match WeightedIndex::new(weights) {
        Ok(index) => Some(WeightedChoice { index }),
        Err(_) => None,
    }
}

/// Calls `WeightedIndex::sample` with the thread-local generator: the index
/// of one of the weights.
#[verifier::external_body]
pub(crate) fn weighted_choice_sample(choice: &WeightedChoice) -> (index: usize)
    ensures
        index < choice_weights(*choice).len(),
{
    choice.index.sample(&mut rand::rng())
}

} // verus!
