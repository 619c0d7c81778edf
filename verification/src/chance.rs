//! The random draws that the generator makes, each behind a contract that
//! holds of every outcome.

use rand::distributions::{Distribution, WeightedError, WeightedIndex};
use rand::rngs::ThreadRng;
use rand::seq::SliceRandom;
use rand::Rng;
use vstd::prelude::*;

verus! {

#[verifier::external_type_specification]
#[verifier::external_body]
pub struct ExThreadRng(ThreadRng);

#[verifier::external_type_specification]
#[verifier::external_body]
pub struct ExFastRng(fastrand::Rng);

/// A `WeightedIndex` of `rand` over weights of sixteen bits. What it holds
/// is known by `weights_of` alone.
#[verifier::external_body]
pub struct WeightTable {
    index: WeightedIndex<u16>,
}

#[verifier::external_type_specification]
#[verifier::external_body]
pub struct ExWeightedError(WeightedError);

/// The weights that a table was made of, in their order.
pub uninterp spec fn weights_of(table: WeightTable) -> Seq<u16>;

/// The sum of weights.
pub open spec fn total_weight(weights: Seq<u16>) -> int
    decreases weights.len(),
{
    if weights.len() == 0 {
        0
    } else {
        total_weight(weights.drop_last()) + weights.last()
    }
}

/// `rand::thread_rng`: the generator of the running thread. Nothing is claimed
/// of it.
pub assume_specification[ rand::thread_rng ]() -> ThreadRng;

/// `fastrand::Rng::new`: a generator seeded from the thread's own. Nothing is
/// claimed of it.
pub assume_specification[ fastrand::Rng::new ]() -> fastrand::Rng;

/// `WeightedIndex::new` over weights of sixteen bits whose sum fits in
/// sixteen bits: it fails exactly if there is no weight or all are zero, and
/// otherwise holds the weights given.
#[verifier::external_body]
pub(crate) fn weighted_index(weights: &Vec<u16>) -> (made: Result<WeightTable, WeightedError>)
    requires
        total_weight(weights@) <= u16::MAX,
    ensures
        made.is_ok() == (weights@.len() > 0 && total_weight(weights@) > 0),
        made.is_ok() ==> weights_of(made.unwrap()) == weights@,
{
    match WeightedIndex::new(weights) {
        Ok(index) => Ok(WeightTable { index }),
        Err(error) => Err(error),
    }
}

/// `WeightedIndex::sample`: the position of one of the weights, and never of
/// a weight of zero.
#[verifier::external_body]
pub(crate) fn sample_index(table: &WeightTable, rng: &mut ThreadRng) -> (position: usize)
    ensures
        position < weights_of(*table).len(),
        weights_of(*table)[position as int] > 0,
{
    table.index.sample(rng)
}

/// `Rng::gen_range` over an inclusive range that is not empty: a number
/// within the bounds.
#[verifier::external_body]
pub(crate) fn gen_range_inclusive(rng: &mut ThreadRng, low: usize, high: usize) -> (number: usize)
    requires
        low <= high,
    ensures
        low <= number <= high,
{
    rng.gen_range(low..=high)
}

/// `SliceRandom::choose`: one of the items, or nothing where there is none.
#[verifier::external_body]
pub(crate) fn choose_char(items: &[char], rng: &mut ThreadRng) -> (chosen: Option<char>)
    ensures
        items@.len() == 0 ==> chosen is None,
        items@.len() > 0 ==> chosen is Some && items@.contains(chosen->Some_0),
{
    items.choose(rng).copied()
}

/// The capital form of a character, which may take more than one character.
pub uninterp spec fn uppercase_of(c: char) -> Seq<char>;

/// `char::to_uppercase`, gathered into a list: the capital form of a
/// character, as Unicode gives it.
#[verifier::external_body]
pub(crate) fn to_uppercase(c: char) -> (upper: Vec<char>)
    ensures
        upper@ == uppercase_of(c),
{
    c.to_uppercase().collect()
}

/// `fastrand::Rng::shuffle`: the items in another order.
#[verifier::external_body]
pub(crate) fn shuffle_strings(rng: &fastrand::Rng, items: &mut Vec<String>)
    ensures
        final(items)@.to_multiset() == old(items)@.to_multiset(),
{
    rng.shuffle(items)
}

/// `fastrand::Rng::u32` over the full range: any number of thirty-two bits.
#[verifier::external_body]
pub(crate) fn random_u32(rng: &fastrand::Rng) -> u32 {
    rng.u32(..)
}

} // verus!
