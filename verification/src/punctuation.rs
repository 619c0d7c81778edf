//! What the modifiers put into the text, and how often.

use crate::chance::{sample_index, total_weight, weighted_index, weights_of, WeightTable};
use crate::settings::{ModSet, TestMod};
use rand::rngs::ThreadRng;
use vstd::pervasive::unreached;
use vstd::prelude::*;

verus! {

/// What can stand between two words.
#[derive(Debug, Clone, Copy, PartialEq, Eq, Structural)]
pub enum InnerWord {
    Dash,
    Number,
    Symbol,
}

/// What is done to a word.
#[derive(Debug, Clone, Copy, PartialEq, Eq, Structural)]
pub enum Punctuation {
    /// A mark behind the word that does not end a sentence.
    Normal(char),
    /// A mark behind the word that ends a sentence: the next word gets a
    /// capital.
    End(char),
    /// A mark before the word and its partner behind it.
    Paired(char, char),
    /// A token of its own behind the word.
    InBetweener(InnerWord),
    /// Nothing.
    Nil,
}

/// The weights of a table, in its order.
pub open spec fn entry_weights(entries: Seq<(Punctuation, u16)>) -> Seq<u16> {
    Seq::new(entries.len(), |i: int| entries[i].1)
}

/// What the entries of a table do to a word, in its order.
pub open spec fn entry_symbols(entries: Seq<(Punctuation, u16)>) -> Seq<Punctuation> {
    Seq::new(entries.len(), |i: int| entries[i].0)
}

/// The marks that the punctuation modifier adds, with their weights.
pub open spec fn punctuation_entries() -> Seq<(Punctuation, u16)> {
    seq![
        (Punctuation::End('.'), 65u16),
        (Punctuation::End('?'), 8u16),
        (Punctuation::End('!'), 6u16),
        (Punctuation::Normal(','), 61u16),
        (Punctuation::Normal(';'), 3u16),
        (Punctuation::Normal(':'), 3u16),
        (Punctuation::Paired('<', '>'), 2u16),
        (Punctuation::Paired('(', ')'), 5u16),
        (Punctuation::Paired('{', '}'), 2u16),
        (Punctuation::Paired('[', ']'), 2u16),
        (Punctuation::Paired('"', '"'), 13u16),
        (Punctuation::Paired('\'', '\''), 10u16),
        (Punctuation::InBetweener(InnerWord::Dash), 10u16),
    ]
}

/// The table for a set of modifiers: nothing is done with weight 750, and
/// each modifier adds its own entries.
pub open spec fn table_for(test_mods: ModSet) -> Seq<(Punctuation, u16)> {
    seq![(Punctuation::Nil, 750u16)] + (if test_mods.punctuation {
        punctuation_entries()
    } else {
        Seq::empty()
    }) + (if test_mods.numbers {
        seq![(Punctuation::InBetweener(InnerWord::Number), 150u16)]
    } else {
        Seq::empty()
    }) + (if test_mods.symbols {
        seq![(Punctuation::InBetweener(InnerWord::Symbol), 71u16)]
    } else {
        Seq::empty()
    })
}

/// Adding a weight adds it to the sum.
pub proof fn lemma_total_weight_push(weights: Seq<u16>, weight: u16)
    ensures
        total_weight(weights.push(weight)) == total_weight(weights) + weight,
        total_weight(weights) >= 0,
    decreases weights.len(),
{
    assert(weights.push(weight).drop_last() =~= weights);
    if weights.len() > 0 {
        lemma_total_weight_push(weights.drop_last(), weights.last());
        assert(weights.drop_last().push(weights.last()) =~= weights);
    }
}

/// A weighted choice of what to do to a word.
pub struct PunctuationInsertFrequency {
    pub weighted_index: WeightTable,
    pub symbols: Vec<Punctuation>,
}

impl PunctuationInsertFrequency {
    /// Each weight belongs to one symbol.
    pub open spec fn wf(&self) -> bool {
        self.symbols@.len() == weights_of(self.weighted_index).len()
    }

    /// Makes the choice of a table. The table must hold a weight that is not
    /// zero, and the sum of its weights must fit in sixteen bits.
    pub fn from_protoplast(protoplast: Vec<(Punctuation, u16)>) -> (frequency: Self)
        requires
            0 < total_weight(entry_weights(protoplast@)) <= u16::MAX,
        ensures
            frequency.symbols@ == entry_symbols(protoplast@),
            weights_of(frequency.weighted_index) == entry_weights(protoplast@),
            frequency.wf(),
    {
        let mut weights: Vec<u16> = Vec::with_capacity(protoplast.len());
        let mut symbols: Vec<Punctuation> = Vec::with_capacity(protoplast.len());
        let mut i: usize = 0;
        while i < protoplast.len()
            invariant
                i <= protoplast.len(),
                weights@ == entry_weights(protoplast@.subrange(0, i as int)),
                symbols@ == entry_symbols(protoplast@.subrange(0, i as int)),
            decreases protoplast.len() - i,
        {
            let entry = protoplast[i];
            weights.push(entry.1);
            symbols.push(entry.0);
            assert(weights@ =~= entry_weights(protoplast@.subrange(0, i + 1)));
            assert(symbols@ =~= entry_symbols(protoplast@.subrange(0, i + 1)));
            i += 1;
        }
        assert(protoplast@.subrange(0, i as int) =~= protoplast@);
        proof {
            if weights@.len() == 0 {
                assert(total_weight(weights@) == 0);
            }
        }
        match weighted_index(&weights) {
            Ok(weighted_index) => Self { weighted_index, symbols },
            Err(_) => unreached(),
        }
    }

    /// The choice for a set of modifiers.
    pub fn from_test_mods(test_mods: &ModSet) -> (frequency: Self)
        ensures
            frequency.symbols@ == entry_symbols(table_for(*test_mods)),
            weights_of(frequency.weighted_index) == entry_weights(table_for(*test_mods)),
            frequency.wf(),
    {
        let mut protoplast: Vec<(Punctuation, u16)> = Vec::new();
        protoplast.push((Punctuation::Nil, 750));
        proof {
            assert(entry_weights(protoplast@) =~= Seq::<u16>::empty().push(750u16));
            lemma_total_weight_push(Seq::<u16>::empty(), 750u16);
            assert(total_weight(Seq::<u16>::empty()) == 0);
        }
        if test_mods.contains(&TestMod::Punctuation) {
            push_entry(&mut protoplast, Punctuation::End('.'), 65);
            push_entry(&mut protoplast, Punctuation::End('?'), 8);
            push_entry(&mut protoplast, Punctuation::End('!'), 6);
            push_entry(&mut protoplast, Punctuation::Normal(','), 61);
            push_entry(&mut protoplast, Punctuation::Normal(';'), 3);
            push_entry(&mut protoplast, Punctuation::Normal(':'), 3);
            push_entry(&mut protoplast, Punctuation::Paired('<', '>'), 2);
            push_entry(&mut protoplast, Punctuation::Paired('(', ')'), 5);
            push_entry(&mut protoplast, Punctuation::Paired('{', '}'), 2);
            push_entry(&mut protoplast, Punctuation::Paired('[', ']'), 2);
            push_entry(&mut protoplast, Punctuation::Paired('"', '"'), 13);
            push_entry(&mut protoplast, Punctuation::Paired('\'', '\''), 10);
            push_entry(&mut protoplast, Punctuation::InBetweener(InnerWord::Dash), 10);
        }
        if test_mods.contains(&TestMod::Numbers) {
            push_entry(&mut protoplast, Punctuation::InBetweener(InnerWord::Number), 150);
        }
        if test_mods.contains(&TestMod::Symbols) {
            push_entry(&mut protoplast, Punctuation::InBetweener(InnerWord::Symbol), 71);
        }
        assert(protoplast@ =~= table_for(*test_mods));
        Self::from_protoplast(protoplast)
    }

    /// Chooses what to do to a word: one of the symbols, and none whose
    /// weight is zero.
    pub fn choose_punctuation(&self, rng: &mut ThreadRng) -> (chosen: Punctuation)
        requires
            self.wf(),
        ensures
            exists|i: int|
                0 <= i < self.symbols@.len() && self.symbols@[i] == chosen && weights_of(
                    self.weighted_index,
                )[i] > 0,
    {
        let i = sample_index(&self.weighted_index, rng);
        self.symbols[i]
    }
}

/// Adds one entry to a table.
fn push_entry(table: &mut Vec<(Punctuation, u16)>, symbol: Punctuation, weight: u16)
    ensures
        final(table)@ == old(table)@.push((symbol, weight)),
        total_weight(entry_weights(final(table)@)) == total_weight(entry_weights(old(table)@))
            + weight,
{
    table.push((symbol, weight));
    proof {
        assert(entry_weights(table@) =~= entry_weights(old(table)@).push(weight));
        lemma_total_weight_push(entry_weights(old(table)@), weight);
    }
}

} // verus!
