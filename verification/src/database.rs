//! How a run is written into the history: the bitflag of its modifiers and
//! the text that stands for them.

use crate::settings::{ModSet, TestMod, TestVariant, TypingTestConfig};
use crate::utils::decimal::{decimal, decimal_spec};
use vstd::prelude::*;
use vstd::string::StringExecFns;

verus! {

/// The bitflag under which a set of modifiers is stored: the sum of the bits
/// of its members.
pub fn encode_test_mod_bitflag(test_mods: &ModSet) -> (bitflag: u8)
    ensures
        bitflag == test_mods.spec_bits(),
        bitflag < 8,
{
    let mut bitflag: u8 = 0;
    if test_mods.contains(&TestMod::Punctuation) {
        bitflag += TestMod::Punctuation.bitflag();
    }
    if test_mods.contains(&TestMod::Numbers) {
        bitflag += TestMod::Numbers.bitflag();
    }
    if test_mods.contains(&TestMod::Symbols) {
        bitflag += TestMod::Symbols.bitflag();
    }
    bitflag
}

/// The text that stands for a bitflag in the history: a space, and the
/// shorthand of each modifier whose bit is set.
pub open spec fn decode_spec(bitflag: u8) -> Seq<char> {
    seq![' '] + (if bitflag & 1 != 0 {
        TestMod::Punctuation.spec_shorthand()
    } else {
        Seq::empty()
    }) + (if bitflag & 2 != 0 {
        TestMod::Numbers.spec_shorthand()
    } else {
        Seq::empty()
    }) + (if bitflag & 4 != 0 {
        TestMod::Symbols.spec_shorthand()
    } else {
        Seq::empty()
    })
}

pub fn decode(bitflag: u8) -> (text: String)
    ensures
        text@ == decode_spec(bitflag),
{
    proof {
        reveal_strlit(" ");
    }
    let mut result = " ".to_owned();
    assert(result@ =~= seq![' ']);
    if bitflag & 1 != 0 {
        result.append(TestMod::Punctuation.shorthand());
    }
    if bitflag & 2 != 0 {
        result.append(TestMod::Numbers.shorthand());
    }
    if bitflag & 4 != 0 {
        result.append(TestMod::Symbols.shorthand());
    }
    assert(result@ =~= decode_spec(bitflag));
    result
}

/// The length, the bitflag of the modifiers and the pool under which a run
/// is stored. A script has none of them: all three are zero.
pub fn run_record(ttc: &TypingTestConfig) -> (record: (usize, u8, usize))
    ensures
        record == (match ttc.variant {
            TestVariant::Script => (0usize, 0u8, 0usize),
            TestVariant::Standard => (ttc.length, ttc.mods.spec_bits(), ttc.word_pool),
        }),
{
    match ttc.variant {
        TestVariant::Script => (0, 0, 0),
        TestVariant::Standard => (ttc.length, encode_test_mod_bitflag(&ttc.mods), ttc.word_pool),
    }
}

/// The name under which a run is listed in the history: for a script, which
/// is stored with a pool of zero, the name of the test alone; else the name,
/// the length and the pool, and the modifiers.
pub open spec fn entry_name_spec(
    raw_name: Seq<char>,
    length: usize,
    word_pool: usize,
    mods: u8,
) -> Seq<char> {
    if word_pool == 0 {
        raw_name
    } else {
        raw_name + seq![' '] + decimal_spec(length as nat) + seq!['/'] + decimal_spec(
            word_pool as nat,
        ) + decode_spec(mods)
    }
}

pub fn entry_name(raw_name: &str, length: usize, word_pool: usize, mods: u8) -> (name: String)
    ensures
        name@ == entry_name_spec(raw_name@, length, word_pool, mods),
{
    let mut name = raw_name.to_owned();
    if word_pool != 0 {
        proof {
            reveal_strlit(" ");
            reveal_strlit("/");
        }
        name.append(" ");
        name.append(decimal(length).as_str());
        name.append("/");
        name.append(decimal(word_pool).as_str());
        name.append(decode(mods).as_str());
        assert(name@ =~= entry_name_spec(raw_name@, length, word_pool, mods));
    }
    name
}

/// The widths to which the columns of a history are set.
#[derive(Debug, Clone, Copy, PartialEq, Eq, Structural)]
pub struct JustingInfo {
    pub name_len: usize,
    pub correct: usize,
}

impl JustingInfo {
    pub fn new() -> (info: Self)
        ensures
            info.name_len == 0,
            info.correct == 0,
    {
        JustingInfo { name_len: 0, correct: 0 }
    }

    /// Takes one more entry into account: the longest name and the largest
    /// count of correct characters are kept.
    pub fn update(&mut self, name_len: usize, correct: usize)
        ensures
            final(self).name_len == (if name_len > old(self).name_len {
                name_len
            } else {
                old(self).name_len
            }),
            final(self).correct == (if correct > old(self).correct {
                correct
            } else {
                old(self).correct
            }),
    {
        if name_len > self.name_len {
            self.name_len = name_len;
        }
        if correct > self.correct {
            self.correct = correct;
        }
    }
}

} // verus!
