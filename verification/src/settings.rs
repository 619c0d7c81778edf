//! Test configuration: the modifiers, the test variants and the identity under
//! which results of a test are remembered.

use crate::colorscheme::Color;
use crate::utils::decimal::{decimal, decimal_spec};
use crate::utils::list::StatefulList;
use vstd::prelude::*;
use vstd::string::{StrSliceExecFns, StringExecFns};

verus! {

/// Prefix that marks an entry of the test list as a script.
pub const SCRIPT_SIGN: &'static str = "#!";

/// A name denotes a script when it begins with `#!`.
pub open spec fn spec_is_script(text: Seq<char>) -> bool {
    text.len() >= 2 && text[0] == '#' && text[1] == '!'
}

pub fn is_script(text: &str) -> (b: bool)
    ensures
        b == spec_is_script(text@),
{
    if text.unicode_len() < 2 {
        return false;
    }
    text.get_char(0) == '#' && text.get_char(1) == '!'
}

/// The lists of the settings screen.
#[derive(Clone, Copy, PartialEq, Eq, Hash, Debug, Structural)]
pub enum SetList {
    Length,
    Frequency,
    Test,
    Mods,
    Nil,
}

/// Where the text of a test comes from.
#[derive(Clone, Copy, PartialEq, Eq, Hash, Debug, Structural)]
pub enum TestVariant {
    /// Words sampled from a word list.
    Standard,
    /// The output of a script, taken as literal text.
    Script,
}

/// A modifier that augments the generated text.
#[derive(Debug, Clone, Copy, PartialEq, Eq, Hash, Structural)]
pub enum TestMod {
    Punctuation,
    Numbers,
    Symbols,
}

impl TestMod {
    /// The bit that stands for the modifier in a stored bitflag.
    pub open spec fn spec_bitflag(self) -> u8 {
        match self {
            TestMod::Punctuation => 1,
            TestMod::Numbers => 2,
            TestMod::Symbols => 4,
        }
    }

    pub fn bitflag(self) -> (flag: u8)
        ensures
            flag == self.spec_bitflag(),
    {
        match self {
            TestMod::Punctuation => 1,
            TestMod::Numbers => 2,
            TestMod::Symbols => 4,
        }
    }

    /// The modifier of a single bit. Only the three bits in use name one.
    pub fn from_bitflag(bitflag: u8) -> (test_mod: Self)
        requires
            bitflag == 1 || bitflag == 2 || bitflag == 4,
        ensures
            test_mod.spec_bitflag() == bitflag,
    {
        if bitflag == 1 {
            TestMod::Punctuation
        } else if bitflag == 2 {
            TestMod::Numbers
        } else {
            TestMod::Symbols
        }
    }

    /// The modifier that a configuration file enables by the given name, if
    /// it names one.
    pub open spec fn spec_from_name(name: Seq<char>) -> Option<TestMod> {
        if name == TestMod::Punctuation.spec_name() {
            Some(TestMod::Punctuation)
        } else if name == TestMod::Numbers.spec_name() {
            Some(TestMod::Numbers)
        } else if name == TestMod::Symbols.spec_name() {
            Some(TestMod::Symbols)
        } else {
            None
        }
    }

    pub fn from_name(name: &str) -> (test_mod: Option<TestMod>)
        ensures
            test_mod == TestMod::spec_from_name(name@),
    {
        let name = name.to_owned();
        if name == TestMod::Punctuation.name().to_owned() {
            Some(TestMod::Punctuation)
        } else if name == TestMod::Numbers.name().to_owned() {
            Some(TestMod::Numbers)
        } else if name == TestMod::Symbols.name().to_owned() {
            Some(TestMod::Symbols)
        } else {
            None
        }
    }

    /// The name under which a configuration file enables the modifier.
    pub open spec fn spec_name(self) -> Seq<char> {
        match self {
            TestMod::Punctuation => "punctuation"@,
            TestMod::Numbers => "numbers"@,
            TestMod::Symbols => "symbols"@,
        }
    }

    pub fn name(self) -> (name: &'static str)
        ensures
            name@ == self.spec_name(),
    {
        match self {
            TestMod::Punctuation => "punctuation",
            TestMod::Numbers => "numbers",
            TestMod::Symbols => "symbols",
        }
    }

    /// The two characters that stand for the modifier in a test's description.
    pub open spec fn spec_shorthand(self) -> Seq<char> {
        match self {
            TestMod::Punctuation => "!?"@,
            TestMod::Numbers => "17"@,
            TestMod::Symbols => "#$"@,
        }
    }

    pub fn shorthand(self) -> (short: &'static str)
        ensures
            short@ == self.spec_shorthand(),
    {
        match self {
            TestMod::Punctuation => "!?",
            TestMod::Numbers => "17",
            TestMod::Symbols => "#$",
        }
    }
}

/// A set of modifiers.
#[derive(Debug, Clone, Copy, PartialEq, Eq, Hash, Structural)]
pub struct ModSet {
    pub punctuation: bool,
    pub numbers: bool,
    pub symbols: bool,
}

impl View for ModSet {
    type V = Set<TestMod>;

    open spec fn view(&self) -> Set<TestMod> {
        Set::new(|m: TestMod| self.spec_contains(m))
    }
}

impl ModSet {
    pub open spec fn spec_contains(self, test_mod: TestMod) -> bool {
        match test_mod {
            TestMod::Punctuation => self.punctuation,
            TestMod::Numbers => self.numbers,
            TestMod::Symbols => self.symbols,
        }
    }

    /// The sum of the bits of the members.
    pub open spec fn spec_bits(self) -> u8 {
        ((if self.punctuation { 1int } else { 0 })
            + (if self.numbers { 2int } else { 0 })
            + (if self.symbols { 4int } else { 0 })) as u8
    }

    pub fn new() -> (set: Self)
        ensures
            set@ == Set::<TestMod>::empty(),
            !set.punctuation && !set.numbers && !set.symbols,
    {
        let set = ModSet { punctuation: false, numbers: false, symbols: false };
        assert(set@ =~= Set::<TestMod>::empty());
        set
    }

    pub fn contains(&self, test_mod: &TestMod) -> (found: bool)
        ensures
            found == self@.contains(*test_mod),
    {
        match test_mod {
            TestMod::Punctuation => self.punctuation,
            TestMod::Numbers => self.numbers,
            TestMod::Symbols => self.symbols,
        }
    }

    /// Adds a modifier and tells whether it was new.
    pub fn insert(&mut self, test_mod: TestMod) -> (fresh: bool)
        ensures
            final(self)@ == old(self)@.insert(test_mod),
            fresh == !old(self)@.contains(test_mod),
            forall|m: TestMod|
                final(self).spec_contains(m) == (m == test_mod || old(self).spec_contains(m)),
    {
        let fresh = !self.contains(&test_mod);
        match test_mod {
            TestMod::Punctuation => { self.punctuation = true; },
            TestMod::Numbers => { self.numbers = true; },
            TestMod::Symbols => { self.symbols = true; },
        }
        assert(self@ =~= old(self)@.insert(test_mod));
        fresh
    }

    /// Takes a modifier out and tells whether it was there.
    pub fn remove(&mut self, test_mod: &TestMod) -> (present: bool)
        ensures
            final(self)@ == old(self)@.remove(*test_mod),
            present == old(self)@.contains(*test_mod),
            forall|m: TestMod|
                final(self).spec_contains(m) == (m != *test_mod && old(self).spec_contains(m)),
    {
        let present = self.contains(test_mod);
        match test_mod {
            TestMod::Punctuation => { self.punctuation = false; },
            TestMod::Numbers => { self.numbers = false; },
            TestMod::Symbols => { self.symbols = false; },
        }
        assert(self@ =~= old(self)@.remove(*test_mod));
        present
    }

    /// The set with the modifier taken out if it is in and put in if it is
    /// out.
    pub open spec fn spec_toggle(self, test_mod: TestMod) -> ModSet {
        match test_mod {
            TestMod::Punctuation => ModSet { punctuation: !self.punctuation, ..self },
            TestMod::Numbers => ModSet { numbers: !self.numbers, ..self },
            TestMod::Symbols => ModSet { symbols: !self.symbols, ..self },
        }
    }

    pub open spec fn spec_is_empty(self) -> bool {
        !self.punctuation && !self.numbers && !self.symbols
    }

    pub fn is_empty(&self) -> (empty: bool)
        ensures
            empty == (self@ == Set::<TestMod>::empty()),
            empty == self.spec_is_empty(),
    {
        let empty = !self.punctuation && !self.numbers && !self.symbols;
        proof {
            if empty {
                assert(self@ =~= Set::<TestMod>::empty());
            } else {
                let witness = if self.punctuation {
                    TestMod::Punctuation
                } else if self.numbers {
                    TestMod::Numbers
                } else {
                    TestMod::Symbols
                };
                assert(self@.contains(witness));
            }
        }
        empty
    }

    pub fn len(&self) -> (n: usize)
        ensures
            n == (if self.punctuation { 1int } else { 0 }) + (if self.numbers { 1int } else { 0 })
                + (if self.symbols { 1int } else { 0 }),
    {
        let mut n: usize = 0;
        if self.punctuation {
            n += 1;
        }
        if self.numbers {
            n += 1;
        }
        if self.symbols {
            n += 1;
        }
        n
    }
}

/// The colors in which the settings show the list that the cursor is on and
/// the list that is open.
#[derive(Debug, Clone, Copy, PartialEq, Eq, Structural)]
pub struct SettingsColors {
    pub hover: Color,
    pub active: Color,
}

impl Default for SettingsColors {
    fn default() -> (colors: Self)
        ensures
            colors == (SettingsColors { hover: Color::Magenta, active: Color::Green }),
    {
        Self { hover: Color::Magenta, active: Color::Green }
    }
}

/// A quotient of two natural numbers, kept exact. A denominator of zero
/// stands for a value that is not defined.
#[derive(Debug, Clone, Copy, PartialEq, Eq, Hash, Structural)]
pub struct Ratio {
    pub num: u128,
    pub den: u128,
}

impl Ratio {
    /// The value in thousandths, rounded down; the largest number where the
    /// value is not defined or too large.
    pub open spec fn spec_milli(self) -> u64 {
        if self.den == 0 || 1000 * self.num / (self.den as int) > u64::MAX {
            u64::MAX
        } else {
            (1000 * self.num / (self.den as int)) as u64
        }
    }

    pub fn milli(&self) -> (thousandths: u64)
        ensures
            thousandths == self.spec_milli(),
    {
        if self.den == 0 {
            return u64::MAX;
        }
        match self.num.checked_mul(1000) {
            Some(scaled) => {
                let q = scaled / self.den;
                if q > u64::MAX as u128 {
                    u64::MAX
                } else {
                    q as u64
                }
            },
            None => {
                let q = self.num / self.den;
                proof {
                    lemma_scaled_quotient(self.num as int, self.den as int);
                }
                if q > (u64::MAX / 1000) as u128 {
                    u64::MAX
                } else {
                    let whole = q * 1000;
                    let rest = self.num % self.den;
                    let part = milli_part(rest, self.den);
                    let sum = whole + part as u128;
                    if sum > u64::MAX as u128 {
                        u64::MAX
                    } else {
                        sum as u64
                    }
                }
            },
        }
    }
}

/// `1000 * num / den` taken apart into the whole quotient and the remainder.
pub proof fn lemma_scaled_quotient(num: int, den: int)
    requires
        0 <= num,
        0 < den,
    ensures
        1000 * num / den == 1000 * (num / den) + 1000 * (num % den) / den,
        0 <= num / den,
        0 <= 1000 * (num % den) / den < 1000,
{
    let q = num / den;
    let r = num % den;
    assert(num == q * den + r && 0 <= r < den) by (nonlinear_arith)
        requires
            q == num / den,
            r == num % den,
            0 < den,
    ;
    assert(0 <= q) by (nonlinear_arith)
        requires
            q == num / den,
            0 <= num,
            0 < den,
    ;
    assert(1000 * num == (1000 * q) * den + 1000 * r) by (nonlinear_arith)
        requires
            num == q * den + r,
    ;
    assert(((1000 * q) * den + 1000 * r) / den == 1000 * q + (1000 * r) / den)
        by (nonlinear_arith)
        requires
            0 < den,
            0 <= r,
    ;
    assert(0 <= (1000 * r) / den < 1000) by (nonlinear_arith)
        requires
            0 <= r < den,
    ;
}

/// `1000 * rest / den` for a remainder, without leaving 128 bits.
fn milli_part(rest: u128, den: u128) -> (part: u64)
    requires
        rest < den,
    ensures
        part == 1000 * rest / (den as int),
        part < 1000,
{
    proof {
        assert(0 <= (1000 * rest) / (den as int) < 1000) by (nonlinear_arith)
            requires
                0 <= rest < den,
        ;
    }
    match rest.checked_mul(1000) {
        Some(scaled) => (scaled / den) as u64,
        None => {
            // The product leaves 128 bits: find the largest p with
            // p * den <= 1000 * rest by counting up.
            let mut p: u64 = 0;
            while p < 999 && fits(rest, den, p + 1)
                invariant
                    p <= 999,
                    rest < den,
                    p * den <= 1000 * rest,
                decreases 999 - p,
            {
                p += 1;
            }
            proof {
                let ghost_p = p as int;
                if p < 999 {
                    assert((p + 1) * den > 1000 * rest);
                } else {
                    assert((p + 1) * den > 1000 * rest) by (nonlinear_arith)
                        requires
                            p == 999,
                            rest < den,
                    ;
                }
                assert(1000 * rest / (den as int) == ghost_p) by (nonlinear_arith)
                    requires
                        ghost_p * den <= 1000 * rest,
                        (ghost_p + 1) * den > 1000 * rest,
                        den > 0,
                ;
            }
            p
        },
    }
}

/// Whether `p * den <= 1000 * rest`, for `p` up to a thousand.
fn fits(rest: u128, den: u128, p: u64) -> (b: bool)
    requires
        rest < den,
        1 <= p <= 1000,
    ensures
        b == (p * den <= 1000 * rest),
{
    // p * den <= 1000 * rest  <==>  den <= (1000 * rest) / p, and with
    // rest = a * p + r this is a * 1000 + (1000 * r) / p.
    let a = rest / (p as u128);
    let r = rest % (p as u128);
    let low = (1000 * r) / (p as u128);
    proof {
        assert(rest == a * p + r && 0 <= r < p) by (nonlinear_arith)
            requires
                a == rest / (p as u128),
                r == rest % (p as u128),
                p > 0,
        ;
        assert(1000 * rest == (1000 * a) * p + 1000 * r) by (nonlinear_arith)
            requires
                rest == a * p + r,
        ;
        assert((1000 * rest) / (p as int) == 1000 * a + (1000 * r) / (p as int))
            by (nonlinear_arith)
            requires
                1000 * rest == (1000 * a) * p + 1000 * r,
                p > 0,
                r >= 0,
        ;
        assert((p * den <= 1000 * rest) == (den <= (1000 * rest) / (p as int)))
            by (nonlinear_arith)
            requires
                p > 0,
                den >= 0,
                rest >= 0,
        ;
    }
    match a.checked_mul(1000) {
        Some(high) => match high.checked_add(low) {
            Some(bound) => den <= bound,
            None => true,
        },
        None => true,
    }
}

/// What is left of a test when it is over.
#[derive(Debug, Clone, Copy, PartialEq, Eq, Structural)]
pub struct TestSummary {
    /// Characters typed correctly and left standing.
    pub correct_chars: usize,
    /// Glyphs left marked wrong and characters left in the blanks.
    pub mistakes: usize,
    /// Words per minute: twelve times the correct characters, per second.
    pub wpm: Ratio,
    /// Correct characters per hundred keystrokes that count.
    pub acc: Ratio,
}

impl Default for TestSummary {
    fn default() -> (summary: Self)
        ensures
            summary == (TestSummary {
                correct_chars: 0,
                mistakes: 0,
                wpm: Ratio { num: 0, den: 1 },
                acc: Ratio { num: 0, den: 1 },
            }),
    {
        Self {
            correct_chars: 0,
            mistakes: 0,
            wpm: Ratio { num: 0, den: 1 },
            acc: Ratio { num: 0, den: 1 },
        }
    }
}

/// What the results of a test are remembered under.
#[derive(PartialEq, Eq, Hash, Debug, Clone, Copy, Structural)]
pub struct TestIdentity {
    pub length: usize,
    pub word_pool: usize,
    pub mods: u8,
}

/// What a test is made from, and the result of its last run.
pub struct TypingTestConfig {
    /// Name of the word list or of the script.
    pub name: String,
    pub variant: TestVariant,
    /// Number of words.
    pub length: usize,
    /// Number of lines of the word list, from its start, that words are
    /// drawn from.
    pub word_pool: usize,
    pub mods: ModSet,
    pub test_summary: TestSummary,
}

impl Default for TypingTestConfig {
    fn default() -> (config: Self)
        ensures
            config.name@ == "english"@,
            config.variant == TestVariant::Standard,
            config.length == 25,
            config.word_pool == 5000,
            config.mods@ == Set::<TestMod>::empty(),
            config.mods == (ModSet { punctuation: false, numbers: false, symbols: false }),
            config.test_summary == (TestSummary {
                correct_chars: 0,
                mistakes: 0,
                wpm: Ratio { num: 0, den: 1 },
                acc: Ratio { num: 0, den: 1 },
            }),
    {
        Self {
            name: "english".to_owned(),
            variant: TestVariant::Standard,
            length: 25,
            word_pool: 5000,
            mods: ModSet::new(),
            test_summary: TestSummary::default(),
        }
    }
}

impl TypingTestConfig {
    /// Holds the pool to the number of lines that the word list has, and
    /// gives that number back.
    pub fn validate(&mut self, lines: usize) -> (word_count: usize)
        ensures
            word_count == lines,
            *final(self) == (TypingTestConfig {
                word_pool: if old(self).word_pool > lines {
                    lines
                } else {
                    old(self).word_pool
                },
                ..*old(self)
            }),
    {
        if self.word_pool > lines {
            self.word_pool = lines;
        }
        lines
    }

    /// The modifiers as they are shown behind a test: nothing if there is
    /// none, else a plus sign and, each behind a space, their shorthands.
    pub open spec fn spec_mods_text(mods: ModSet) -> Seq<char> {
        (if mods.spec_is_empty() {
            Seq::empty()
        } else {
            seq!['+']
        }) + (if mods.punctuation {
            seq![' '] + TestMod::Punctuation.spec_shorthand()
        } else {
            Seq::empty()
        }) + (if mods.numbers {
            seq![' '] + TestMod::Numbers.spec_shorthand()
        } else {
            Seq::empty()
        }) + (if mods.symbols {
            seq![' '] + TestMod::Symbols.spec_shorthand()
        } else {
            Seq::empty()
        })
    }

    /// The test in words: a script by its name; a test over a word list by
    /// its name, its length and its pool, and its modifiers.
    pub open spec fn spec_to_string(&self) -> Seq<char> {
        match self.variant {
            TestVariant::Standard => self.name@ + seq![':', ' '] + decimal_spec(
                self.length as nat,
            ) + seq!['/'] + decimal_spec(self.word_pool as nat) + seq![' ']
                + Self::spec_mods_text(self.mods),
            TestVariant::Script => self.name@,
        }
    }

    pub fn to_string(&self) -> (text: String)
        ensures
            text@ == self.spec_to_string(),
    {
        let mut text = self.name.clone();
        if let TestVariant::Standard = self.variant {
            proof {
                reveal_strlit("+");
                reveal_strlit(" ");
                reveal_strlit(": ");
                reveal_strlit("/");
            }
            let mut mods = String::new();
            if !self.mods.is_empty() {
                mods.append("+");
            }
            if self.mods.contains(&TestMod::Punctuation) {
                mods.append(" ");
                mods.append(TestMod::Punctuation.shorthand());
            }
            if self.mods.contains(&TestMod::Numbers) {
                mods.append(" ");
                mods.append(TestMod::Numbers.shorthand());
            }
            if self.mods.contains(&TestMod::Symbols) {
                mods.append(" ");
                mods.append(TestMod::Symbols.shorthand());
            }
            assert(mods@ =~= Self::spec_mods_text(self.mods));
            text.append(": ");
            text.append(decimal(self.length).as_str());
            text.append("/");
            text.append(decimal(self.word_pool).as_str());
            text.append(" ");
            text.append(mods.as_str());
            assert(text@ =~= self.spec_to_string());
        }
        text
    }

    pub fn gib_identity(&self) -> (identity: TestIdentity)
        ensures
            identity == (TestIdentity {
                length: self.length,
                word_pool: self.word_pool,
                mods: self.mods.spec_bits(),
            }),
    {
        TestIdentity {
            length: self.length,
            word_pool: self.word_pool,
            mods: crate::database::encode_test_mod_bitflag(&self.mods),
        }
    }
}

/// The modifiers whose bits are set in `bitflag`. Only the three lowest bits
/// name a modifier.
pub fn decode_test_mod_bitflags(bitflag: u8) -> (test_mods: ModSet)
    requires
        bitflag < 8,
    ensures
        test_mods.spec_bits() == bitflag,
        forall|m: TestMod| test_mods@.contains(m) <==> bitflag & m.spec_bitflag() != 0,
{
    let mut test_mods = ModSet::new();
    let mut i: u8 = 0;
    let mut bit: u8 = 1;
    while i < 3
        invariant
            i <= 3,
            bitflag < 8,
            i == 0 ==> bit == 1,
            i == 1 ==> bit == 2,
            i == 2 ==> bit == 4,
            test_mods.punctuation == (i >= 1 && bitflag & 1 != 0),
            test_mods.numbers == (i >= 2 && bitflag & 2 != 0),
            test_mods.symbols == (i >= 3 && bitflag & 4 != 0),
        decreases 3 - i,
    {
        if bitflag & bit != 0 {
            let ghost before = test_mods;
            test_mods.insert(TestMod::from_bitflag(bit));
            assert(test_mods.spec_contains(TestMod::Punctuation) == (bit == 1
                || before.spec_contains(TestMod::Punctuation)));
            assert(test_mods.spec_contains(TestMod::Numbers) == (bit == 2 || before.spec_contains(
                TestMod::Numbers,
            )));
            assert(test_mods.spec_contains(TestMod::Symbols) == (bit == 4 || before.spec_contains(
                TestMod::Symbols,
            )));
        }
        i += 1;
        if i < 3 {
            bit = bit * 2;
        }
    }
    assert(test_mods.spec_bits() == bitflag) by {
        let p: u8 = if bitflag & 1 != 0 { 1 } else { 0 };
        let n: u8 = if bitflag & 2 != 0 { 2 } else { 0 };
        let s: u8 = if bitflag & 4 != 0 { 4 } else { 0 };
        assert(bitflag < 8 ==> p + n + s == bitflag) by (bit_vector)
            requires
                p == (if bitflag & 1 != 0 { 1u8 } else { 0u8 }),
                n == (if bitflag & 2 != 0 { 2u8 } else { 0u8 }),
                s == (if bitflag & 4 != 0 { 4u8 } else { 0u8 }),
        ;
    }
    test_mods
}

/// The item of a tier of pools: offered if the word list has more words.
pub open spec fn tier_item(tier: usize, word_count: usize) -> Seq<Seq<char>> {
    if tier < word_count {
        seq![decimal_spec(tier as nat)]
    } else {
        Seq::empty()
    }
}

/// The pools that the settings offer for a word list of `word_count` words:
/// the tiers below that number, and the number itself.
pub open spec fn frequency_items(word_count: usize) -> Seq<Seq<char>> {
    tier_item(100, word_count) + tier_item(1000, word_count) + tier_item(5000, word_count)
        + tier_item(10000, word_count) + tier_item(20000, word_count) + tier_item(
        50000,
        word_count,
    ) + seq![decimal_spec(word_count as nat)]
}

/// The texts of the items of a list.
pub open spec fn item_texts(items: Seq<String>) -> Seq<Seq<char>> {
    Seq::new(items.len(), |i: int| items[i]@)
}

/// Adds the item of a tier to a list of items.
fn push_tier(items: &mut Vec<String>, tier: usize, word_count: usize)
    ensures
        item_texts(final(items)@) == item_texts(old(items)@) + tier_item(tier, word_count),
{
    if tier < word_count {
        items.push(decimal(tier));
    }
    assert(item_texts(items@) =~= item_texts(old(items)@) + tier_item(tier, word_count));
}

/// The list of pools for a word list of `word_count` words, none selected.
pub fn create_frequency_list(word_count: usize) -> (list: StatefulList<String>)
    ensures
        list.selected is None,
        item_texts(list.items@) == frequency_items(word_count),
{
    let mut initial: Vec<String> = Vec::new();
    assert(item_texts(initial@) =~= Seq::<Seq<char>>::empty());
    push_tier(&mut initial, 100, word_count);
    push_tier(&mut initial, 1000, word_count);
    push_tier(&mut initial, 5000, word_count);
    push_tier(&mut initial, 10000, word_count);
    push_tier(&mut initial, 20000, word_count);
    push_tier(&mut initial, 50000, word_count);
    let ghost tiers = item_texts(initial@);
    initial.push(decimal(word_count));
    assert(item_texts(initial@) =~= tiers + seq![decimal_spec(word_count as nat)]);
    assert(item_texts(initial@) =~= frequency_items(word_count));
    StatefulList::with_items(initial)
}

/// Decoding a stored bitflag and encoding it again gives the bitflag back,
/// and a set of modifiers survives being encoded and decoded.
pub proof fn lemma_bitflag_round_trip(test_mods: ModSet)
    ensures
        test_mods.spec_bits() < 8,
        forall|m: TestMod| test_mods@.contains(m) <==> test_mods.spec_bits() & m.spec_bitflag() != 0,
        forall|other: ModSet| other.spec_bits() == test_mods.spec_bits() ==> other == test_mods,
{
    let b = test_mods.spec_bits();
    let p: u8 = if test_mods.punctuation { 1 } else { 0 };
    let n: u8 = if test_mods.numbers { 2 } else { 0 };
    let s: u8 = if test_mods.symbols { 4 } else { 0 };
    assert((p == 0 || p == 1) && (n == 0 || n == 2) && (s == 0 || s == 4) && b == p + n + s ==> ((b
        & 1 != 0) == (p == 1)) && ((b & 2 != 0) == (n == 2)) && ((b & 4 != 0) == (s == 4)))
        by (bit_vector);
}

} // verus!
