//! The test that the user has configured.

use crate::settings::{
    is_script, spec_is_script, ModSet, Ratio, TestMod, TestSummary, TestVariant,
    TypingTestConfig,
};
use vstd::prelude::*;

verus! {

/// The test as the user has set it; what is not set is `None`.
pub struct UserTest {
    pub name: Option<String>,
    pub len: Option<usize>,
    pub pool: Option<usize>,
    pub mods: Option<Vec<String>>,
}

/// Whether one of the names enables the modifier.
pub open spec fn names_mod(raw_mods: Seq<String>, test_mod: TestMod) -> bool {
    exists|i: int| 0 <= i < raw_mods.len() && (#[trigger] raw_mods[i])@ == test_mod.spec_name()
}

/// The modifiers that a list of names enables. A name that names none is
/// passed over.
pub fn parse_mods(raw_mods: &[String]) -> (parsed_mods: ModSet)
    ensures
        forall|m: TestMod| parsed_mods.spec_contains(m) <==> names_mod(raw_mods@, m),
{
    let mut parsed_mods = ModSet::new();
    let mut i: usize = 0;
    while i < raw_mods.len()
        invariant
            i <= raw_mods.len(),
            forall|m: TestMod|
                parsed_mods.spec_contains(m) <==> names_mod(raw_mods@.subrange(0, i as int), m),
        decreases raw_mods.len() - i,
    {
        let ghost before = parsed_mods;
        let ghost seen = raw_mods@.subrange(0, i as int);
        let ghost now = raw_mods@.subrange(0, i + 1);
        let found = TestMod::from_name(raw_mods[i].as_str());
        if let Some(parsed_mod) = found {
            parsed_mods.insert(parsed_mod);
        }
        proof {
            reveal_strlit("punctuation");
            reveal_strlit("numbers");
            reveal_strlit("symbols");
            assert("punctuation"@.len() == 11);
            assert("numbers"@.len() == 7);
            assert("symbols"@.len() == 7);
            assert("numbers"@[0] == 'n');
            assert("symbols"@[0] == 's');
            assert(TestMod::spec_from_name(TestMod::Punctuation.spec_name()) == Some(
                TestMod::Punctuation,
            ));
            assert(TestMod::spec_from_name(TestMod::Numbers.spec_name()) == Some(
                TestMod::Numbers,
            ));
            assert(TestMod::spec_from_name(TestMod::Symbols.spec_name()) == Some(
                TestMod::Symbols,
            ));
            assert forall|m: TestMod| parsed_mods.spec_contains(m) <==> names_mod(now, m) by {
                if names_mod(seen, m) {
                    let k = choose|k: int| 0 <= k < seen.len() && (#[trigger] seen[k])@
                        == m.spec_name();
                    assert(now[k] == seen[k]);
                }
                if found == Some(m) {
                    assert(now[i as int]@ == m.spec_name());
                }
                if names_mod(now, m) {
                    let k = choose|k: int| 0 <= k < now.len() && (#[trigger] now[k])@
                        == m.spec_name();
                    if k < i {
                        assert(seen[k] == now[k]);
                    } else {
                        assert(found == Some(m));
                    }
                }
            }
        }
        i += 1;
    }
    assert(raw_mods@.subrange(0, i as int) =~= raw_mods@);
    parsed_mods
}

/// A test whose name begins with the sign for scripts is a script.
pub fn resolve_test_variant(test_name: &str) -> (variant: TestVariant)
    ensures
        variant == (if spec_is_script(test_name@) {
            TestVariant::Script
        } else {
            TestVariant::Standard
        }),
{
    if is_script(test_name) {
        TestVariant::Script
    } else {
        TestVariant::Standard
    }
}

impl UserTest {
    /// A test of which nothing is set.
    pub open spec fn unset() -> UserTest {
        UserTest { name: None, len: None, pool: None, mods: None }
    }

    /// The configuration is the one that comes of this test: what is set
    /// replaces the default, but a length or a pool of zero does not.
    pub open spec fn configures(self, config: TypingTestConfig) -> bool {
        &&& config.name@ == (match self.name {
            Some(name) => name@,
            None => "english"@,
        })
        &&& config.variant == (if spec_is_script(config.name@) {
            TestVariant::Script
        } else {
            TestVariant::Standard
        })
        &&& config.length == (match self.len {
            Some(length) => if length > 0 {
                length
            } else {
                25
            },
            None => 25,
        })
        &&& config.word_pool == (match self.pool {
            Some(word_pool) => if word_pool > 0 {
                word_pool
            } else {
                5000
            },
            None => 5000,
        })
        &&& match self.mods {
            Some(mods) => forall|m: TestMod|
                config.mods.spec_contains(m) <==> names_mod(mods@, m),
            None => config.mods.spec_is_empty(),
        }
        &&& config.test_summary == (TestSummary {
            correct_chars: 0,
            mistakes: 0,
            wpm: Ratio { num: 0, den: 1 },
            acc: Ratio { num: 0, den: 1 },
        })
    }

    /// The configuration of the test.
    pub fn into_typing_test_config(self) -> (config: TypingTestConfig)
        ensures
            self.configures(config),
    {
        let name = match self.name {
            Some(name) => name,
            None => "english".to_owned(),
        };
        let variant = resolve_test_variant(name.as_str());
        let mut ttc = TypingTestConfig::default();
        ttc.name = name;
        ttc.variant = variant;
        if let Some(length) = self.len {
            if length > 0 {
                ttc.length = length;
            }
        }
        if let Some(word_pool) = self.pool {
            if word_pool > 0 {
                ttc.word_pool = word_pool;
            }
        }
        if let Some(mods) = self.mods {
            ttc.mods = parse_mods(mods.as_slice());
        }
        ttc
    }
}

} // verus!
