//! The settings: four lists in a square, of which one is hovered or open.

use crate::colorscheme::Color;
use crate::settings::{
    create_frequency_list, frequency_items, is_script, item_texts, spec_is_script, SetList,
    SettingsColors, TestMod, TestVariant, TypingTestConfig,
};
use crate::utils::decimal::{digits_value, parse_decimal, parse_spec};
use crate::utils::list::StatefulList;
use vstd::prelude::*;
use vstd::string::StrSliceExecFns;

verus! {

/// The list above or below a list in the square, which are the same.
pub open spec fn vertical(list: SetList) -> SetList {
    match list {
        SetList::Length => SetList::Test,
        SetList::Test => SetList::Length,
        SetList::Frequency => SetList::Mods,
        SetList::Mods => SetList::Frequency,
        SetList::Nil => SetList::Nil,
    }
}

/// The list to the left or to the right of a list in the square, which are
/// the same.
pub open spec fn horizontal(list: SetList) -> SetList {
    match list {
        SetList::Length => SetList::Frequency,
        SetList::Test => SetList::Mods,
        SetList::Frequency => SetList::Length,
        SetList::Mods => SetList::Test,
        SetList::Nil => SetList::Nil,
    }
}

/// What is left to do after a choice was entered.
#[derive(Debug, Clone, Copy, PartialEq, Eq, Structural)]
pub enum EnterOutcome {
    /// A list was opened.
    Opened,
    /// The choice does not apply to a script and was passed over.
    Ignored,
    /// The test has changed: its best speed so far is to be looked up.
    CacheMaxWpm,
    /// A script was chosen: its best speed so far is to be looked up.
    ScriptChosen,
    /// A word list was chosen: its words are to be counted and the count
    /// handed to `set_word_count`.
    NeedWordCount,
}

pub struct Settings {
    pub hovered: SetList,
    pub active: SetList,
    pub colors: SettingsColors,
    pub test_cfg: TypingTestConfig,
    pub length_list: StatefulList<String>,
    pub frequency_list: StatefulList<String>,
    pub tests_list: StatefulList<String>,
    pub mods_list: StatefulList<String>,
}

/// A selection, if there is one, lies within the list, and the list is not
/// empty.
pub open spec fn list_ok(list: StatefulList<String>) -> bool {
    &&& list.items.len() > 0
    &&& list.selected is Some ==> list.selected->Some_0 < list.items.len()
}

/// The text of the selected item.
pub open spec fn selected_text(list: StatefulList<String>) -> Seq<char> {
    list.items[list.selected->Some_0 as int]@
}

/// The lengths that the settings offer.
pub open spec fn length_items() -> Seq<Seq<char>> {
    seq!["10"@, "15"@, "25"@, "50"@, "100"@]
}

/// The modifiers that the settings offer.
pub open spec fn mod_items() -> Seq<Seq<char>> {
    seq![
        TestMod::Punctuation.spec_name(),
        TestMod::Numbers.spec_name(),
        TestMod::Symbols.spec_name(),
    ]
}

/// A list with another selection.
pub open spec fn reselected(
    list: StatefulList<String>,
    selected: Option<usize>,
) -> StatefulList<String> {
    StatefulList { selected, items: list.items }
}

impl Settings {
    /// The list of a name.
    pub open spec fn spec_list(self, list: SetList) -> StatefulList<String>
        recommends
            list != SetList::Nil,
    {
        match list {
            SetList::Length => self.length_list,
            SetList::Frequency => self.frequency_list,
            SetList::Mods => self.mods_list,
            _ => self.tests_list,
        }
    }

    /// The settings with another selection in one list.
    pub open spec fn spec_select(self, list: SetList, selected: Option<usize>) -> Settings {
        match list {
            SetList::Length => Settings {
                length_list: reselected(self.length_list, selected),
                ..self
            },
            SetList::Frequency => Settings {
                frequency_list: reselected(self.frequency_list, selected),
                ..self
            },
            SetList::Mods => Settings { mods_list: reselected(self.mods_list, selected), ..self },
            SetList::Test => Settings {
                tests_list: reselected(self.tests_list, selected),
                ..self
            },
            SetList::Nil => self,
        }
    }

    /// One list is hovered or open, no list is empty or has its selection
    /// outside, an open list has an item selected, every length names a
    /// number and every modifier is one.
    pub open spec fn wf(self) -> bool {
        &&& (self.hovered == SetList::Nil) != (self.active == SetList::Nil)
        &&& list_ok(self.length_list)
        &&& list_ok(self.frequency_list)
        &&& list_ok(self.tests_list)
        &&& list_ok(self.mods_list)
        &&& self.active != SetList::Nil ==> self.spec_list(self.active).selected is Some
        &&& forall|i: int|
            0 <= i < self.length_list.items.len() ==> parse_spec(
                (#[trigger] self.length_list.items[i])@,
            ) is Some
        &&& forall|i: int|
            0 <= i < self.mods_list.items.len() ==> TestMod::spec_from_name(
                (#[trigger] self.mods_list.items[i])@,
            ) is Some
    }

    /// The settings for a configuration and the tests on offer, with the
    /// length list hovered and nothing selected. `word_count` is the number
    /// of words of the configured word list, to which the pool is held.
    pub fn with_config(
        colors: SettingsColors,
        ttc: TypingTestConfig,
        words_list: Vec<String>,
        word_count: usize,
    ) -> (settings: Self)
        requires
            words_list.len() > 0,
        ensures
            settings.wf(),
            settings.hovered == SetList::Length,
            settings.active == SetList::Nil,
            settings.colors == colors,
            settings.tests_list == reselected(StatefulList { selected: None, items: words_list }, None),
            item_texts(settings.length_list.items@) == length_items(),
            item_texts(settings.mods_list.items@) == mod_items(),
            item_texts(settings.frequency_list.items@) == frequency_items(word_count),
            settings.length_list.selected is None,
            settings.mods_list.selected is None,
            settings.frequency_list.selected is None,
            settings.test_cfg == (TypingTestConfig {
                word_pool: if ttc.word_pool > word_count {
                    word_count
                } else {
                    ttc.word_pool
                },
                ..ttc
            }),
    {
        let mut lengths: Vec<String> = Vec::new();
        lengths.push("10".to_owned());
        lengths.push("15".to_owned());
        lengths.push("25".to_owned());
        lengths.push("50".to_owned());
        lengths.push("100".to_owned());
        let mut mods: Vec<String> = Vec::new();
        mods.push(TestMod::Punctuation.name().to_owned());
        mods.push(TestMod::Numbers.name().to_owned());
        mods.push(TestMod::Symbols.name().to_owned());
        let mut test_cfg = ttc;
        test_cfg.validate(word_count);
        let frequency_list = create_frequency_list(word_count);
        proof {
            reveal_strlit("10");
            reveal_strlit("15");
            reveal_strlit("25");
            reveal_strlit("50");
            reveal_strlit("100");
            lemma_parses(lengths@[0]@);
            lemma_parses(lengths@[1]@);
            lemma_parses(lengths@[2]@);
            lemma_parses(lengths@[3]@);
            lemma_parses(lengths@[4]@);
            reveal_strlit("punctuation");
            reveal_strlit("numbers");
            reveal_strlit("symbols");
            assert("punctuation"@.len() == 11);
            assert("numbers"@.len() == 7);
            assert("symbols"@.len() == 7);
            assert("numbers"@[0] == 'n');
            assert("symbols"@[0] == 's');
            assert(item_texts(frequency_list.items@).len() > 0);
            assert(item_texts(lengths@) =~= length_items());
            assert(item_texts(mods@) =~= mod_items());
        }
        Self {
            hovered: SetList::Length,
            active: SetList::Nil,
            length_list: StatefulList::with_items(lengths),
            frequency_list,
            test_cfg,
            tests_list: StatefulList::with_items(words_list),
            mods_list: StatefulList::with_items(mods),
            colors,
        }
    }

    /// The color in which a list is shown: the color for the hovered list,
    /// the color for the open list, or none.
    pub fn color_hover_or_active(&self, list: SetList) -> (color: Option<Color>)
        ensures
            color == (if self.hovered != SetList::Nil {
                if list == self.hovered {
                    Some(self.colors.hover)
                } else {
                    None
                }
            } else if list == self.active {
                Some(self.colors.active)
            } else {
                None
            }),
    {
        if self.hovered != SetList::Nil {
            if list == self.hovered {
                return Some(self.colors.hover);
            }
            return None;
        }
        if list == self.active {
            Some(self.colors.active)
        } else {
            None
        }
    }

    /// The settings after escape, and whether the settings are to be left:
    /// an open list is left and hovered from then on; with no list open
    /// nothing changes.
    pub open spec fn spec_escape(self) -> (Settings, bool) {
        if self.hovered != SetList::Nil {
            (self, true)
        } else {
            (Settings { hovered: self.active, active: SetList::Nil, ..self }, false)
        }
    }

    pub fn escape(&mut self) -> (leave: bool)
        ensures
            (*final(self), leave) == old(self).spec_escape(),
            old(self).wf() ==> final(self).wf(),
    {
        if self.hovered != SetList::Nil {
            true
        } else {
            self.hovered = self.active;
            self.active = SetList::Nil;
            false
        }
    }

    /// The list of a name.
    pub fn get_list(&self, sl: SetList) -> (list: Option<&StatefulList<String>>)
        ensures
            sl == SetList::Nil ==> list is None,
            sl != SetList::Nil ==> list == Some(&self.spec_list(sl)),
    {
        match sl {
            SetList::Length => Some(&self.length_list),
            SetList::Frequency => Some(&self.frequency_list),
            SetList::Mods => Some(&self.mods_list),
            SetList::Test => Some(&self.tests_list),
            SetList::Nil => None,
        }
    }

    /// The settings after up or down. The hover moves to the list above or
    /// below; in an open list the selection moves by one, down to the next
    /// item and up to the one before, and round at the ends.
    pub open spec fn spec_step(self, forward: bool) -> Settings {
        if self.hovered != SetList::Nil {
            Settings { hovered: vertical(self.hovered), ..self }
        } else {
            let list = self.spec_list(self.active);
            self.spec_select(
                self.active,
                Some(
                    if forward {
                        list.spec_next()
                    } else {
                        list.spec_previous()
                    },
                ),
            )
        }
    }

    fn step(&mut self, forward: bool)
        requires
            old(self).wf(),
        ensures
            *final(self) == old(self).spec_step(forward),
            final(self).wf(),
    {
        match self.hovered {
            SetList::Length => self.hovered = SetList::Test,
            SetList::Test => self.hovered = SetList::Length,
            SetList::Frequency => self.hovered = SetList::Mods,
            SetList::Mods => self.hovered = SetList::Frequency,
            SetList::Nil => {
                match self.active {
                    SetList::Length => {
                        if forward {
                            self.length_list.next();
                        } else {
                            self.length_list.previous();
                        }
                    },
                    SetList::Frequency => {
                        if forward {
                            self.frequency_list.next();
                        } else {
                            self.frequency_list.previous();
                        }
                    },
                    SetList::Mods => {
                        if forward {
                            self.mods_list.next();
                        } else {
                            self.mods_list.previous();
                        }
                    },
                    SetList::Test => {
                        if forward {
                            self.tests_list.next();
                        } else {
                            self.tests_list.previous();
                        }
                    },
                    SetList::Nil => {},
                }
            },
        }
    }

    pub fn up(&mut self)
        requires
            old(self).wf(),
        ensures
            *final(self) == old(self).spec_step(false),
            final(self).wf(),
    {
        self.step(false)
    }

    pub fn down(&mut self)
        requires
            old(self).wf(),
        ensures
            *final(self) == old(self).spec_step(true),
            final(self).wf(),
    {
        self.step(true)
    }

    /// The settings after left or right, which are the same in a square: the
    /// hover moves to the list beside; an open list is left first.
    pub open spec fn spec_sideways(self) -> Settings {
        Settings {
            hovered: horizontal(
                if self.hovered == SetList::Nil {
                    self.active
                } else {
                    self.hovered
                },
            ),
            active: SetList::Nil,
            ..self
        }
    }

    fn sideways(&mut self)
        requires
            old(self).wf(),
        ensures
            *final(self) == old(self).spec_sideways(),
            final(self).wf(),
    {
        if self.hovered == SetList::Nil {
            self.hovered = self.active;
            self.active = SetList::Nil;
        }
        match self.hovered {
            SetList::Length => self.hovered = SetList::Frequency,
            SetList::Test => self.hovered = SetList::Mods,
            SetList::Frequency => self.hovered = SetList::Length,
            SetList::Mods => self.hovered = SetList::Test,
            SetList::Nil => {},
        }
    }

    pub fn left(&mut self)
        requires
            old(self).wf(),
        ensures
            *final(self) == old(self).spec_sideways(),
            final(self).wf(),
    {
        self.sideways()
    }

    pub fn right(&mut self)
        requires
            old(self).wf(),
        ensures
            *final(self) == old(self).spec_sideways(),
            final(self).wf(),
    {
        self.sideways()
    }

    /// The settings with the hovered list opened: its first item is selected
    /// if none is.
    pub open spec fn spec_open(self) -> Settings {
        let opened = self.spec_select(
            self.hovered,
            match self.spec_list(self.hovered).selected {
                Some(i) => Some(i),
                None => Some(0usize),
            },
        );
        Settings { active: self.hovered, hovered: SetList::Nil, ..opened }
    }

    fn open_hovered(&mut self)
        requires
            old(self).wf(),
            old(self).hovered != SetList::Nil,
        ensures
            *final(self) == old(self).spec_open(),
            final(self).wf(),
    {
        self.active = self.hovered;
        self.hovered = SetList::Nil;
        match self.active {
            SetList::Length => {
                if self.length_list.selected.is_none() {
                    self.length_list.select(Some(0));
                }
            },
            SetList::Frequency => {
                if self.frequency_list.selected.is_none() {
                    self.frequency_list.select(Some(0));
                }
            },
            SetList::Mods => {
                if self.mods_list.selected.is_none() {
                    self.mods_list.select(Some(0));
                }
            },
            SetList::Test => {
                if self.tests_list.selected.is_none() {
                    self.tests_list.select(Some(0));
                }
            },
            SetList::Nil => {},
        }
    }

    /// What is left to do once the selected item of the open list is taken
    /// over. For a script only the choice of a test applies.
    pub open spec fn spec_outcome(self) -> EnterOutcome {
        let script = self.test_cfg.variant == TestVariant::Script;
        if self.active == SetList::Test {
            if spec_is_script(selected_text(self.tests_list)) {
                EnterOutcome::ScriptChosen
            } else {
                EnterOutcome::NeedWordCount
            }
        } else if script {
            EnterOutcome::Ignored
        } else {
            EnterOutcome::CacheMaxWpm
        }
    }

    /// The configuration is what comes of taking the selected item of the
    /// open list over. A script that is chosen gives the test its name
    /// without the sign for scripts. A pool that names no number becomes 69.
    pub open spec fn chosen(self, config: TypingTestConfig) -> bool {
        let old = self.test_cfg;
        let text = selected_text(self.spec_list(self.active));
        match self.spec_outcome() {
            EnterOutcome::ScriptChosen => {
                &&& config.name@ == text.subrange(2, text.len() as int)
                &&& config.variant == TestVariant::Script
                &&& config.length == old.length
                &&& config.word_pool == old.word_pool
                &&& config.mods == old.mods
                &&& config.test_summary == old.test_summary
            },
            EnterOutcome::NeedWordCount => config == (TypingTestConfig {
                variant: TestVariant::Standard,
                name: self.tests_list.items[self.tests_list.selected->Some_0 as int],
                ..old
            }),
            EnterOutcome::CacheMaxWpm => match self.active {
                SetList::Length => config == (TypingTestConfig {
                    length: parse_spec(text)->Some_0,
                    ..old
                }),
                SetList::Frequency => config == (TypingTestConfig {
                    word_pool: match parse_spec(text) {
                        Some(pool) => pool,
                        None => 69,
                    },
                    ..old
                }),
                _ => config == (TypingTestConfig {
                    mods: old.mods.spec_toggle(TestMod::spec_from_name(text)->Some_0),
                    ..old
                }),
            },
            _ => config == old,
        }
    }

    /// The settings are what comes of enter: the hovered list is opened, or
    /// the selected item of the open list is taken over into the
    /// configuration of the test.
    pub open spec fn entered(self, after: Settings, outcome: EnterOutcome) -> bool {
        if self.hovered != SetList::Nil {
            after == self.spec_open() && outcome == EnterOutcome::Opened
        } else {
            &&& outcome == self.spec_outcome()
            &&& after == (Settings { test_cfg: after.test_cfg, ..self })
            &&& self.chosen(after.test_cfg)
        }
    }

    pub fn enter(&mut self) -> (outcome: EnterOutcome)
        requires
            old(self).wf(),
        ensures
            old(self).entered(*final(self), outcome),
            final(self).wf(),
    {
        if self.hovered != SetList::Nil {
            self.open_hovered();
            return EnterOutcome::Opened;
        }
        match self.active {
            SetList::Length => {
                if let TestVariant::Script = self.test_cfg.variant {
                    EnterOutcome::Ignored
                } else {
                    match parse_decimal(self.length_list.get_item().as_str()) {
                        Some(length) => {
                            self.test_cfg.length = length;
                        },
                        None => {
                            vstd::pervasive::unreached::<()>();
                        },
                    }
                    EnterOutcome::CacheMaxWpm
                }
            },
            SetList::Test => {
                let chosen_test_name = self.tests_list.get_item().as_str();
                if is_script(chosen_test_name) {
                    let name = chosen_test_name.substring_char(
                        2,
                        chosen_test_name.unicode_len(),
                    ).to_owned();
                    self.test_cfg.variant = TestVariant::Script;
                    self.test_cfg.name = name;
                    EnterOutcome::ScriptChosen
                } else {
                    let name = self.tests_list.get_item().clone();
                    self.test_cfg.variant = TestVariant::Standard;
                    self.test_cfg.name = name;
                    EnterOutcome::NeedWordCount
                }
            },
            SetList::Frequency => {
                if let TestVariant::Script = self.test_cfg.variant {
                    EnterOutcome::Ignored
                } else {
                    self.test_cfg.word_pool = match parse_decimal(
                        self.frequency_list.get_item().as_str(),
                    ) {
                        Some(pool) => pool,
                        None => 69,
                    };
                    EnterOutcome::CacheMaxWpm
                }
            },
            SetList::Mods => {
                if let TestVariant::Script = self.test_cfg.variant {
                    EnterOutcome::Ignored
                } else {
                    match TestMod::from_name(self.mods_list.get_item().as_str()) {
                        Some(test_mod) => {
                            let ghost before = self.test_cfg.mods;
                            if !self.test_cfg.mods.remove(&test_mod) {
                                self.test_cfg.mods.insert(test_mod);
                            }
                            proof {
                                let after = self.test_cfg.mods;
                                let toggled = before.spec_toggle(test_mod);
                                assert(after.spec_contains(TestMod::Punctuation)
                                    == toggled.spec_contains(TestMod::Punctuation));
                                assert(after.spec_contains(TestMod::Numbers)
                                    == toggled.spec_contains(TestMod::Numbers));
                                assert(after.spec_contains(TestMod::Symbols)
                                    == toggled.spec_contains(TestMod::Symbols));
                                assert(after == toggled);
                            }
                        },
                        None => {
                            vstd::pervasive::unreached::<()>();
                        },
                    }
                    EnterOutcome::CacheMaxWpm
                }
            },
            SetList::Nil => EnterOutcome::Ignored,
        }
    }

    /// Takes the number of words of the word list that was chosen: the pools
    /// on offer are made for it, with none selected, and the pool is held to
    /// it. The list of pools must not be open.
    pub fn set_word_count(&mut self, word_count: usize)
        requires
            old(self).wf(),
            old(self).active != SetList::Frequency,
        ensures
            final(self).wf(),
            item_texts(final(self).frequency_list.items@) == frequency_items(word_count),
            final(self).frequency_list.selected is None,
            *final(self) == (Settings {
                frequency_list: final(self).frequency_list,
                test_cfg: TypingTestConfig {
                    word_pool: if old(self).test_cfg.word_pool > word_count {
                        word_count
                    } else {
                        old(self).test_cfg.word_pool
                    },
                    ..old(self).test_cfg
                },
                ..*old(self)
            }),
    {
        self.frequency_list = create_frequency_list(word_count);
        if self.test_cfg.word_pool > word_count {
            self.test_cfg.word_pool = word_count;
        }
        proof {
            assert(item_texts(self.frequency_list.items@).len() > 0);
        }
    }
}

/// A text of up to three decimal digits names a number; so do the lengths on
/// offer.
proof fn lemma_parses(text: Seq<char>)
    requires
        1 <= text.len() <= 3,
        forall|i: int| 0 <= i < text.len() ==> '0' <= #[trigger] text[i] <= '9',
    ensures
        parse_spec(text) is Some,
{
    let a = text.subrange(0, 1);
    assert(a.drop_last() =~= Seq::<char>::empty());
    assert(a.last() == text[0]);
    assert(digits_value(a.drop_last()) == Some(0int));
    assert(digits_value(a) is Some);
    if text.len() == 1 {
        assert(text =~= a);
    } else {
        let b = text.subrange(0, 2);
        assert(b.drop_last() =~= a);
        assert(b.last() == text[1]);
        assert(digits_value(b) is Some);
        if text.len() == 2 {
            assert(text =~= b);
        } else {
            assert(text.drop_last() =~= b);
            assert(digits_value(text) is Some);
        }
    }
}

} // verus!
