//! The generator: it lays text out as wrapped lines of cells, ready for the
//! engine.

use crate::cell::{boundary, glyph, glyphs, line_view, lines_view, Cell, CellView};
use crate::chance::{
    choose_char, gen_range_inclusive, shuffle_strings, to_uppercase, uppercase_of,
};
use crate::helpers::{
    add_space_with_blank, capitalize_spec, first_marks, signal_spec, Capitalize, Marks,
};
use crate::punctuation::{
    entry_symbols, table_for, InnerWord, Punctuation, PunctuationInsertFrequency,
};
use crate::settings::{ModSet, TestVariant, TypingTestConfig};
use crate::utils::decimal::{decimal, decimal_spec};
use crate::utils::randorst::Randorst;
use crate::wrap::{finish_lines, finish_spec, place_all, trimmed, LineWrapper};
use rand::rngs::ThreadRng;
use vstd::pervasive::unreached;
use vstd::prelude::*;
use vstd::string::StrSliceExecFns;

verus! {

/// Most characters in a line.
pub const LIMIT: usize = 65;

/// Whether a character is white space: the characters with the property
/// White_Space of Unicode.
pub open spec fn spec_is_whitespace(c: char) -> bool {
    let code = c as u32;
    ||| 0x09 <= code <= 0x0D
    ||| code == 0x20
    ||| code == 0x85
    ||| code == 0xA0
    ||| code == 0x1680
    ||| 0x2000 <= code <= 0x200A
    ||| code == 0x2028
    ||| code == 0x2029
    ||| code == 0x202F
    ||| code == 0x205F
    ||| code == 0x3000
}

pub fn is_whitespace(c: char) -> (white: bool)
    ensures
        white == spec_is_whitespace(c),
{
    let code = c as u32;
    (0x09 <= code && code <= 0x0D) || code == 0x20 || code == 0x85 || code == 0xA0 || code
        == 0x1680 || (0x2000 <= code && code <= 0x200A) || code == 0x2028 || code == 0x2029
        || code == 0x202F || code == 0x205F || code == 0x3000
}

/// The texts of a list of strings.
pub open spec fn strings_view(strings: Seq<String>) -> Seq<Seq<char>> {
    Seq::new(strings.len(), |i: int| strings[i]@)
}

// ---------------------------------------------------------------------------
// Words without modifiers
// ---------------------------------------------------------------------------
/// The lines of a test over the given words, the first line last.
pub open spec fn standard_layout(words: Seq<Seq<char>>) -> Seq<Seq<CellView>> {
    finish_spec(place_all(words, LIMIT as int))
}

/// Lays words out in lines: each word is followed by a blank and a space, a
/// word that would take the line over the budget begins the next line, and
/// the last line loses the blank and the space at its end.
pub fn layout_words(words: &Vec<String>) -> (lines: Vec<Vec<Cell>>)
    ensures
        lines_view(lines@) == standard_layout(strings_view(words@)),
{
    let ghost texts = strings_view(words@);
    let mut wrapper = LineWrapper::new(LIMIT);
    let mut i: usize = 0;
    while i < words.len()
        invariant
            i <= words.len(),
            texts == strings_view(words@),
            wrapper.wf(),
            wrapper.limit == LIMIT,
            wrapper@ == place_all(texts.subrange(0, i as int), LIMIT as int),
        decreases words.len() - i,
    {
        let word = chars_of(words[i].as_str());
        wrapper.place(&word);
        proof {
            let now = texts.subrange(0, i + 1);
            assert(now.drop_last() =~= texts.subrange(0, i as int));
            assert(now.last() == word@);
        }
        i += 1;
    }
    assert(texts.subrange(0, i as int) =~= texts);
    wrapper.finish()
}

/// The word is one of the first `pool` words of the list.
pub open spec fn from_pool(word: Seq<char>, word_list: Seq<String>, pool: int) -> bool {
    exists|j: int| 0 <= j < pool && j < word_list.len() && (#[trigger] word_list[j])@ == word
}

/// How the next word is had from a list that is read forward, line by line.
#[derive(Debug, Clone, Copy, PartialEq, Eq, Structural)]
pub enum ReadStep {
    /// The word that was read last is taken again.
    Reuse,
    /// So many lines are passed over, and the line behind them is the word.
    Skip(usize),
}

/// How the word at `index` is had after the word at `last` was read, or at
/// the start of the list if none was.
pub open spec fn read_step_spec(last: Option<usize>, index: usize) -> ReadStep {
    match last {
        None => ReadStep::Skip(index),
        Some(last) => if last == index {
            ReadStep::Reuse
        } else {
            ReadStep::Skip((index - last - 1) as usize)
        },
    }
}

/// How the word at `index` is had; the list is read forward, so the index
/// must not lie before the word that was read last.
pub fn read_step(last: Option<usize>, index: usize) -> (step: ReadStep)
    requires
        last is Some ==> last->Some_0 <= index,
    ensures
        step == read_step_spec(last, index),
{
    match last {
        None => ReadStep::Skip(index),
        Some(last) => {
            if last == index {
                ReadStep::Reuse
            } else {
                ReadStep::Skip(index - last - 1)
            }
        },
    }
}

/// The indices do not fall and lie within the list.
pub open spec fn sorted_within(indices: Seq<usize>, bound: int) -> bool {
    &&& forall|i: int, j: int| 0 <= i <= j < indices.len() ==> indices[i] <= indices[j]
    &&& forall|i: int| 0 <= i < indices.len() ==> (#[trigger] indices[i]) < bound
}

/// The words at the given indices, which must not fall, had in one pass
/// forward through the list.
pub fn pick_words(word_list: &Vec<String>, indices: &Vec<usize>) -> (words: Vec<String>)
    requires
        sorted_within(indices@, word_list.len() as int),
    ensures
        words.len() == indices.len(),
        forall|i: int| 0 <= i < words.len() ==> words[i] == word_list[indices[i] as int],
{
    let mut container: Vec<String> = Vec::new();
    let mut last: Option<usize> = None;
    // The number of lines that were read or passed over.
    let mut position: usize = 0;
    let mut i: usize = 0;
    while i < indices.len()
        invariant
            i <= indices.len(),
            sorted_within(indices@, word_list.len() as int),
            container.len() == i,
            forall|k: int| 0 <= k < i ==> container[k] == word_list[indices[k] as int],
            i == 0 ==> last is None && position == 0,
            i > 0 ==> last == Some(indices[i - 1]) && position == indices[i - 1] + 1,
        decreases indices.len() - i,
    {
        let val = indices[i];
        proof {
            if i > 0 {
                assert(indices[i - 1] <= indices[i as int]);
            }
        }
        match read_step(last, val) {
            ReadStep::Reuse => {
                let word = container[i - 1].clone();
                container.push(word);
            },
            ReadStep::Skip(lines) => {
                position = position + lines;
                let word = word_list[position].clone();
                container.push(word);
                position = position + 1;
            },
        }
        last = Some(val);
        i += 1;
    }
    container
}

/// Puts words into another order.
pub fn shuffle_words(words: &mut Vec<String>)
    ensures
        final(words)@.to_multiset() == old(words)@.to_multiset(),
        final(words).len() == old(words).len(),
{
    let rng = fastrand::Rng::new();
    shuffle_strings(&rng, words);
    proof {
        words@.to_multiset_ensures();
        old(words)@.to_multiset_ensures();
    }
}

/// As many sorted random indices into the pool as the configuration asks
/// words for.
pub fn draw_indices(config: &TypingTestConfig) -> (indices: Vec<usize>)
    requires
        config.word_pool >= 1,
    ensures
        indices.len() == config.length,
        sorted_within(indices@, config.word_pool as int),
{
    Randorst::gen(config.length, 0..config.word_pool).collect()
}

/// Draws `config.length` words from the first `config.word_pool` words of a
/// word list, in no order. The pool must hold a word, and the list must
/// hold the pool.
pub fn get_shuffled_words(
    config: &TypingTestConfig,
    word_list: &Vec<String>,
) -> (words: Vec<String>)
    requires
        config.length >= 1,
        1 <= config.word_pool <= word_list.len(),
    ensures
        words.len() == config.length,
        forall|i: int|
            0 <= i < words.len() ==> from_pool(
                #[trigger] words[i]@,
                word_list@,
                config.word_pool as int,
            ),
{
    let indices = draw_indices(config);
    let mut container = pick_words(word_list, &indices);
    let ghost drawn = container@;
    shuffle_words(&mut container);
    proof {
        container@.to_multiset_ensures();
        drawn.to_multiset_ensures();
        assert forall|i: int| 0 <= i < container.len() implies from_pool(
            #[trigger] container[i]@,
            word_list@,
            config.word_pool as int,
        ) by {
            let word = container[i];
            assert(container@.contains(word));
            assert(drawn.to_multiset().count(word) > 0);
            assert(drawn.contains(word));
            let k = choose|k: int| 0 <= k < drawn.len() && drawn[k] == word;
            assert(drawn[k] == word_list[indices[k] as int]);
        }
    }
    container
}

// ---------------------------------------------------------------------------
// Literal text
// ---------------------------------------------------------------------------
/// The value of the layout of a literal text while it is read.
pub struct ScriptView {
    /// The lines that are complete.
    pub lines: Seq<Seq<CellView>>,
    /// The line that is being filled, made of whole words.
    pub current: Seq<CellView>,
    /// The word that is being read.
    pub word: Seq<CellView>,
    /// The running count of characters.
    pub count: int,
    /// The character before was white space.
    pub spaced: bool,
}

pub open spec fn script_start() -> ScriptView {
    ScriptView {
        lines: Seq::empty(),
        current: Seq::empty(),
        word: Seq::empty(),
        count: 0,
        spaced: false,
    }
}

/// Reads one character. White space ends the word, which joins the line with
/// its boundary; more white space behind it is passed over. Any other
/// character joins the word, and when the count then exceeds the budget, the
/// line is complete and the word goes on to the next.
pub open spec fn script_step(st: ScriptView, c: char) -> ScriptView {
    if spec_is_whitespace(c) {
        if !st.spaced {
            ScriptView {
                current: st.current + (st.word + boundary()),
                word: Seq::empty(),
                spaced: true,
                count: st.count + 1,
                ..st
            }
        } else {
            ScriptView { count: st.count + 1, ..st }
        }
    } else {
        let word = st.word.push(glyph(c));
        if st.count + 1 > LIMIT {
            ScriptView {
                lines: st.lines.push(st.current),
                current: Seq::empty(),
                count: word.len() as int,
                word,
                spaced: false,
            }
        } else {
            ScriptView { word, count: st.count + 1, spaced: false, ..st }
        }
    }
}

/// Reads a text from its start.
pub open spec fn script_fold(text: Seq<char>) -> ScriptView
    decreases text.len(),
{
    if text.len() == 0 {
        script_start()
    } else {
        script_step(script_fold(text.drop_last()), text.last())
    }
}

/// The lines of a test over a literal text, the first line last. A word that
/// no white space follows is left out.
pub open spec fn script_layout(text: Seq<char>) -> Seq<Seq<CellView>> {
    let st = script_fold(text);
    st.lines.push(trimmed(st.current)).reverse()
}

/// Lays a literal text out in lines.
pub fn to_testable_span(text: &str) -> (lines: Vec<Vec<Cell>>)
    ensures
        lines_view(lines@) == script_layout(text@),
{
    let mut word: Vec<Cell> = Vec::new();
    let mut lines: Vec<Vec<Cell>> = Vec::new();
    let mut current: Vec<Cell> = Vec::new();
    let mut count: usize = 0;
    let mut duplicate_whitespace_flag: bool = false;
    let length = text.unicode_len();
    assert(lines_view(lines@) =~= Seq::<Seq<CellView>>::empty());
    assert(line_view(current@) =~= Seq::<CellView>::empty());
    assert(line_view(word@) =~= Seq::<CellView>::empty());
    for c in it: text.chars()
        invariant
            it.seq() == text@,
            length == text@.len(),
            count <= it.index(),
            word.len() <= it.index(),
            script_fold(text@.subrange(0, it.index() as int)) == (ScriptView {
                lines: lines_view(lines@),
                current: line_view(current@),
                word: line_view(word@),
                count: count as int,
                spaced: duplicate_whitespace_flag,
            }),
    {
        assert(c == text@[it.index() as int]);
        proof {
            let now = text@.subrange(0, it.index() + 1);
            assert(now.drop_last() =~= text@.subrange(0, it.index() as int));
            assert(now.last() == c);
        }
        let ghost before_word = line_view(word@);
        let ghost before_current = line_view(current@);
        let ghost before_lines = lines_view(lines@);
        count += 1;
        if is_whitespace(c) {
            if !duplicate_whitespace_flag {
                add_space_with_blank(&mut word);
                current.append(&mut word);
                duplicate_whitespace_flag = true;
                assert(line_view(current@) =~= before_current + (before_word + boundary()));
                assert(line_view(word@) =~= Seq::<CellView>::empty());
            }
        } else {
            duplicate_whitespace_flag = false;
            word.push(Cell::glyph(c));
            assert(line_view(word@) =~= before_word.push(glyph(c)));
            if count > LIMIT {
                let mut full: Vec<Cell> = Vec::new();
                full.append(&mut current);
                lines.push(full);
                count = word.len();
                assert(lines_view(lines@) =~= before_lines.push(before_current));
                assert(line_view(current@) =~= Seq::<CellView>::empty());
            }
        }
    }
    assert(text@.subrange(0, text@.len() as int) =~= text@);
    finish_lines(lines, current)
}

// ---------------------------------------------------------------------------
// Words with modifiers
// ---------------------------------------------------------------------------
/// The characters that a symbol token is made of.
pub open spec fn is_symbol(c: char) -> bool {
    ||| c == '@'
    ||| c == '#'
    ||| c == '$'
    ||| c == '%'
    ||| c == '^'
    ||| c == '&'
    ||| c == '*'
    ||| c == '_'
    ||| c == '='
    ||| c == '+'
    ||| c == '-'
    ||| c == '/'
    ||| c == '|'
    ||| c == '\\'
}

/// The characters that a symbol token is made of, as a list.
pub fn symbols() -> (list: Vec<char>)
    ensures
        list@.len() == 14,
        forall|c: char| list@.contains(c) <==> is_symbol(c),
{
    let mut list: Vec<char> = Vec::new();
    list.push('@');
    list.push('#');
    list.push('$');
    list.push('%');
    list.push('^');
    list.push('&');
    list.push('*');
    list.push('_');
    list.push('=');
    list.push('+');
    list.push('-');
    list.push('/');
    list.push('|');
    list.push('\\');
    proof {
        let expected = seq![
            '@',
            '#',
            '$',
            '%',
            '^',
            '&',
            '*',
            '_',
            '=',
            '+',
            '-',
            '/',
            '|',
            '\\',
        ];
        assert(list@ =~= expected);
        assert forall|c: char| is_symbol(c) implies list@.contains(c) by {
            let k: int = if c == '@' {
                0
            } else if c == '#' {
                1
            } else if c == '$' {
                2
            } else if c == '%' {
                3
            } else if c == '^' {
                4
            } else if c == '&' {
                5
            } else if c == '*' {
                6
            } else if c == '_' {
                7
            } else if c == '=' {
                8
            } else if c == '+' {
                9
            } else if c == '-' {
                10
            } else if c == '/' {
                11
            } else if c == '|' {
                12
            } else {
                13
            };
            assert(list@[k] == c);
        }
    }
    list
}

/// What a token may be: a dash, a number up to 999 in decimal digits, or
/// one to three symbols; and no token where none is called for.
pub open spec fn fitting_token(punct: Punctuation, token: Seq<char>) -> bool {
    match punct {
        Punctuation::InBetweener(InnerWord::Dash) => token == seq!['-'],
        Punctuation::InBetweener(InnerWord::Number) => exists|n: nat|
            n <= 999 && token == #[trigger] decimal_spec(n),
        Punctuation::InBetweener(InnerWord::Symbol) => 1 <= token.len() <= 3 && forall|k: int|
            0 <= k < token.len() ==> is_symbol(#[trigger] token[k]),
        _ => token.len() == 0,
    }
}

/// What a table for the modifiers can choose.
pub open spec fn allowed(punct: Punctuation, test_mods: ModSet) -> bool {
    entry_symbols(table_for(test_mods)).contains(punct)
}

/// The characters of a text.
pub fn chars_of(text: &str) -> (chars: Vec<char>)
    ensures
        chars@ == text@,
{
    let mut chars: Vec<char> = Vec::new();
    for c in it: text.chars()
        invariant
            it.seq() == text@,
            chars@ == text@.subrange(0, it.index() as int),
    {
        assert(c == text@[it.index() as int]);
        chars.push(c);
        assert(chars@ =~= text@.subrange(0, it.index() + 1));
    }
    assert(text@.subrange(0, text@.len() as int) =~= text@);
    chars
}

/// Draws the token that goes with what was chosen for a word.
pub fn draw_token(punct: Punctuation, rng: &mut ThreadRng) -> (token: Vec<char>)
    ensures
        fitting_token(punct, token@),
{
    let mut token: Vec<char> = Vec::new();
    match punct {
        Punctuation::InBetweener(InnerWord::Dash) => {
            token.push('-');
            assert(token@ =~= seq!['-']);
        },
        Punctuation::InBetweener(InnerWord::Number) => {
            let number = gen_range_inclusive(rng, 0, 999);
            token = chars_of(decimal(number).as_str());
            assert(token@ == decimal_spec(number as nat));
        },
        Punctuation::InBetweener(InnerWord::Symbol) => {
            let times = gen_range_inclusive(rng, 1, 3);
            let list = symbols();
            let mut i: usize = 0;
            while i < times
                invariant
                    i <= times <= 3,
                    token.len() == i,
                    list@.len() == 14,
                    forall|c: char| list@.contains(c) <==> is_symbol(c),
                    forall|k: int| 0 <= k < token.len() ==> is_symbol(#[trigger] token[k]),
                decreases times - i,
            {
                match choose_char(list.as_slice(), rng) {
                    Some(symbol) => {
                        token.push(symbol);
                    },
                    None => {
                        unreached::<()>();
                    },
                }
                i += 1;
            }
        },
        _ => {},
    }
    token
}

/// The character that a choice puts before the word.
pub open spec fn punct_begin(punct: Punctuation) -> Seq<char> {
    match punct {
        Punctuation::Paired(a, _) => seq![a],
        _ => Seq::empty(),
    }
}

/// The character that a choice puts behind the word.
pub open spec fn punct_end(punct: Punctuation) -> Seq<char> {
    match punct {
        Punctuation::End(c) => seq![c],
        Punctuation::Normal(c) => seq![c],
        Punctuation::Paired(_, z) => seq![z],
        _ => Seq::empty(),
    }
}

/// The characters of a word, its first replaced by a capital form if one is
/// given.
pub open spec fn word_glyphs(word: Seq<char>, upper: Option<Seq<char>>) -> Seq<char> {
    match upper {
        Some(capital) => capital + word.drop_first(),
        None => word,
    }
}

/// A word as it stands in the text: between its marks, and with its capital
/// form.
pub open spec fn decorated_word(
    word: Seq<char>,
    upper: Option<Seq<char>>,
    punct: Punctuation,
) -> Seq<char> {
    punct_begin(punct) + word_glyphs(word, upper) + punct_end(punct)
}

/// Adds characters to a text.
fn push_chars(text: &mut Vec<char>, chars: &Vec<char>, from: usize)
    requires
        from <= chars.len(),
    ensures
        final(text)@ == old(text)@ + chars@.subrange(from as int, chars.len() as int),
{
    let mut i: usize = from;
    while i < chars.len()
        invariant
            from <= i <= chars.len(),
            text@ == old(text)@ + chars@.subrange(from as int, i as int),
        decreases chars.len() - i,
    {
        text.push(chars[i]);
        assert(text@ =~= old(text)@ + chars@.subrange(from as int, i + 1));
        i += 1;
    }
}

/// The characters of a capital form, if one is given.
pub open spec fn capital_view(upper: Option<Vec<char>>) -> Option<Seq<char>> {
    match upper {
        Some(capital) => Some(capital@),
        None => None,
    }
}

/// Makes the text of a word from what was chosen for it. Where a capital
/// form is given, the word must have a first character for it to replace.
pub fn decorate_word(word: &str, upper: Option<Vec<char>>, punct: Punctuation) -> (text: Vec<char>)
    requires
        upper is Some ==> word@.len() > 0,
    ensures
        text@ == decorated_word(word@, capital_view(upper), punct),
{
    let ghost upper_view: Option<Seq<char>> = capital_view(upper);
    let mut text: Vec<char> = Vec::new();
    let chars = chars_of(word);
    let mut begin: Option<char> = None;
    let mut end: Option<char> = None;
    match punct {
        Punctuation::Nil => {},
        Punctuation::End(c) => {
            end = Some(c);
        },
        Punctuation::Normal(c) => {
            end = Some(c);
        },
        Punctuation::Paired(a, z) => {
            begin = Some(a);
            end = Some(z);
        },
        Punctuation::InBetweener(_) => {},
    }
    if let Some(c) = begin {
        text.push(c);
    }
    assert(text@ =~= punct_begin(punct));
    match upper {
        Some(capital) => {
            push_chars(&mut text, &capital, 0);
            push_chars(&mut text, &chars, 1);
            assert(capital@.subrange(0, capital.len() as int) =~= capital@);
            assert(chars@.subrange(1, chars.len() as int) =~= word@.drop_first());
        },
        None => {
            push_chars(&mut text, &chars, 0);
            assert(chars@.subrange(0, chars.len() as int) =~= word@);
        },
    }
    assert(text@ =~= punct_begin(punct) + word_glyphs(word@, upper_view));
    if let Some(c) = end {
        text.push(c);
    }
    assert(text@ =~= decorated_word(word@, upper_view, punct));
    text
}

/// The marks after what was chosen for a word: an end of sentence gives a
/// signal.
pub open spec fn signal_if_end(marks: Marks, punct: Punctuation) -> Marks {
    if punct is End {
        signal_spec(marks)
    } else {
        marks
    }
}

/// The marks before the word at `i`.
pub open spec fn marks_before(puncts: Seq<Punctuation>, i: int) -> Marks
    decreases i,
{
    if i <= 0 {
        first_marks()
    } else {
        capitalize_spec(signal_if_end(marks_before(puncts, i - 1), puncts[i - 1])).0
    }
}

/// Whether the word at `i` begins with a capital: the first word does, and
/// so does each word behind an end of sentence.
pub open spec fn capital_at(puncts: Seq<Punctuation>, i: int) -> bool {
    capitalize_spec(signal_if_end(marks_before(puncts, i), puncts[i])).1
}

/// The word at `i` as it stands in the text.
pub open spec fn decorated_at(
    words: Seq<Seq<char>>,
    puncts: Seq<Punctuation>,
    i: int,
) -> Seq<char> {
    decorated_word(
        words[i],
        if capital_at(puncts, i) {
            Some(uppercase_of(words[i][0]))
        } else {
            None
        },
        puncts[i],
    )
}

/// What is laid out for the first `n` words: each word as it stands in the
/// text, and behind it, as a word of its own, the token that goes with it.
pub open spec fn expanded(
    words: Seq<Seq<char>>,
    puncts: Seq<Punctuation>,
    tokens: Seq<Seq<char>>,
    n: int,
) -> Seq<Seq<char>>
    decreases n,
{
    if n <= 0 {
        Seq::empty()
    } else {
        let before = expanded(words, puncts, tokens, n - 1).push(
            decorated_at(words, puncts, n - 1),
        );
        if puncts[n - 1] is InBetweener {
            before.push(tokens[n - 1])
        } else {
            before
        }
    }
}

/// What a test with modifiers may look like: for each word one of the
/// choices that the modifiers allow, with a token that fits it, and the
/// lines in which the words as they stand in the text and the tokens are
/// laid out as plain words are, the first line last.
pub open spec fn modded_outcome(
    test_mods: ModSet,
    words: Seq<Seq<char>>,
    puncts: Seq<Punctuation>,
    tokens: Seq<Seq<char>>,
    lines: Seq<Seq<CellView>>,
) -> bool {
    &&& puncts.len() == words.len()
    &&& tokens.len() == words.len()
    &&& forall|i: int|
        0 <= i < words.len() ==> allowed(#[trigger] puncts[i], test_mods) && fitting_token(
            puncts[i],
            tokens[i],
        )
    &&& lines == standard_layout(expanded(words, puncts, tokens, words.len() as int))
}

/// The marks before a word depend on the choices before it alone.
pub proof fn lemma_marks_prefix(a: Seq<Punctuation>, b: Seq<Punctuation>, i: int)
    requires
        0 <= i <= a.len(),
        i <= b.len(),
        forall|k: int| 0 <= k < i ==> a[k] == b[k],
    ensures
        marks_before(a, i) == marks_before(b, i),
    decreases i,
{
    if i > 0 {
        lemma_marks_prefix(a, b, i - 1);
    }
}

/// What is laid out for the first words depends on what was chosen for them
/// alone.
pub proof fn lemma_expanded_prefix(
    words: Seq<Seq<char>>,
    a: Seq<Punctuation>,
    ta: Seq<Seq<char>>,
    b: Seq<Punctuation>,
    tb: Seq<Seq<char>>,
    n: int,
)
    requires
        0 <= n <= a.len(),
        n <= b.len(),
        n <= ta.len(),
        n <= tb.len(),
        forall|k: int| 0 <= k < n ==> a[k] == b[k] && ta[k] == tb[k],
    ensures
        expanded(words, a, ta, n) == expanded(words, b, tb, n),
    decreases n,
{
    if n > 0 {
        lemma_expanded_prefix(words, a, ta, b, tb, n - 1);
        lemma_marks_prefix(a, b, n - 1);
    }
}

/// Lays words out in lines as `layout_words` does, after choosing for each
/// word, by weighted chance, what the modifiers do to it. A word is laid
/// out whole with its marks and its capital form, and a token as a word of
/// its own behind it. No word may be empty.
pub fn prepare_modded_test(
    config: &TypingTestConfig,
    words: &Vec<String>,
) -> (lines: Vec<Vec<Cell>>)
    requires
        forall|i: int| 0 <= i < words.len() ==> (#[trigger] words[i])@.len() > 0,
    ensures
        exists|puncts: Seq<Punctuation>, tokens: Seq<Seq<char>>|
            modded_outcome(config.mods, strings_view(words@), puncts, tokens, lines_view(lines@)),
{
    let p = PunctuationInsertFrequency::from_test_mods(&config.mods);
    let ghost texts = strings_view(words@);
    let ghost mut puncts: Seq<Punctuation> = Seq::empty();
    let ghost mut tokens: Seq<Seq<char>> = Seq::empty();
    let mut wrapper = LineWrapper::new(LIMIT);
    let mut rng = rand::thread_rng();
    let mut capitalize = Capitalize::default();
    capitalize.signal();
    capitalize.capitalize();
    let mut i: usize = 0;
    while i < words.len()
        invariant
            i <= words.len(),
            texts == strings_view(words@),
            forall|k: int| 0 <= k < words.len() ==> (#[trigger] words[k])@.len() > 0,
            p.wf(),
            p.symbols@ == entry_symbols(table_for(config.mods)),
            puncts.len() == i,
            tokens.len() == i,
            forall|k: int|
                0 <= k < i ==> allowed(#[trigger] puncts[k], config.mods) && fitting_token(
                    puncts[k],
                    tokens[k],
                ),
            capitalize@ == marks_before(puncts, i as int),
            wrapper.wf(),
            wrapper.limit == LIMIT,
            wrapper@ == place_all(expanded(texts, puncts, tokens, i as int), LIMIT as int),
        decreases words.len() - i,
    {
        let word = words[i].as_str();
        let punct = p.choose_punctuation(&mut rng);
        let token = draw_token(punct, &mut rng);
        if let Punctuation::End(_) = punct {
            capitalize.signal();
        }
        let upper = if capitalize.capitalize() {
            Some(to_uppercase(word.get_char(0)))
        } else {
            None
        };
        let text = decorate_word(word, upper, punct);
        let ghost before = wrapper@;
        wrapper.place(&text);
        let ghost with_word = wrapper@;
        if let Punctuation::InBetweener(_) = punct {
            wrapper.place(&token);
        }
        proof {
            let old_puncts = puncts;
            let old_tokens = tokens;
            puncts = puncts.push(punct);
            tokens = tokens.push(token@);
            assert forall|k: int| 0 <= k <= i implies marks_before(puncts, k) == marks_before(
                old_puncts,
                k,
            ) by {
                lemma_marks_prefix(puncts, old_puncts, k);
            }
            lemma_expanded_prefix(texts, puncts, tokens, old_puncts, old_tokens, i as int);
            let seen = expanded(texts, puncts, tokens, i as int);
            assert(texts[i as int] == word@);
            assert(decorated_at(texts, puncts, i as int) == text@);
            let one = seen.push(text@);
            assert(one.drop_last() =~= seen);
            assert(with_word == place_all(one, LIMIT as int));
            if punct is InBetweener {
                let two = one.push(token@);
                assert(two.drop_last() =~= one);
            }
        }
        i += 1;
    }
    let lines = wrapper.finish();
    assert(modded_outcome(config.mods, texts, puncts, tokens, lines_view(lines@)));
    lines
}

// ---------------------------------------------------------------------------
// Tests
// ---------------------------------------------------------------------------
/// What a test is made from, as read by the caller.
pub enum TestSource {
    /// The lines of a word list, the most frequent word first.
    WordList(Vec<String>),
    /// What a script has written.
    ScriptOutput(String),
}

/// What a test over a word list may look like: as many words as the
/// configuration asks for, each from the pool, laid out plainly or with what
/// the modifiers add.
pub open spec fn standard_outcome(
    config: &TypingTestConfig,
    word_list: Seq<String>,
    words: Seq<Seq<char>>,
    lines: Seq<Seq<CellView>>,
) -> bool {
    &&& words.len() == config.length
    &&& forall|i: int|
        0 <= i < words.len() ==> from_pool(#[trigger] words[i], word_list, config.word_pool as int)
    &&& words_outcome(config, words, lines)
}

/// What a word list must be for a test to be drawn from it: the pool holds a
/// word, the list holds the pool, a word is asked for, and with modifiers no
/// word of the pool is empty.
pub open spec fn standard_ready(config: &TypingTestConfig, word_list: Seq<String>) -> bool {
    &&& config.length >= 1
    &&& 1 <= config.word_pool <= word_list.len()
    &&& !config.mods.spec_is_empty() ==> forall|j: int|
        0 <= j < config.word_pool ==> (#[trigger] word_list[j])@.len() > 0
}

/// What a test over the given words may look like: they are laid out plainly
/// or with what the modifiers add.
pub open spec fn words_outcome(
    config: &TypingTestConfig,
    words: Seq<Seq<char>>,
    lines: Seq<Seq<CellView>>,
) -> bool {
    if config.mods.spec_is_empty() {
        lines == standard_layout(words)
    } else {
        exists|puncts: Seq<Punctuation>, tokens: Seq<Seq<char>>|
            modded_outcome(config.mods, words, puncts, tokens, lines)
    }
}

/// The lines of a test over the given words, in their order. With modifiers
/// no word may be empty.
pub fn prepare_words_test(
    config: &TypingTestConfig,
    words: &Vec<String>,
) -> (lines: Vec<Vec<Cell>>)
    requires
        !config.mods.spec_is_empty() ==> forall|i: int|
            0 <= i < words.len() ==> (#[trigger] words[i])@.len() > 0,
    ensures
        words_outcome(config, strings_view(words@), lines_view(lines@)),
{
    if config.mods.is_empty() {
        layout_words(words)
    } else {
        prepare_modded_test(config, words)
    }
}

/// The lines of a test over words drawn from a word list.
pub fn prepare_standart_test(
    config: &TypingTestConfig,
    word_list: &Vec<String>,
) -> (lines: Vec<Vec<Cell>>)
    requires
        standard_ready(config, word_list@),
    ensures
        exists|words: Seq<Seq<char>>|
            standard_outcome(config, word_list@, words, lines_view(lines@)),
{
    let prep = get_shuffled_words(config, word_list);
    let ghost words = strings_view(prep@);
    assert forall|i: int| 0 <= i < words.len() implies from_pool(
        #[trigger] words[i],
        word_list@,
        config.word_pool as int,
    ) by {
        assert(from_pool(prep[i]@, word_list@, config.word_pool as int));
    }
    proof {
        if !config.mods.spec_is_empty() {
            assert forall|i: int| 0 <= i < prep.len() implies (#[trigger] prep[i])@.len()
                > 0 by {
                assert(from_pool(prep[i]@, word_list@, config.word_pool as int));
            }
        }
    }
    let lines = prepare_words_test(config, &prep);
    assert(standard_outcome(config, word_list@, words, lines_view(lines@)));
    lines
}

/// The lines of a test over what a script has written.
pub fn prepare_script_test(script_output: &str) -> (lines: Vec<Vec<Cell>>)
    ensures
        lines_view(lines@) == script_layout(script_output@),
{
    to_testable_span(script_output)
}

/// The lines of a test, the first line last. The source must be of the
/// variant that the configuration names.
pub fn prepare_test(config: &TypingTestConfig, source: &TestSource) -> (lines: Vec<Vec<Cell>>)
    requires
        match source {
            TestSource::WordList(word_list) => config.variant == TestVariant::Standard
                && standard_ready(config, word_list@),
            TestSource::ScriptOutput(_) => config.variant == TestVariant::Script,
        },
    ensures
        match source {
            TestSource::WordList(word_list) => exists|words: Seq<Seq<char>>|
                standard_outcome(config, word_list@, words, lines_view(lines@)),
            TestSource::ScriptOutput(text) => lines_view(lines@) == script_layout(text@),
        },
{
    match source {
        TestSource::WordList(word_list) => prepare_standart_test(config, word_list),
        TestSource::ScriptOutput(text) => prepare_script_test(text.as_str()),
    }
}

} // verus!
