//! What holds of every layout of words without modifiers: the lines are ready
//! for the engine, none exceeds the budget, none splits a word, and the
//! words can be counted by their separators.

use crate::cell::{blank, blank_ok, boundary, cell_fresh, cell_shaped, glyph, glyphs, is_space, line_ready, rendered_width, space, spaces_in, typed_to, width_of, CellView, MAX_EXTRA_MISTAKES, MAX_LINE_CELLS};
use crate::langs::{
    decorated_at, expanded, fitting_token, is_symbol, modded_outcome,script_fold, script_layout, script_start, script_step, spec_is_whitespace, standard_layout, ScriptView, LIMIT};
use crate::model::total_cells;
use crate::punctuation::{InnerWord, Punctuation};
use crate::settings::ModSet;
use crate::utils::decimal::{decimal_spec, lemma_decimal_digits, lemma_decimal_len};
use crate::typer::lines_ready;
use crate::wrap::{empty_wrap, forward_lines, place_all, place_spec, trimmed, word_piece, WrapView};
use vstd::prelude::*;

verus! {

/// A word that can be laid out: not empty, no longer than the budget, and
/// without the separator in it.
pub open spec fn valid_word(word: Seq<char>, limit: int) -> bool {
    &&& 0 < word.len() <= limit
    &&& forall|k: int| 0 <= k < word.len() ==> word[k] != ' '
}

/// A line made of whole words, each with its boundary, and untouched.
pub open spec fn tidy(line: Seq<CellView>) -> bool {
    &&& forall|i: int| 0 <= i < line.len() ==> #[trigger] cell_shaped(line, i)
    &&& typed_to(line, 0)
    &&& line.len() == 0 || (line.len() >= 3 && is_space(line.last()))
    &&& line.len() <= 2 * rendered_width(line)
}

/// Number of spaces in a list of lines.
pub open spec fn total_spaces(lines: Seq<Seq<CellView>>) -> int
    decreases lines.len(),
{
    if lines.len() == 0 {
        0
    } else {
        total_spaces(lines.drop_last()) + spaces_in(lines.last(), lines.last().len() as int)
    }
}

/// The counts of a line that is continued are those of the line up to where
/// it was, and what follows adds to them.
pub proof fn lemma_counts_append(a: Seq<CellView>, b: Seq<CellView>, n: int)
    requires
        0 <= n <= b.len(),
    ensures
        width_of(a + b, a.len() + n) == width_of(a, a.len() as int) + width_of(b, n),
        spaces_in(a + b, a.len() + n) == spaces_in(a, a.len() as int) + spaces_in(b, n),
    decreases n,
{
    if n == 0 {
        lemma_counts_prefix(a, a + b, a.len() as int);
    } else {
        lemma_counts_append(a, b, n - 1);
        assert((a + b)[a.len() + n - 1] == b[n - 1]);
    }
}

/// The counts over a prefix depend on the cells of the prefix alone.
pub proof fn lemma_counts_prefix(a: Seq<CellView>, b: Seq<CellView>, n: int)
    requires
        0 <= n <= a.len(),
        n <= b.len(),
        forall|i: int| 0 <= i < n ==> a[i] == b[i],
    ensures
        width_of(a, n) == width_of(b, n),
        spaces_in(a, n) == spaces_in(b, n),
    decreases n,
{
    if n > 0 {
        lemma_counts_prefix(a, b, n - 1);
    }
}

/// The glyphs of a word show as many characters as the word has, and no
/// space.
pub proof fn lemma_glyphs_counts(word: Seq<char>, n: int)
    requires
        0 <= n <= word.len(),
        forall|k: int| 0 <= k < word.len() ==> word[k] != ' ',
    ensures
        width_of(glyphs(word), n) == n,
        spaces_in(glyphs(word), n) == 0,
    decreases n,
{
    if n > 0 {
        lemma_glyphs_counts(word, n - 1);
        assert(glyphs(word)[n - 1] == glyph(word[n - 1]));
    }
}

/// A word behind a tidy line leaves a tidy line, wider by the word and its
/// space, and with one space more.
pub proof fn lemma_tidy_append(line: Seq<CellView>, word: Seq<char>, limit: int)
    requires
        tidy(line),
        valid_word(word, limit),
    ensures
        tidy(line + word_piece(word)),
        rendered_width(line + word_piece(word)) == rendered_width(line) + word.len() + 1,
        spaces_in(
            line + word_piece(word),
            (line + word_piece(word)).len() as int,
        ) == spaces_in(line, line.len() as int) + 1,
        (line + word_piece(word)).len() == line.len() + word.len() + 2,
{
    let piece = word_piece(word);
    let new = line + piece;
    let l = line.len() as int;
    let n = word.len() as int;
    assert(piece.len() == n + 2);
    assert forall|i: int| 0 <= i < n implies piece[i] == glyph(word[i]) by {
        assert(piece[i] == glyphs(word)[i]);
    }
    assert(piece[n] == blank());
    assert(piece[n + 1] == space());
    assert(!is_space(blank()));
    assert(is_space(space()));
    assert forall|i: int| 0 <= i < new.len() implies #[trigger] cell_shaped(new, i) by {
        if i < l {
            assert(cell_shaped(line, i));
            assert(new[i] == line[i]);
            if i + 1 < l {
                assert(new[i + 1] == line[i + 1]);
            } else {
                assert(new[i + 1] == piece[0]);
            }
            if i >= 1 {
                assert(new[i - 1] == line[i - 1]);
            }
            if i >= 2 {
                assert(new[i - 2] == line[i - 2]);
            }
        } else {
            let k = i - l;
            assert(new[i] == piece[k]);
            if k + 1 < n + 2 {
                assert(new[i + 1] == piece[k + 1]);
            }
            if k == n + 1 {
                assert(new[i - 1] == piece[n]);
                assert(new[i - 2] == piece[n - 1]);
            }
            if k == n {
                assert(blank_ok(blank()));
            }
        }
    }
    assert forall|i: int| 0 <= i < new.len() implies #[trigger] cell_fresh(new, i) by {
        if i < l {
            assert(cell_fresh(line, i));
            assert(new[i] == line[i]);
            if i + 1 < l {
                assert(new[i + 1] == line[i + 1]);
            } else {
                assert(new[i + 1] == piece[0]);
            }
        } else {
            let k = i - l;
            assert(new[i] == piece[k]);
            if k + 1 < n + 2 {
                assert(new[i + 1] == piece[k + 1]);
            }
        }
    }
    lemma_counts_append(line, piece, n + 2);
    lemma_counts_prefix(piece, glyphs(word), n);
    lemma_glyphs_counts(word, n);
    assert(width_of(piece, n + 1) == width_of(piece, n) + 0);
    assert(width_of(piece, n + 2) == width_of(piece, n + 1) + 1);
    assert(spaces_in(piece, n + 1) == spaces_in(piece, n));
    assert(spaces_in(piece, n + 2) == spaces_in(piece, n + 1) + 1);
    assert(new.last() == piece[n + 1]);
}

/// A tidy line without its last boundary is ready for the engine if it is
/// short enough; it shows one character less and has one space less.
pub proof fn lemma_tidy_trim(line: Seq<CellView>)
    requires
        tidy(line),
        line.len() >= 3,
        line.len() - 2 <= MAX_LINE_CELLS,
    ensures
        line_ready(trimmed(line)),
        rendered_width(trimmed(line)) == rendered_width(line) - 1,
        spaces_in(trimmed(line), trimmed(line).len() as int) == spaces_in(
            line,
            line.len() as int,
        ) - 1,
        !is_space(trimmed(line).last()),
{
    let t = trimmed(line);
    let m = line.len() - 2;
    assert(cell_shaped(line, m + 1));
    assert(cell_shaped(line, m));
    assert(cell_shaped(line, m - 1));
    assert(cell_fresh(line, m));
    assert forall|i: int| 0 <= i < t.len() implies #[trigger] cell_shaped(t, i) by {
        assert(cell_shaped(line, i));
        assert(t[i] == line[i]);
        if i + 1 < m {
            assert(t[i + 1] == line[i + 1]);
        }
        if i >= 1 {
            assert(t[i - 1] == line[i - 1]);
        }
        if i >= 2 {
            assert(t[i - 2] == line[i - 2]);
        }
    }
    assert forall|i: int| 0 <= i < t.len() implies #[trigger] cell_fresh(t, i) by {
        assert(cell_fresh(line, i));
        assert(t[i] == line[i]);
        if i + 1 < m {
            assert(t[i + 1] == line[i + 1]);
        }
    }
    lemma_counts_prefix(t, line, m);
    assert(width_of(line, m + 1) == width_of(line, m) + 0);
    assert(width_of(line, m + 2) == width_of(line, m + 1) + 1);
    assert(spaces_in(line, m + 1) == spaces_in(line, m));
    assert(spaces_in(line, m + 2) == spaces_in(line, m + 1) + 1);
}

/// A tidy line that is not empty and short enough is ready for the engine.
pub proof fn lemma_tidy_ready(line: Seq<CellView>)
    requires
        tidy(line),
        0 < line.len() <= MAX_LINE_CELLS,
    ensures
        line_ready(line),
{
}

/// What holds of a wrapper after `k` valid words were placed.
pub open spec fn wrap_inv(w: WrapView, k: int, limit: int) -> bool {
    &&& forall|i: int|
        0 <= i < w.lines.len() ==> tidy(#[trigger] w.lines[i]) && w.lines[i].len() >= 3
            && rendered_width(w.lines[i]) <= limit + 1
    &&& tidy(w.current)
    &&& k > 0 ==> w.current.len() >= 3
    &&& k == 0 ==> w.current.len() == 0 && w.lines.len() == 0 && w.count == 0
    &&& 0 <= w.count
    &&& rendered_width(w.current) <= limit + 1
    &&& w.lines.len() == 0 ==> rendered_width(w.current) == w.count
    &&& w.lines.len() > 0 ==> rendered_width(w.current) == w.count + 1
    &&& total_spaces(w.lines) + spaces_in(w.current, w.current.len() as int) == k
    &&& k > 0 ==> w.lines.len() < k
}

/// Placing valid words keeps the wrapper as `wrap_inv` says.
pub proof fn lemma_place_all(words: Seq<Seq<char>>, limit: int)
    requires
        0 <= limit,
        forall|i: int| 0 <= i < words.len() ==> valid_word(#[trigger] words[i], limit),
    ensures
        wrap_inv(place_all(words, limit), words.len() as int, limit),
    decreases words.len(),
{
    if words.len() == 0 {
        assert(total_spaces(empty_wrap().lines) == 0);
        assert(width_of(empty_wrap().current, 0) == 0);
    } else {
        let before_words = words.drop_last();
        assert forall|i: int| 0 <= i < before_words.len() implies valid_word(
            #[trigger] before_words[i],
            limit,
        ) by {
            assert(before_words[i] == words[i]);
        }
        lemma_place_all(before_words, limit);
        let w = place_all(before_words, limit);
        let word = words.last();
        assert(valid_word(word, limit));
        let after = place_spec(w, word, limit);
        assert(place_all(words, limit) == after);
        if w.current.len() > 0 && w.count + word.len() + 1 > limit {
            assert(words.len() - 1 > 0);
            lemma_tidy_append(Seq::empty(), word, limit);
            assert(Seq::<CellView>::empty() + word_piece(word) =~= word_piece(word));
            assert(width_of(Seq::<CellView>::empty(), 0) == 0);
            assert(spaces_in(Seq::<CellView>::empty(), 0) == 0);
            assert(after.current == word_piece(word));
            assert(total_spaces(after.lines) == total_spaces(w.lines) + spaces_in(
                w.current,
                w.current.len() as int,
            )) by {
                assert(after.lines.drop_last() =~= w.lines);
                assert(after.lines.last() == w.current);
            }
            assert forall|i: int| 0 <= i < after.lines.len() implies tidy(
                #[trigger] after.lines[i],
            ) && after.lines[i].len() >= 3 && rendered_width(after.lines[i]) <= limit + 1 by {
                if i < w.lines.len() {
                    assert(after.lines[i] == w.lines[i]);
                }
            }
        } else {
            lemma_tidy_append(w.current, word, limit);
        }
    }
}

/// The spaces of lines in reverse order are the same.
pub proof fn lemma_total_spaces_reverse(lines: Seq<Seq<CellView>>)
    ensures
        total_spaces(lines.reverse()) == total_spaces(lines),
    decreases lines.len(),
{
    if lines.len() > 0 {
        let rest = lines.drop_last();
        lemma_total_spaces_reverse(rest);
        let r = lines.reverse();
        let q = seq![lines.last()] + rest.reverse();
        assert(r.len() == q.len());
        assert forall|i: int| 0 <= i < r.len() implies r[i] == q[i] by {
            if i > 0 {
                assert(q[i] == rest.reverse()[i - 1]);
                assert(rest.reverse()[i - 1] == rest[rest.len() - 1 - (i - 1)]);
            }
        }
        assert(lines.reverse() =~= seq![lines.last()] + rest.reverse());
        lemma_total_spaces_concat(seq![lines.last()], rest.reverse());
        let single = seq![lines.last()];
        assert(single.drop_last() =~= Seq::<Seq<CellView>>::empty());
        assert(total_spaces(single.drop_last()) == 0);
        assert(single.last() == lines.last());
        assert(total_spaces(single) == spaces_in(
            lines.last(),
            lines.last().len() as int,
        ));
    } else {
        assert(lines.reverse() =~= lines);
    }
}

/// The spaces of two lists of lines add up.
pub proof fn lemma_total_spaces_concat(a: Seq<Seq<CellView>>, b: Seq<Seq<CellView>>)
    ensures
        total_spaces(a + b) == total_spaces(a) + total_spaces(b),
    decreases b.len(),
{
    if b.len() == 0 {
        assert(a + b =~= a);
    } else {
        lemma_total_spaces_concat(a, b.drop_last());
        assert((a + b).drop_last() =~= a + b.drop_last());
        assert((a + b).last() == b.last());
    }
}

/// Lines of at most `most` cells each hold no more than that times their
/// number.
pub proof fn lemma_total_cells_bound(lines: Seq<Seq<CellView>>, most: int)
    requires
        forall|i: int| 0 <= i < lines.len() ==> (#[trigger] lines[i]).len() <= most,
        0 <= most,
    ensures
        0 <= total_cells(lines) <= lines.len() * most,
    decreases lines.len(),
{
    if lines.len() > 0 {
        let rest = lines.drop_last();
        assert forall|i: int| 0 <= i < rest.len() implies (#[trigger] rest[i]).len() <= most by {
            assert(rest[i] == lines[i]);
        }
        lemma_total_cells_bound(rest, most);
        assert(lines.last() == lines[lines.len() - 1]);
        assert((lines.len() - 1) * most + most == lines.len() * most) by (nonlinear_arith);
    } else {
        assert(lines.len() * most == 0) by (nonlinear_arith)
            requires
                lines.len() == 0,
        ;
    }
}

/// A test over valid words is ready for the engine. Every line is made of
/// whole words, begins with a glyph and, but for the last line, ends with the
/// space behind a word; no line shows more characters than the budget, not
/// counting the space at its end; and there is one space less than there are
/// words.
pub proof fn lemma_standard_layout(words: Seq<Seq<char>>)
    requires
        words.len() > 0,
        forall|i: int| 0 <= i < words.len() ==> valid_word(#[trigger] words[i], LIMIT as int),
        6 * (LIMIT + 1) * words.len() <= usize::MAX,
    ensures
        lines_ready(standard_layout(words)),
        forall|i: int|
            0 <= i < standard_layout(words).len() ==> rendered_width(
                #[trigger] standard_layout(words)[i],
            ) - (if is_space(standard_layout(words)[i].last()) {
                1int
            } else {
                0
            }) <= LIMIT,
        forall|i: int|
            0 < i < standard_layout(words).len() ==> is_space(
                (#[trigger] standard_layout(words)[i]).last(),
            ),
        !is_space(standard_layout(words)[0].last()),
        total_spaces(standard_layout(words)) == words.len() - 1,
{
    let limit = LIMIT as int;
    let w = place_all(words, limit);
    lemma_place_all(words, limit);
    let forward = forward_lines(w);
    let lines = standard_layout(words);
    let n = forward.len() as int;
    assert(lines == forward.reverse());
    assert(forward.drop_last() =~= w.lines);
    assert(forward.last() == trimmed(w.current));
    lemma_tidy_trim(w.current);
    assert forall|i: int| 0 <= i < n implies line_ready(#[trigger] forward[i]) && forward[i].len()
        <= 2 * (limit + 1) && rendered_width(forward[i]) - (if is_space(forward[i].last()) {
        1int
    } else {
        0
    }) <= limit && (i < n - 1 ==> is_space(forward[i].last())) by {
        if i < n - 1 {
            assert(forward[i] == w.lines[i]);
            lemma_tidy_ready(w.lines[i]);
        }
    }
    assert forall|i: int| 0 <= i < n implies lines[i] == forward[n - 1 - i] by {}
    assert forall|i: int| 0 <= i < lines.len() implies (#[trigger] lines[i]).len() <= 2 * (limit
        + 1) by {
        assert(lines[i] == forward[n - 1 - i]);
    }
    lemma_total_cells_bound(lines, 2 * (limit + 1));
    assert(MAX_EXTRA_MISTAKES * total_cells(lines) <= usize::MAX) by (nonlinear_arith)
        requires
            total_cells(lines) <= lines.len() * (2 * (limit + 1)),
            lines.len() <= words.len(),
            6 * (limit + 1) * words.len() <= usize::MAX,
            MAX_EXTRA_MISTAKES == 3,
            limit >= 0,
            total_cells(lines) >= 0,
    ;
    assert forall|i: int| 0 <= i < lines.len() implies line_ready(#[trigger] lines[i]) by {
        assert(lines[i] == forward[n - 1 - i]);
    }
    assert forall|i: int| 0 <= i < lines.len() implies rendered_width(#[trigger] lines[i]) - (
    if is_space(lines[i].last()) {
        1int
    } else {
        0
    }) <= LIMIT by {
        assert(lines[i] == forward[n - 1 - i]);
    }
    assert forall|i: int| 0 < i < lines.len() implies is_space((#[trigger] lines[i]).last()) by {
        assert(lines[i] == forward[n - 1 - i]);
    }
    assert(lines[0] == forward[n - 1]);
    lemma_total_spaces_reverse(forward);
}

/// The characters that the cells of a word show.
pub open spec fn cell_chars(cells: Seq<CellView>) -> Seq<char> {
    Seq::new(cells.len(), |i: int| cells[i].content[0])
}

/// A literal text that can be laid out: it begins with a word and ends with
/// white space, and none of its words has more characters than a line.
pub open spec fn valid_script(text: Seq<char>) -> bool {
    &&& text.len() > 0
    &&& !spec_is_whitespace(text[0])
    &&& spec_is_whitespace(text.last())
    &&& forall|n: int|
        0 <= n <= text.len() ==> (#[trigger] script_fold(text.subrange(0, n))).word.len() <= LIMIT
}

/// What holds while a valid text is read.
pub open spec fn script_inv(st: ScriptView, n: int) -> bool {
    &&& forall|i: int|
        0 <= i < st.lines.len() ==> tidy(#[trigger] st.lines[i]) && st.lines[i].len() >= 3
            && rendered_width(st.lines[i]) <= LIMIT + 1
    &&& tidy(st.current)
    &&& st.word == glyphs(cell_chars(st.word))
    &&& forall|k: int| 0 <= k < st.word.len() ==> cell_chars(st.word)[k] != ' '
    &&& st.word.len() <= LIMIT
    &&& 0 <= st.count
    &&& rendered_width(st.current) + st.word.len() <= st.count
    &&& rendered_width(st.current) <= LIMIT + 1
    &&& !st.spaced ==> st.count <= LIMIT
    &&& !st.spaced && n > 0 ==> st.word.len() > 0
    &&& st.spaced ==> st.current.len() >= 3 && st.word.len() == 0
    &&& st.current.len() == 0 ==> st.count == st.word.len()
    &&& st.lines.len() <= n
    &&& n == 0 ==> st == script_start()
}

/// Reading a valid text keeps the layout as `script_inv` says.
pub proof fn lemma_script_fold(text: Seq<char>, n: int)
    requires
        valid_script(text),
        0 <= n <= text.len(),
    ensures
        script_inv(script_fold(text.subrange(0, n)), n),
    decreases n,
{
    let now = text.subrange(0, n);
    if n == 0 {
        let st = script_start();
        assert(st.word =~= glyphs(cell_chars(st.word)));
        assert(width_of(st.current, 0) == 0);
    } else {
        let before = text.subrange(0, n - 1);
        assert(now.drop_last() =~= before);
        assert(now.last() == text[n - 1]);
        lemma_script_fold(text, n - 1);
        let st = script_fold(before);
        let c = text[n - 1];
        let next = script_step(st, c);
        assert(script_fold(now) == next);
        assert(script_fold(text.subrange(0, n)).word.len() <= LIMIT);
        if n == 1 {
            assert(c == text[0]);
        }
        if spec_is_whitespace(c) {
            if !st.spaced {
                let chars = cell_chars(st.word);
                assert(chars.len() < LIMIT + 1);
                lemma_tidy_append(st.current, chars, LIMIT + 1);
                assert(next.current == st.current + word_piece(chars));
                assert(next.word =~= glyphs(cell_chars(next.word)));
            }
        } else {
            let word = st.word.push(glyph(c));
            assert(cell_chars(word) =~= cell_chars(st.word).push(c));
            assert(word =~= glyphs(cell_chars(word)));
            assert(c != ' ');
            if st.count + 1 > LIMIT {
                assert(st.current.len() > 0);
                assert(next.lines.drop_last() =~= st.lines);
                assert forall|i: int| 0 <= i < next.lines.len() implies tidy(
                    #[trigger] next.lines[i],
                ) && next.lines[i].len() >= 3 && rendered_width(next.lines[i]) <= LIMIT + 1 by {
                    if i < st.lines.len() {
                        assert(next.lines[i] == st.lines[i]);
                    }
                }
                assert(width_of(next.current, 0) == 0);
            }
        }
    }
}

/// A test over a valid literal text is ready for the engine. Every line is
/// made of whole words, and none shows more characters than the budget, not
/// counting the space at its end.
pub proof fn lemma_script_layout(text: Seq<char>)
    requires
        valid_script(text),
        6 * (LIMIT + 1) * (text.len() + 1) <= usize::MAX,
    ensures
        lines_ready(script_layout(text)),
        forall|i: int|
            0 <= i < script_layout(text).len() ==> rendered_width(
                #[trigger] script_layout(text)[i],
            ) - (if is_space(script_layout(text)[i].last()) {
                1int
            } else {
                0
            }) <= LIMIT,
        forall|i: int|
            0 < i < script_layout(text).len() ==> is_space(
                (#[trigger] script_layout(text)[i]).last(),
            ),
{
    let limit = LIMIT as int;
    assert(text.subrange(0, text.len() as int) =~= text);
    lemma_script_fold(text, text.len() as int);
    let st = script_fold(text);
    // The text ends with white space, so the last line holds a word.
    let before = text.drop_last();
    assert(text.subrange(0, text.len() - 1) =~= before);
    assert(st == script_step(script_fold(before), text.last()));
    assert(st.spaced);
    let forward = st.lines.push(trimmed(st.current));
    let lines = script_layout(text);
    let n = forward.len() as int;
    assert(lines == forward.reverse());
    lemma_tidy_trim(st.current);
    assert forall|i: int| 0 <= i < n implies line_ready(#[trigger] forward[i]) && forward[i].len()
        <= 2 * (limit + 1) && rendered_width(forward[i]) - (if is_space(forward[i].last()) {
        1int
    } else {
        0
    }) <= limit && (i < n - 1 ==> is_space(forward[i].last())) by {
        if i < n - 1 {
            assert(forward[i] == st.lines[i]);
            lemma_tidy_ready(st.lines[i]);
        }
    }
    assert forall|i: int| 0 <= i < lines.len() implies (#[trigger] lines[i]).len() <= 2 * (limit
        + 1) by {
        assert(lines[i] == forward[n - 1 - i]);
    }
    lemma_total_cells_bound(lines, 2 * (limit + 1));
    assert(MAX_EXTRA_MISTAKES * total_cells(lines) <= usize::MAX) by (nonlinear_arith)
        requires
            total_cells(lines) <= lines.len() * (2 * (limit + 1)),
            lines.len() <= text.len() + 1,
            6 * (limit + 1) * (text.len() + 1) <= usize::MAX,
            MAX_EXTRA_MISTAKES == 3,
            limit >= 0,
            total_cells(lines) >= 0,
    ;
    assert forall|i: int| 0 <= i < lines.len() implies line_ready(#[trigger] lines[i]) by {
        assert(lines[i] == forward[n - 1 - i]);
    }
    assert forall|i: int| 0 <= i < lines.len() implies rendered_width(#[trigger] lines[i]) - (
    if is_space(lines[i].last()) {
        1int
    } else {
        0
    }) <= LIMIT by {
        assert(lines[i] == forward[n - 1 - i]);
    }
    assert forall|i: int| 0 < i < lines.len() implies is_space((#[trigger] lines[i]).last()) by {
        assert(lines[i] == forward[n - 1 - i]);
    }
}

/// A token that fits is a valid word.
pub proof fn lemma_token_valid(punct: Punctuation, token: Seq<char>)
    requires
        fitting_token(punct, token),
        punct is InBetweener,
    ensures
        valid_word(token, LIMIT as int),
{
    match punct {
        Punctuation::InBetweener(InnerWord::Number) => {
            let n = choose|n: nat| n <= 999 && token == #[trigger] decimal_spec(n);
            lemma_decimal_len(n);
            lemma_decimal_digits(n);
        },
        Punctuation::InBetweener(InnerWord::Symbol) => {
            assert forall|k: int| 0 <= k < token.len() implies token[k] != ' ' by {
                assert(is_symbol(token[k]));
            }
        },
        _ => {},
    }
}

/// Where every word as it stands in the text is a valid word, so is all that
/// is laid out; and that is for each word the word and one token at most.
pub proof fn lemma_expanded_valid(
    words: Seq<Seq<char>>,
    puncts: Seq<Punctuation>,
    tokens: Seq<Seq<char>>,
    n: int,
)
    requires
        0 <= n <= words.len(),
        n <= puncts.len(),
        n <= tokens.len(),
        forall|i: int|
            0 <= i < n ==> valid_word(#[trigger] decorated_at(words, puncts, i), LIMIT as int),
        forall|i: int| 0 <= i < n ==> fitting_token(#[trigger] puncts[i], tokens[i]),
    ensures
        n <= expanded(words, puncts, tokens, n).len() <= 2 * n,
        forall|j: int|
            0 <= j < expanded(words, puncts, tokens, n).len() ==> valid_word(
                #[trigger] expanded(words, puncts, tokens, n)[j],
                LIMIT as int,
            ),
    decreases n,
{
    if n > 0 {
        lemma_expanded_valid(words, puncts, tokens, n - 1);
        assert(valid_word(decorated_at(words, puncts, n - 1), LIMIT as int));
        assert(fitting_token(puncts[n - 1], tokens[n - 1]));
        if puncts[n - 1] is InBetweener {
            lemma_token_valid(puncts[n - 1], tokens[n - 1]);
        }
    }
}

/// A test with modifiers is ready for the engine where every word, as it
/// stands in the text with its marks and its capital form, is a valid word.
/// Every line is made of whole words and whole tokens, begins with a glyph
/// and, but for the last line, ends with the space behind a word; no line
/// shows more characters than the budget, not counting the space at its end.
pub proof fn lemma_modded_layout(
    test_mods: ModSet,
    words: Seq<Seq<char>>,
    puncts: Seq<Punctuation>,
    tokens: Seq<Seq<char>>,
    lines: Seq<Seq<CellView>>,
)
    requires
        modded_outcome(test_mods, words, puncts, tokens, lines),
        words.len() > 0,
        forall|i: int|
            0 <= i < words.len() ==> valid_word(
                #[trigger] decorated_at(words, puncts, i),
                LIMIT as int,
            ),
        12 * (LIMIT + 1) * words.len() <= usize::MAX,
    ensures
        lines_ready(lines),
        forall|i: int|
            0 <= i < lines.len() ==> rendered_width(#[trigger] lines[i]) - (if is_space(
                lines[i].last(),
            ) {
                1int
            } else {
                0
            }) <= LIMIT,
        forall|i: int| 0 < i < lines.len() ==> is_space((#[trigger] lines[i]).last()),
        !is_space(lines[0].last()),
        total_spaces(lines) == expanded(words, puncts, tokens, words.len() as int).len() - 1,
{
    let all = expanded(words, puncts, tokens, words.len() as int);
    assert forall|i: int| 0 <= i < words.len() implies fitting_token(
        #[trigger] puncts[i],
        tokens[i],
    ) by {}
    lemma_expanded_valid(words, puncts, tokens, words.len() as int);
    assert(6 * (LIMIT + 1) * all.len() <= usize::MAX) by (nonlinear_arith)
        requires
            all.len() <= 2 * words.len(),
            12 * (LIMIT + 1) * words.len() <= usize::MAX,
            LIMIT == 65,
    ;
    lemma_standard_layout(all);
}

/// The cells of lines, one line behind the other.
pub open spec fn joined(lines: Seq<Seq<CellView>>) -> Seq<CellView>
    decreases lines.len(),
{
    if lines.len() == 0 {
        Seq::empty()
    } else {
        joined(lines.drop_last()) + lines.last()
    }
}

/// The cells of words, each with its boundary, one word behind the other.
pub open spec fn all_pieces(words: Seq<Seq<char>>) -> Seq<CellView>
    decreases words.len(),
{
    if words.len() == 0 {
        Seq::empty()
    } else {
        all_pieces(words.drop_last()) + word_piece(words.last())
    }
}

/// The lines of a wrapper, joined, are the words that were placed, in their
/// order.
pub proof fn lemma_place_joined(words: Seq<Seq<char>>, limit: int)
    ensures
        joined(place_all(words, limit).lines) + place_all(words, limit).current == all_pieces(
            words,
        ),
        words.len() > 0 ==> place_all(words, limit).current.len() >= 2,
    decreases words.len(),
{
    if words.len() == 0 {
        assert(joined(empty_wrap().lines) + empty_wrap().current =~= Seq::<CellView>::empty());
    } else {
        lemma_place_joined(words.drop_last(), limit);
        let w = place_all(words.drop_last(), limit);
        let after = place_spec(w, words.last(), limit);
        let piece = word_piece(words.last());
        assert(piece.len() == words.last().len() + 2);
        if w.current.len() > 0 && w.count + words.last().len() + 1 > limit {
            assert(after.lines.drop_last() =~= w.lines);
            assert(after.lines.last() == w.current);
        } else {
            assert(joined(w.lines) + (w.current + piece) =~= (joined(w.lines) + w.current)
                + piece);
        }
    }
}

/// No line splits a word: the lines of a test, joined in the order in which
/// they are typed, are the words in their order, each with its boundary but
/// the last.
pub proof fn lemma_layout_joined(words: Seq<Seq<char>>)
    requires
        words.len() > 0,
    ensures
        joined(standard_layout(words).reverse()) == trimmed(all_pieces(words)),
{
    let w = place_all(words, LIMIT as int);
    lemma_place_joined(words, LIMIT as int);
    let forward = forward_lines(w);
    assert(standard_layout(words).reverse() =~= forward);
    assert(forward.drop_last() =~= w.lines);
    assert(forward.last() == trimmed(w.current));
    assert(joined(w.lines) + trimmed(w.current) =~= trimmed(joined(w.lines) + w.current));
}

} // verus!
