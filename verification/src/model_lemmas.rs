//! Every event leads from a sound state to a sound state.

use crate::cell::{blank_ok, blanks_in, cell_fresh, cell_typed, extras_in, is_blank_at, is_mistake_at, is_space, line_ready, mistakes_in, typed_to, width_of, CellView, Role, MAX_EXTRA_MISTAKES};
use crate::line_lemmas::{lemma_counted, lemma_counts_bounds, lemma_counts_update, lemma_shape_facts, lemma_shape_update, lemma_typed_back, lemma_typed_same, lemma_typed_skip, lemma_typed_step, lemma_typed_unskip, lemma_update_keeps_kinds};
use crate::model::{
    counts_fit,advance_spec, correct_chars, deduct_spec, on_char_spec, paint, regress_line_spec, rewind_word_spec, total_cells, undo_boundary_spec, undo_char_spec, undo_here_spec, undo_word_spec, wf, wf_base, wf_finished, TestView};
use vstd::prelude::*;

verus! {

/// Under the cursor of a test under way stands one character: the separator
/// if the cell is a space.
pub proof fn lemma_cursor_cell(v: TestView)
    requires
        wf(v),
    ensures
        v.active[v.done].content.len() == 1,
        is_space(v.active[v.done]) == (v.current_char == ' '),
        v.current_char == ' ' ==> v.done >= 2 && is_blank_at(v.active, v.done - 1) && blank_ok(
            v.active[v.done - 1],
        ) && !is_blank_at(v.active, v.done - 2) && !is_space(v.active[v.done - 2]),
{
    lemma_shape_facts(v.active, v.done);
}

/// The counters stay within what the machine can count.
pub proof fn lemma_limits(v: TestView)
    requires
        wf_base(v),
    ensures
        0 <= v.blanks,
        0 <= v.mistakes,
        0 <= v.extra_mistakes <= MAX_EXTRA_MISTAKES * v.blanks,
        v.blanks + v.mistakes <= v.pdone + v.done,
        MAX_EXTRA_MISTAKES * (v.pdone + v.active.len()) <= usize::MAX,
        1 <= v.cursor_x <= 1 + MAX_EXTRA_MISTAKES * v.done,
        v.active.len() <= crate::cell::MAX_LINE_CELLS,
{
    lemma_counts_bounds(v.active, v.done);
    lemma_counts_bounds(v.up, v.up.len() as int);
    lemma_total_cells_push(v.backburner, v.down);
    assert(MAX_EXTRA_MISTAKES * (v.pdone + v.active.len()) <= MAX_EXTRA_MISTAKES * (v.pdone
        + v.active.len() + v.down.len() + total_cells(v.backburner))) by (nonlinear_arith)
        requires
            v.down.len() + total_cells(v.backburner) >= 0,
    ;
}

/// The counters of a test under way or finished can be summed up.
pub proof fn lemma_counts_fit(v: TestView)
    requires
        wf(v) || wf_finished(v),
    ensures
        counts_fit(v),
        0 <= v.mistakes + v.extra_mistakes <= usize::MAX,
{
    if wf(v) {
        lemma_limits(v);
    } else {
        lemma_counts_bounds(v.up, v.up.len() as int);
    }
}

/// What stands before the cursor has been counted.
pub proof fn lemma_before_cursor(v: TestView, d: int)
    requires
        wf_base(v),
        0 <= d < v.done,
    ensures
        is_mistake_at(v.active, d) ==> v.mistakes >= 1,
        is_blank_at(v.active, d) ==> v.blanks >= 1,
        is_blank_at(v.active, d) ==> v.extra_mistakes >= v.active[d].content.len(),
        !is_blank_at(v.active, d) ==> v.active[d].content.len() == 1,
        v.cursor_x >= 1 + v.active[d].content.len(),
{
    lemma_counted(v.active, d, v.done);
    lemma_counts_bounds(v.up, v.up.len() as int);
    lemma_shape_facts(v.active, d);
}

/// Taking a line off the end of a list takes its cells off the total.
pub proof fn lemma_total_cells_push(lines: Seq<Seq<CellView>>, line: Seq<CellView>)
    ensures
        total_cells(lines.push(line)) == total_cells(lines) + line.len(),
        total_cells(lines) >= 0,
    decreases lines.len(),
{
    assert(lines.push(line).drop_last() =~= lines);
    if lines.len() > 0 {
        lemma_total_cells_push(lines.drop_last(), lines.last());
        assert(lines.drop_last().push(lines.last()) =~= lines);
    }
}

/// The cells of a list of lines are those of its last line and of the lines
/// before it.
pub proof fn lemma_total_cells_split(lines: Seq<Seq<CellView>>, k: int)
    requires
        0 <= k <= lines.len(),
    ensures
        total_cells(lines.subrange(0, k)) <= total_cells(lines),
        k < lines.len() ==> total_cells(lines.subrange(0, k)) + lines[k].len() <= total_cells(
            lines,
        ),
        k + 1 < lines.len() ==> total_cells(lines.subrange(0, k)) + lines[k].len() + lines[k
            + 1].len() <= total_cells(lines),
        k + 2 == lines.len() ==> total_cells(lines.subrange(0, k)) + lines[k].len() + lines[k
            + 1].len() == total_cells(lines),
        k + 1 == lines.len() ==> total_cells(lines.subrange(0, k)) + lines[k].len()
            == total_cells(lines),
    decreases lines.len() - k,
{
    lemma_total_cells_push(lines, Seq::empty());
    if k == lines.len() {
        assert(lines.subrange(0, k) =~= lines);
    } else {
        assert(lines.subrange(0, k + 1).drop_last() =~= lines.subrange(0, k));
        assert(lines.subrange(0, k + 1).last() == lines[k]);
        lemma_total_cells_split(lines, k + 1);
        lemma_total_cells_push(lines.subrange(0, k), lines[k]);
        if k + 1 < lines.len() {
            assert(lines.subrange(0, k + 2).drop_last() =~= lines.subrange(0, k + 1));
            assert(lines.subrange(0, k + 2).last() == lines[k + 1]);
            lemma_total_cells_split(lines, k + 2);
        }
    }
}

/// The state after the cell under the cursor was painted as typed and the
/// cursor moved past it.
pub open spec fn stepped(v: TestView, role: Role) -> TestView {
    TestView {
        active: paint(v.active, v.done, role),
        done: v.done + 1,
        cursor_x: v.cursor_x + 1,
        mistakes: if role == Role::Wrong {
            v.mistakes + 1
        } else {
            v.mistakes
        },
        ..v
    }
}

/// Typing the cell under the cursor, rightly or wrongly, keeps the state
/// sound up to the choice of the next cell.
pub proof fn lemma_stepped(v: TestView, role: Role)
    requires
        wf(v),
        role == Role::Done || (role == Role::Wrong && v.current_char != ' '),
    ensures
        wf_base(stepped(v, role)),
        correct_chars(stepped(v, role)) == correct_chars(v) + if role == Role::Done {
            1int
        } else {
            0
        },
{
    let w = stepped(v, role);
    let cell = CellView { content: v.active[v.done].content, role };
    lemma_cursor_cell(v);
    lemma_shape_update(v.active, v.done, cell);
    lemma_typed_step(v.active, v.done, cell);
    lemma_counts_update(v.active, v.done, cell, v.done);
    lemma_update_keeps_kinds(v.active, v.done, cell);
    assert(is_mistake_at(w.active, v.done) == (role == Role::Wrong));
    assert(w.active.len() == v.active.len());
}

/// After a cell was typed, loading the next character or moving a line on
/// leaves a sound state.
pub proof fn lemma_advance(v: TestView)
    requires
        wf_base(v),
        v.done > 0,
    ensures
        ({
            let (w, fin) = advance_spec(v);
            &&& fin ==> wf_finished(w)
            &&& !fin ==> wf(w)
            &&& correct_chars(w) == correct_chars(v)
            &&& w.pmiss == v.pmiss
            &&& w.first == v.first
            &&& w.extra_mistakes == v.extra_mistakes
            &&& w.mistakes == v.mistakes
        }),
{
    let (w, fin) = advance_spec(v);
    if v.done < v.length {
        lemma_shape_facts(v.active, v.done);
        assert(cell_fresh(v.active, v.done));
        if is_blank_at(v.active, v.done) {
            lemma_typed_skip(v.active, v.done);
            lemma_shape_facts(v.active, v.done + 1);
        }
    } else {
        lemma_counts_bounds(v.up, v.up.len() as int);
        lemma_counts_bounds(v.active, v.done);
        if v.down.len() > 0 {
            lemma_shape_facts(v.down, 0);
            if v.backburner.len() > 0 {
                lemma_total_cells_push(v.backburner.drop_last(), v.backburner.last());
                assert(v.backburner.drop_last().push(v.backburner.last()) =~= v.backburner);
                assert(v.backburner.last() == v.backburner[v.backburner.len() - 1]);
                assert forall|i: int| 0 <= i < w.backburner.len() implies line_ready(
                    #[trigger] w.backburner[i],
                ) || (i == 0 && w.backburner[i].len() == 0) by {
                    assert(w.backburner[i] == v.backburner[i]);
                }
                if w.down.len() == 0 {
                    assert(v.backburner.len() - 1 == 0);
                }
            } else {
                assert(total_cells(v.backburner) == 0);
            }
            lemma_total_cells_push(w.backburner, w.down);
            assert(typed_to(w.active, 0));
        } else {
            lemma_total_cells_push(v.backburner, v.down);
        }
    }
}

/// A keystroke leads from a test under way to a test under way or to a
/// finished one. A right character adds one to the characters that count, a
/// wrong one adds one to the wrong keystrokes, and nothing else changes either.
pub proof fn lemma_on_char(v: TestView, c: char)
    requires
        wf(v),
    ensures
        ({
            let (w, fin) = on_char_spec(v, c);
            &&& fin ==> wf_finished(w)
            &&& !fin ==> wf(w)
            &&& !w.first
            &&& correct_chars(w) == correct_chars(v) + if c == v.current_char {
                1int
            } else {
                0
            }
            &&& w.pmiss == v.pmiss + if c == v.current_char {
                0int
            } else {
                1
            }
        }),
{
    let v1 = TestView { first: false, ..v };
    assert(wf(v1));
    lemma_cursor_cell(v1);
    if c == v.current_char {
        lemma_stepped(v1, Role::Done);
        lemma_advance(stepped(v1, Role::Done));
    } else if v.current_char == ' ' {
        let j = v.done - 1;
        let old_cell = v.active[j];
        if old_cell.content.len() < MAX_EXTRA_MISTAKES {
            let cell = CellView { content: old_cell.content.push(c), role: old_cell.role };
            let w = on_char_spec(v, c).0;
            lemma_shape_update(v.active, j, cell);
            lemma_typed_same(v.active, v.done, j, cell);
            lemma_counts_update(v.active, j, cell, v.done);
            lemma_update_keeps_kinds(v.active, j, cell);
            assert(w.active == v.active.update(j, cell));
            assert(is_mistake_at(w.active, j) == is_mistake_at(v.active, j));
        }
    } else {
        let w1 = TestView { pmiss: v1.pmiss + 1, ..v1 };
        assert(wf(w1));
        lemma_stepped(w1, Role::Wrong);
        lemma_advance(stepped(w1, Role::Wrong));
        assert(stepped(w1, Role::Wrong) == TestView {
            mistakes: v1.mistakes + 1,
            pmiss: v1.pmiss + 1,
            active: paint(v1.active, v1.done, Role::Wrong),
            done: v1.done + 1,
            cursor_x: v1.cursor_x + 1,
            ..v1
        });
    }
}

/// Moving back a line from the start of the active one puts the cursor behind
/// the last cell of the line above.
pub proof fn lemma_regress(v: TestView)
    requires
        wf(v),
        v.done == 0,
        v.up.len() > 0,
    ensures
        wf_base(regress_line_spec(v)),
        regress_line_spec(v).done == regress_line_spec(v).active.len(),
        regress_line_spec(v).current_char != ' ',
        correct_chars(regress_line_spec(v)) == correct_chars(v),
{
    let w = regress_line_spec(v);
    lemma_shape_facts(v.active, 0);
    lemma_total_cells_push(v.backburner, v.down);
    lemma_counts_bounds(v.up, v.up.len() as int);
    assert forall|i: int| 0 <= i < w.backburner.len() implies line_ready(
        #[trigger] w.backburner[i],
    ) || (i == 0 && w.backburner[i].len() == 0) by {
        if i < v.backburner.len() {
            assert(w.backburner[i] == v.backburner[i]);
        }
    }
}

/// Taking back the cell before the cursor leaves a test under way.
pub proof fn lemma_undo_here(v: TestView)
    requires
        wf_base(v),
        v.done > 0,
        v.done < v.active.len() ==> wf(v),
        v.done == v.active.len() ==> v.current_char != ' ',
    ensures
        wf(undo_here_spec(v)),
        undo_here_spec(v).pmiss == v.pmiss,
        undo_here_spec(v).first == v.first,
        undo_here_spec(v).pdone == v.pdone,
        undo_here_spec(v).up == v.up,
        undo_here_spec(v).down == v.down,
        undo_here_spec(v).backburner == v.backburner,
{
    let w = undo_here_spec(v);
    if v.current_char == ' ' {
        lemma_cursor_cell(v);
        let j = v.done - 1;
        if v.active[j].content.len() == 0 {
            let d = v.done - 2;
            let cell = CellView { content: v.active[d].content, role: Role::Todo };
            lemma_shape_facts(v.active, d);
            lemma_typed_unskip(v.active, v.done);
            lemma_shape_update(v.active, d, cell);
            lemma_typed_back(v.active, j, cell);
            lemma_counts_update(v.active, d, cell, d);
            lemma_update_keeps_kinds(v.active, d, cell);
            assert(cell_typed(v.active, d));
            assert(w.active == v.active.update(d, cell));
            assert(width_of(v.active, v.done) == width_of(v.active, j) + 0);
            assert(width_of(v.active, j) == width_of(v.active, d) + 1);
            assert(mistakes_in(v.active, v.done) == mistakes_in(v.active, j));
            assert(blanks_in(v.active, v.done) == blanks_in(v.active, j) + 1);
            assert(extras_in(v.active, v.done) == extras_in(v.active, j));
            assert(mistakes_in(v.active, j) == mistakes_in(v.active, d) + if is_mistake_at(
                v.active,
                d,
            ) {
                1int
            } else {
                0
            });
            assert(blanks_in(v.active, j) == blanks_in(v.active, d));
            assert(extras_in(v.active, j) == extras_in(v.active, d));
        } else {
            let old_cell = v.active[j];
            let cell = CellView { content: old_cell.content.drop_last(), role: old_cell.role };
            lemma_shape_update(v.active, j, cell);
            lemma_typed_same(v.active, v.done, j, cell);
            lemma_counts_update(v.active, j, cell, v.done);
            lemma_update_keeps_kinds(v.active, j, cell);
            assert(w.active == v.active.update(j, cell));
            assert(is_mistake_at(w.active, j) == is_mistake_at(v.active, j));
        }
    } else {
        let d = v.done - 1;
        let cell = CellView { content: v.active[d].content, role: Role::Todo };
        lemma_shape_facts(v.active, d);
        if v.done < v.active.len() {
            lemma_cursor_cell(v);
        }
        assert(!is_blank_at(v.active, d));
        lemma_shape_update(v.active, d, cell);
        lemma_typed_back(v.active, v.done, cell);
        lemma_counts_update(v.active, d, cell, d);
        lemma_update_keeps_kinds(v.active, d, cell);
        assert(cell_typed(v.active, d));
        assert(w.active == v.active.update(d, cell));
    }
}

/// A backspace leaves a test under way, counts no keystroke and is no
/// keystroke itself.
pub proof fn lemma_undo_char(v: TestView)
    requires
        wf(v),
    ensures
        wf(undo_char_spec(v)),
        undo_char_spec(v).pmiss == v.pmiss,
        undo_char_spec(v).first == v.first,
{
    if v.done > 0 {
        lemma_undo_here(v);
    } else if v.up.len() > 0 {
        lemma_regress(v);
        lemma_undo_here(regress_line_spec(v));
    }
}

/// The cursor rests on a glyph or stands behind the last cell; the character
/// to compare with may be out of date.
pub open spec fn on_glyph(v: TestView) -> bool {
    &&& wf_base(v)
    &&& v.done < v.active.len() ==> !is_space(v.active[v.done]) && !is_blank_at(
        v.active,
        v.done,
    )
}

/// Taking back a space under the cursor, what its blank holds and the glyph
/// before it puts the cursor on that glyph.
pub proof fn lemma_undo_boundary(v: TestView)
    requires
        wf_base(v),
        v.done < v.active.len(),
        is_space(v.active[v.done]),
    ensures
        on_glyph(undo_boundary_spec(v)),
        undo_boundary_spec(v).done == v.done - 2,
        undo_boundary_spec(v).done >= 0,
        undo_boundary_spec(v).pmiss == v.pmiss,
        undo_boundary_spec(v).first == v.first,
        v.extra_mistakes >= v.active[v.done - 1].content.len(),
        v.cursor_x > v.active[v.done - 1].content.len() + 1,
        v.blanks >= 1,
        v.active[v.done - 2].role == Role::Wrong ==> v.mistakes >= 1,
{
    let w = undo_boundary_spec(v);
    let j = v.done - 1;
    let d = v.done - 2;
    lemma_shape_facts(v.active, v.done);
    lemma_shape_facts(v.active, j);
    lemma_shape_facts(v.active, d);
    let x = v.active[j].content.len() as int;
    let cell1 = CellView { content: Seq::<char>::empty(), role: v.active[j].role };
    let l1 = v.active.update(j, cell1);
    lemma_shape_update(v.active, j, cell1);
    lemma_typed_same(v.active, v.done, j, cell1);
    lemma_update_keeps_kinds(v.active, j, cell1);
    lemma_typed_unskip(l1, v.done);
    let cell2 = CellView { content: l1[d].content, role: Role::Todo };
    let l2 = l1.update(d, cell2);
    lemma_shape_update(l1, d, cell2);
    lemma_typed_back(l1, j, cell2);
    lemma_update_keeps_kinds(l1, d, cell2);
    lemma_counts_update(v.active, j, cell1, d);
    lemma_counts_update(l1, d, cell2, d);
    assert(w.active == l2);
    assert(cell_typed(v.active, d));
    assert(width_of(v.active, v.done) == width_of(v.active, j) + x);
    assert(width_of(v.active, j) == width_of(v.active, d) + 1);
    assert(mistakes_in(v.active, v.done) == mistakes_in(v.active, j));
    assert(blanks_in(v.active, v.done) == blanks_in(v.active, j) + 1);
    assert(extras_in(v.active, v.done) == extras_in(v.active, j) + x);
    assert(mistakes_in(v.active, j) == mistakes_in(v.active, d) + if is_mistake_at(v.active, d) {
        1int
    } else {
        0
    });
    assert(blanks_in(v.active, j) == blanks_in(v.active, d));
    assert(extras_in(v.active, j) == extras_in(v.active, d));
    lemma_counts_bounds(v.active, d);
    lemma_counts_bounds(v.up, v.up.len() as int);
}

/// Taking back a typed space before the cursor puts the cursor on it.
pub proof fn lemma_untype_space(v: TestView)
    requires
        on_glyph(v),
        v.done > 0,
        is_space(v.active[v.done - 1]),
    ensures
        ({
            let w = TestView {
                done: v.done - 1,
                cursor_x: v.cursor_x - 1,
                active: paint(v.active, v.done - 1, Role::Todo),
                ..v
            };
            &&& wf_base(w)
            &&& is_space(w.active[w.done])
            &&& w.active[w.done - 1] == v.active[v.done - 2]
            &&& w.active[w.done - 2] == v.active[v.done - 3]
        }),
        v.done >= 3,
        v.cursor_x >= 2,
{
    let d = v.done - 1;
    let cell = CellView { content: v.active[d].content, role: Role::Todo };
    lemma_shape_facts(v.active, d);
    lemma_shape_update(v.active, d, cell);
    lemma_typed_back(v.active, v.done, cell);
    lemma_counts_update(v.active, d, cell, d);
    lemma_update_keeps_kinds(v.active, d, cell);
    assert(cell_typed(v.active, d));
    lemma_counts_bounds(v.active, d);
}

/// Taking back the glyph before the cursor, where one stands there.
pub proof fn lemma_rewind_step(v: TestView)
    requires
        on_glyph(v),
        v.done > 0,
        !is_space(v.active[v.done - 1]),
    ensures
        ({
            let d = v.done - 1;
            let w = TestView {
                cursor_x: v.cursor_x - 1,
                done: d,
                mistakes: deduct_spec(v, d),
                active: paint(v.active, d, Role::Todo),
                ..v
            };
            &&& on_glyph(w)
            &&& w.done < w.active.len()
        }),
        v.cursor_x >= 2,
        v.active[v.done - 1].role == Role::Wrong ==> v.mistakes >= 1,
{
    let d = v.done - 1;
    let cell = CellView { content: v.active[d].content, role: Role::Todo };
    lemma_shape_facts(v.active, d);
    if v.done < v.active.len() {
        lemma_shape_facts(v.active, v.done);
    }
    assert(!is_blank_at(v.active, d));
    lemma_shape_update(v.active, d, cell);
    lemma_typed_back(v.active, v.done, cell);
    lemma_counts_update(v.active, d, cell, d);
    lemma_update_keeps_kinds(v.active, d, cell);
    assert(cell_typed(v.active, d));
    lemma_counts_bounds(v.active, d);
    lemma_counts_bounds(v.up, v.up.len() as int);
}

/// Rewinding to the start of the word keeps the cursor on a glyph.
pub proof fn lemma_rewind_word(v: TestView)
    requires
        on_glyph(v),
    ensures
        on_glyph(rewind_word_spec(v)),
        rewind_word_spec(v).done <= v.done,
        v.done > 0 && !is_space(v.active[v.done - 1]) ==> rewind_word_spec(v).done < v.done,
        rewind_word_spec(v).pmiss == v.pmiss,
        rewind_word_spec(v).first == v.first,
        rewind_word_spec(v).active.len() == v.active.len(),
    decreases v.done,
{
    if v.done > 0 && !is_space(v.active[v.done - 1]) {
        lemma_rewind_step(v);
        let d = v.done - 1;
        let w = TestView {
            cursor_x: v.cursor_x - 1,
            done: d,
            mistakes: deduct_spec(v, d),
            active: paint(v.active, d, Role::Todo),
            ..v
        };
        lemma_rewind_word(w);
    }
}

/// Undoing a word leaves a test under way and counts no keystroke.
pub proof fn lemma_undo_word(v: TestView)
    requires
        wf(v),
    ensures
        wf(undo_word_spec(v)),
        undo_word_spec(v).pmiss == v.pmiss,
        undo_word_spec(v).first == v.first,
{
    if v.done == 0 && v.up.len() == 0 {
    } else {
        let v0 = if v.done == 0 {
            regress_line_spec(v)
        } else {
            v
        };
        if v.done == 0 {
            lemma_regress(v);
        } else {
            lemma_cursor_cell(v);
        }
        assert(wf_base(v0));
        let v1 = if v0.current_char == ' ' {
            undo_boundary_spec(v0)
        } else if is_space(v0.active[v0.done - 1]) {
            undo_boundary_spec(
                TestView {
                    done: v0.done - 1,
                    cursor_x: v0.cursor_x - 1,
                    active: paint(v0.active, v0.done - 1, Role::Todo),
                    ..v0
                },
            )
        } else {
            v0
        };
        if v0.current_char == ' ' {
            lemma_undo_boundary(v0);
        } else if is_space(v0.active[v0.done - 1]) {
            lemma_untype_space(v0);
            lemma_undo_boundary(
                TestView {
                    done: v0.done - 1,
                    cursor_x: v0.cursor_x - 1,
                    active: paint(v0.active, v0.done - 1, Role::Todo),
                    ..v0
                },
            );
        }
        assert(on_glyph(v1));
        lemma_rewind_word(v1);
        let v2 = rewind_word_spec(v1);
        assert(v2.done < v2.active.len());
        lemma_shape_facts(v2.active, v2.done);
    }
}

} // verus!
