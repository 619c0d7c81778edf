//! The typing test as a mathematical state machine: the value of an engine,
//! what each event does to it, and what holds of every state that the engine
//! reaches.

use crate::cell::{
    blanks_in, extras_in, is_blank_at, is_space, line_ready, line_shaped, mistakes_in,
    rendered_width, typed_to, width_of, CellView, Role, MAX_EXTRA_MISTAKES,
};
use vstd::prelude::*;

verus! {

/// The value of the engine's state.
pub struct TestView {
    /// The line above the active one, kept for undoing; empty if there is none.
    pub up: Seq<CellView>,
    /// The line being typed; empty once the test is finished.
    pub active: Seq<CellView>,
    /// The line below the active one; empty if there is none.
    pub down: Seq<CellView>,
    /// The lines after `down`, the next one last.
    pub backburner: Seq<Seq<CellView>>,
    /// Cells completed on the active line.
    pub done: int,
    /// Cells completed on the lines before it.
    pub pdone: int,
    /// Blanks among the completed cells.
    pub blanks: int,
    /// Glyphs among the completed cells that are marked wrong.
    pub mistakes: int,
    /// Characters that the blanks hold.
    pub extra_mistakes: int,
    /// Wrong keystrokes so far, whether taken back or not.
    pub pmiss: int,
    /// Column of the cursor, counted from one.
    pub cursor_x: int,
    /// The character that the next keystroke is compared with.
    pub current_char: char,
    /// Number of cells of the active line.
    pub length: int,
    /// No character has been typed yet.
    pub first: bool,
}

/// Number of cells in a list of lines.
pub open spec fn total_cells(lines: Seq<Seq<CellView>>) -> int
    decreases lines.len(),
{
    if lines.len() == 0 {
        0
    } else {
        total_cells(lines.drop_last()) + lines.last().len()
    }
}

/// A line with the role of one cell replaced.
pub open spec fn paint(line: Seq<CellView>, i: int, role: Role) -> Seq<CellView> {
    line.update(i, CellView { content: line[i].content, role })
}

/// A line with the content of one cell replaced.
pub open spec fn rewrite(line: Seq<CellView>, i: int, content: Seq<char>) -> Seq<CellView> {
    line.update(i, CellView { content, role: line[i].role })
}

/// What holds of the state between any two events, whether the cursor rests
/// on a cell or stands behind the last one.
pub open spec fn wf_base(v: TestView) -> bool {
    &&& line_shaped(v.active)
    &&& v.active.len() > 0
    &&& v.length == v.active.len()
    &&& 0 <= v.done <= v.active.len()
    &&& typed_to(v.active, v.done)
    &&& v.cursor_x == 1 + width_of(v.active, v.done)
    &&& v.up.len() > 0 ==> line_shaped(v.up) && typed_to(v.up, v.up.len() as int)
    &&& v.down.len() > 0 ==> line_ready(v.down)
    &&& v.down.len() == 0 ==> v.backburner.len() == 0
    &&& forall|i: int|
        0 <= i < v.backburner.len() ==> line_ready(#[trigger] v.backburner[i]) || (i == 0
            && v.backburner[i].len() == 0)
    &&& counts_ok(v, v.active, v.up)
    &&& MAX_EXTRA_MISTAKES * (v.pdone + v.active.len() + v.down.len() + total_cells(
        v.backburner,
    )) <= usize::MAX
}

/// The counters cover what the line under the cursor and the line above it
/// show, and what they count beyond that lies within the lines left behind.
pub open spec fn counts_ok(v: TestView, current: Seq<CellView>, above: Seq<CellView>) -> bool {
    let m = mistakes_in(above, above.len() as int) + mistakes_in(current, v.done);
    let b = blanks_in(above, above.len() as int) + blanks_in(current, v.done);
    let e = extras_in(above, above.len() as int) + extras_in(current, v.done);
    &&& v.mistakes >= m
    &&& v.blanks >= b
    &&& v.extra_mistakes >= e
    &&& v.extra_mistakes - e <= MAX_EXTRA_MISTAKES * (v.blanks - b)
    &&& v.pmiss >= 0
    &&& v.pdone >= above.len() + (v.mistakes - m) + (v.blanks - b)
}

/// The state of a test that is under way: the cursor rests on a glyph or a
/// space of the active line.
pub open spec fn wf(v: TestView) -> bool {
    &&& wf_base(v)
    &&& v.done < v.active.len()
    &&& !is_blank_at(v.active, v.done)
    &&& v.current_char == v.active[v.done].content[0]
}

/// The state of a finished test: the last line has moved up, fully typed.
pub open spec fn wf_finished(v: TestView) -> bool {
    &&& v.active.len() == 0
    &&& v.down.len() == 0
    &&& v.up.len() > 0
    &&& line_shaped(v.up)
    &&& typed_to(v.up, v.up.len() as int)
    &&& v.done == v.up.len()
    &&& counts_ok(v, v.up, Seq::empty())
    &&& MAX_EXTRA_MISTAKES * (v.pdone + v.up.len()) <= usize::MAX
}

/// The counters can be summed up: what is not a correct character is among
/// the cells that were completed, and their count fits the machine.
pub open spec fn counts_fit(v: TestView) -> bool {
    v.blanks + v.mistakes <= v.pdone + v.done <= usize::MAX
}

/// The cursor stands where no event has yet moved it from: no cell of the
/// line is completed and no line is kept above.
pub open spec fn at_start(v: TestView) -> bool {
    v.done == 0 && v.up.len() == 0
}

/// Characters typed correctly and still standing.
pub open spec fn correct_chars(v: TestView) -> int {
    v.pdone + v.done - v.blanks - v.mistakes
}

// ---------------------------------------------------------------------------
// Events
// ---------------------------------------------------------------------------
/// Loads the character under the cursor.
pub open spec fn set_next_char_spec(v: TestView) -> TestView {
    TestView { current_char: v.active[v.done].content[0], ..v }
}

/// Loads the character under the cursor; an empty cell is stepped over and
/// counted as a blank.
pub open spec fn skip_blank_spec(v: TestView) -> TestView {
    if v.active[v.done].content.len() > 0 {
        TestView { current_char: v.active[v.done].content[0], ..v }
    } else {
        TestView {
            done: v.done + 1,
            blanks: v.blanks + 1,
            current_char: v.active[v.done + 1].content[0],
            ..v
        }
    }
}

/// Moves one line on. The flag tells that there was no line to move to.
pub open spec fn progress_line_spec(v: TestView) -> (TestView, bool) {
    if v.down.len() == 0 {
        (TestView { up: v.active, active: Seq::empty(), ..v }, true)
    } else {
        (
            TestView {
                up: v.active,
                active: v.down,
                down: if v.backburner.len() > 0 {
                    v.backburner.last()
                } else {
                    Seq::empty()
                },
                backburner: if v.backburner.len() > 0 {
                    v.backburner.drop_last()
                } else {
                    v.backburner
                },
                pdone: v.pdone + v.done,
                done: 0,
                cursor_x: 1,
                length: v.down.len() as int,
                current_char: v.down[0].content[0],
                ..v
            },
            false,
        )
    }
}

/// Moves one line back, to the end of the line above.
pub open spec fn regress_line_spec(v: TestView) -> TestView {
    TestView {
        backburner: v.backburner.push(v.down),
        down: v.active,
        active: v.up,
        up: Seq::empty(),
        length: v.up.len() as int,
        pdone: v.pdone - v.up.len(),
        done: v.up.len() as int,
        cursor_x: 1 + rendered_width(v.up),
        ..v
    }
}

/// After a cell was completed: loads the next character, or moves a line on.
pub open spec fn advance_spec(v: TestView) -> (TestView, bool) {
    if v.done < v.length {
        (skip_blank_spec(v), false)
    } else {
        progress_line_spec(v)
    }
}

/// A keystroke. The flag tells that it finished the test.
pub open spec fn on_char_spec(v: TestView, c: char) -> (TestView, bool) {
    let v = TestView { first: false, ..v };
    if c == v.current_char {
        advance_spec(
            TestView {
                active: paint(v.active, v.done, Role::Done),
                done: v.done + 1,
                cursor_x: v.cursor_x + 1,
                ..v
            },
        )
    } else if v.current_char == ' ' {
        if v.active[v.done - 1].content.len() < MAX_EXTRA_MISTAKES {
            (
                TestView {
                    pmiss: v.pmiss + 1,
                    extra_mistakes: v.extra_mistakes + 1,
                    cursor_x: v.cursor_x + 1,
                    active: rewrite(v.active, v.done - 1, v.active[v.done - 1].content.push(c)),
                    ..v
                },
                false,
            )
        } else {
            (TestView { pmiss: v.pmiss + 1, ..v }, false)
        }
    } else {
        advance_spec(
            TestView {
                mistakes: v.mistakes + 1,
                pmiss: v.pmiss + 1,
                active: paint(v.active, v.done, Role::Wrong),
                done: v.done + 1,
                cursor_x: v.cursor_x + 1,
                ..v
            },
        )
    }
}

/// The count of mistakes once the cell at `index` is no longer typed.
pub open spec fn deduct_spec(v: TestView, index: int) -> int {
    if v.active[index].role == Role::Wrong {
        v.mistakes - 1
    } else {
        v.mistakes
    }
}

/// Takes back the cell before the cursor, with the cursor on the active line
/// and not at its start.
pub open spec fn undo_here_spec(v: TestView) -> TestView {
    if v.current_char == ' ' {
        if v.active[v.done - 1].content.len() == 0 {
            let d = v.done - 2;
            TestView {
                cursor_x: v.cursor_x - 1,
                mistakes: deduct_spec(v, d),
                done: d,
                blanks: v.blanks - 1,
                current_char: v.active[d].content[0],
                active: paint(v.active, d, Role::Todo),
                ..v
            }
        } else {
            TestView {
                cursor_x: v.cursor_x - 1,
                extra_mistakes: v.extra_mistakes - 1,
                active: rewrite(v.active, v.done - 1, v.active[v.done - 1].content.drop_last()),
                ..v
            }
        }
    } else {
        let d = v.done - 1;
        TestView {
            cursor_x: v.cursor_x - 1,
            mistakes: deduct_spec(v, d),
            done: d,
            current_char: v.active[d].content[0],
            active: paint(v.active, d, Role::Todo),
            ..v
        }
    }
}

/// A backspace.
pub open spec fn undo_char_spec(v: TestView) -> TestView {
    if v.done > 0 {
        undo_here_spec(v)
    } else if v.up.len() > 0 {
        undo_here_spec(regress_line_spec(v))
    } else {
        v
    }
}

/// Takes back a space that the cursor rests on, the characters in its blank
/// and the last glyph of the word before it.
pub open spec fn undo_boundary_spec(v: TestView) -> TestView {
    let x = v.active[v.done - 1].content.len() as int;
    let d = v.done - 2;
    TestView {
        extra_mistakes: v.extra_mistakes - x,
        cursor_x: v.cursor_x - (x + 1),
        active: paint(rewrite(v.active, v.done - 1, Seq::empty()), d, Role::Todo),
        done: d,
        mistakes: deduct_spec(v, d),
        blanks: v.blanks - 1,
        ..v
    }
}

/// Takes back glyph after glyph until the cursor stands at the start of the
/// line or behind a space.
pub open spec fn rewind_word_spec(v: TestView) -> TestView
    decreases v.done,
{
    if v.done > 0 && !is_space(v.active[v.done - 1]) {
        let d = v.done - 1;
        rewind_word_spec(
            TestView {
                cursor_x: v.cursor_x - 1,
                done: d,
                mistakes: deduct_spec(v, d),
                active: paint(v.active, d, Role::Todo),
                ..v
            },
        )
    } else {
        v
    }
}

/// Undoing a word.
pub open spec fn undo_word_spec(v: TestView) -> TestView {
    if v.done == 0 && v.up.len() == 0 {
        v
    } else {
        let v0 = if v.done == 0 {
            regress_line_spec(v)
        } else {
            v
        };
        let v1 = if v0.current_char == ' ' {
            undo_boundary_spec(v0)
        } else if is_space(v0.active[v0.done - 1]) {
            undo_boundary_spec(
                TestView {
                    done: v0.done - 1,
                    cursor_x: v0.cursor_x - 1,
                    active: paint(v0.active, v0.done - 1, Role::Todo),
                    ..v0
                },
            )
        } else {
            v0
        };
        set_next_char_spec(rewind_word_spec(v1))
    }
}

} // verus!
