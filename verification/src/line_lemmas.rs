//! Facts about the counts and the shape of a line, and how they change when
//! one cell is replaced.

use crate::cell::{
    blank_ok, blanks_in, cell_fresh, cell_shaped, cell_typed, extras_in, is_blank_at,
    is_mistake_at, is_space, line_shaped, mistakes_in, spaces_in, typed_to, width_of, CellView,
    Role, MAX_EXTRA_MISTAKES,
};
use vstd::prelude::*;

verus! {

/// The counts over a prefix are not negative, blanks and mistakes are
/// different cells, and a blank shows no more than its limit.
pub proof fn lemma_counts_bounds(line: Seq<CellView>, n: int)
    requires
        0 <= n <= line.len(),
    ensures
        0 <= mistakes_in(line, n),
        0 <= blanks_in(line, n),
        0 <= spaces_in(line, n),
        0 <= extras_in(line, n) <= width_of(line, n),
        mistakes_in(line, n) + blanks_in(line, n) <= n,
        line_shaped(line) ==> width_of(line, n) <= n + (MAX_EXTRA_MISTAKES - 1) * blanks_in(line, n),
        line_shaped(line) ==> extras_in(line, n) <= MAX_EXTRA_MISTAKES * blanks_in(line, n),
        line_shaped(line) ==> width_of(line, n) == n - blanks_in(line, n) + extras_in(line, n),
    decreases n,
{
    if n > 0 {
        lemma_counts_bounds(line, n - 1);
        if line_shaped(line) {
            assert(cell_shaped(line, n - 1));
        }
    }
}

/// The counts over a shorter prefix are no larger.
pub proof fn lemma_counts_monotone(line: Seq<CellView>, m: int, n: int)
    requires
        0 <= m <= n <= line.len(),
    ensures
        mistakes_in(line, m) <= mistakes_in(line, n),
        blanks_in(line, m) <= blanks_in(line, n),
        extras_in(line, m) <= extras_in(line, n),
        width_of(line, m) <= width_of(line, n),
        spaces_in(line, m) <= spaces_in(line, n),
    decreases n - m,
{
    if m < n {
        lemma_counts_monotone(line, m, n - 1);
    }
}

/// A cell within a prefix is counted in it.
pub proof fn lemma_counted(line: Seq<CellView>, d: int, n: int)
    requires
        0 <= d < n <= line.len(),
    ensures
        is_mistake_at(line, d) ==> mistakes_in(line, n) >= 1,
        is_blank_at(line, d) ==> blanks_in(line, n) >= 1,
        is_blank_at(line, d) ==> extras_in(line, n) >= line[d].content.len(),
        is_space(line[d]) ==> spaces_in(line, n) >= 1,
        width_of(line, n) >= line[d].content.len(),
{
    lemma_counts_monotone(line, d + 1, n);
    lemma_counts_bounds(line, d);
}

/// Replacing a cell by one that is a space exactly if the old one was leaves
/// every cell what it was: blank, space or glyph.
pub proof fn lemma_update_keeps_kinds(line: Seq<CellView>, j: int, cell: CellView)
    requires
        0 <= j < line.len(),
        is_space(cell) == is_space(line[j]),
    ensures
        forall|i: int| is_blank_at(line.update(j, cell), i) == is_blank_at(line, i),
        forall|i: int|
            0 <= i < line.len() ==> is_space(#[trigger] line.update(j, cell)[i]) == is_space(
                line[i],
            ),
{
    let l2 = line.update(j, cell);
    assert forall|i: int| is_blank_at(l2, i) == is_blank_at(line, i) by {
        if 0 <= i && i + 1 < line.len() {
            assert(is_space(l2[i + 1]) == is_space(line[i + 1]));
        }
    }
}

/// How the counts over a prefix change when one cell is replaced.
pub proof fn lemma_counts_update(line: Seq<CellView>, j: int, cell: CellView, n: int)
    requires
        0 <= j < line.len(),
        0 <= n <= line.len(),
        is_space(cell) == is_space(line[j]),
    ensures
        blanks_in(line.update(j, cell), n) == blanks_in(line, n),
        spaces_in(line.update(j, cell), n) == spaces_in(line, n),
        mistakes_in(line.update(j, cell), n) == mistakes_in(line, n) + (if j < n {
            (if is_mistake_at(line.update(j, cell), j) {
                1int
            } else {
                0
            }) - (if is_mistake_at(line, j) {
                1int
            } else {
                0
            })
        } else {
            0
        }),
        extras_in(line.update(j, cell), n) == extras_in(line, n) + (if j < n && is_blank_at(
            line,
            j,
        ) {
            cell.content.len() - line[j].content.len()
        } else {
            0
        }),
        width_of(line.update(j, cell), n) == width_of(line, n) + (if j < n {
            cell.content.len() - line[j].content.len()
        } else {
            0
        }),
    decreases n,
{
    lemma_update_keeps_kinds(line, j, cell);
    if n > 0 {
        lemma_counts_update(line, j, cell, n - 1);
        let l2 = line.update(j, cell);
        if n - 1 != j {
            assert(l2[n - 1] == line[n - 1]);
            assert(is_mistake_at(l2, n - 1) == is_mistake_at(line, n - 1));
        }
    }
}

/// Replacing a cell keeps the shape of the line if the new cell is of the kind
/// of the old one: a blank stays within its limit, a space is not marked
/// wrong, and a glyph keeps one character.
pub proof fn lemma_shape_update(line: Seq<CellView>, j: int, cell: CellView)
    requires
        line_shaped(line),
        0 <= j < line.len(),
        is_space(cell) == is_space(line[j]),
        is_blank_at(line, j) ==> blank_ok(cell),
        !is_blank_at(line, j) ==> cell.content.len() == 1,
        is_space(cell) ==> cell.role != Role::Wrong,
    ensures
        line_shaped(line.update(j, cell)),
{
    let l2 = line.update(j, cell);
    lemma_update_keeps_kinds(line, j, cell);
    assert forall|i: int| 0 <= i < l2.len() implies #[trigger] cell_shaped(l2, i) by {
        assert(cell_shaped(line, i));
        if is_space(line[i]) {
            assert(is_space(l2[i]));
            assert(is_space(l2[i - 1]) == is_space(line[i - 1]));
            assert(is_space(l2[i - 2]) == is_space(line[i - 2]));
        }
    }
}

/// In a shaped line a space stands behind a blank and a glyph, the first
/// cell is a glyph and the last is no blank.
pub proof fn lemma_shape_facts(line: Seq<CellView>, i: int)
    requires
        line_shaped(line),
        0 <= i < line.len(),
    ensures
        is_space(line[i]) ==> i >= 2 && is_blank_at(line, i - 1) && !is_blank_at(line, i)
            && !is_blank_at(line, i - 2) && !is_space(line[i - 2]) && line[i - 2].content.len()
            == 1 && blank_ok(line[i - 1]),
        is_blank_at(line, i) ==> i >= 1 && !is_space(line[i]) && !is_blank_at(line, i - 1)
            && !is_space(line[i - 1]) && line[i - 1].content.len() == 1 && blank_ok(line[i]),
        !is_blank_at(line, i) ==> line[i].content.len() == 1,
        i == 0 ==> !is_blank_at(line, i) && !is_space(line[i]),
        line[i].content.len() <= MAX_EXTRA_MISTAKES,
{
    assert(cell_shaped(line, i));
    if i + 1 < line.len() {
        assert(cell_shaped(line, i + 1));
    }
    if i >= 1 {
        assert(cell_shaped(line, i - 1));
    }
    if i >= 2 {
        assert(cell_shaped(line, i - 2));
    }
    if is_blank_at(line, i) {
        if is_space(line[i]) {
            // A space is never followed by a space.
            assert(cell_shaped(line, i + 1));
            assert(false);
        }
    }
}

/// Painting the cell under the cursor and moving the cursor past it keeps the
/// line typed up to the cursor.
pub proof fn lemma_typed_step(line: Seq<CellView>, done: int, cell: CellView)
    requires
        0 <= done < line.len(),
        typed_to(line, done),
        is_space(cell) == is_space(line[done]),
        is_blank_at(line, done) || (if is_space(cell) {
            cell.role == Role::Done
        } else {
            cell.role != Role::Todo
        }),
    ensures
        typed_to(line.update(done, cell), done + 1),
{
    let l2 = line.update(done, cell);
    lemma_update_keeps_kinds(line, done, cell);
    assert forall|i: int| 0 <= i < done + 1 && i < l2.len() implies #[trigger] cell_typed(
        l2,
        i,
    ) by {
        if i < done {
            assert(cell_typed(line, i));
        }
    }
    assert forall|i: int| done + 1 <= i < l2.len() implies #[trigger] cell_fresh(l2, i) by {
        assert(cell_fresh(line, i));
    }
}

/// Making the cell before the cursor fresh again and moving the cursor onto
/// it keeps the line typed up to the cursor.
pub proof fn lemma_typed_back(line: Seq<CellView>, done: int, cell: CellView)
    requires
        0 < done <= line.len(),
        typed_to(line, done),
        is_space(cell) == is_space(line[done - 1]),
        if is_blank_at(line, done - 1) {
            cell.content.len() == 0
        } else {
            cell.role == Role::Todo
        },
    ensures
        typed_to(line.update(done - 1, cell), done - 1),
{
    let l2 = line.update(done - 1, cell);
    lemma_update_keeps_kinds(line, done - 1, cell);
    assert forall|i: int| 0 <= i < done - 1 && i < l2.len() implies #[trigger] cell_typed(
        l2,
        i,
    ) by {
        assert(cell_typed(line, i));
    }
    assert forall|i: int| done - 1 <= i < l2.len() implies #[trigger] cell_fresh(l2, i) by {
        if i >= done {
            assert(cell_fresh(line, i));
        }
    }
}

/// Replacing a typed cell before the cursor by another typed cell keeps the
/// line typed up to the cursor.
pub proof fn lemma_typed_same(line: Seq<CellView>, done: int, j: int, cell: CellView)
    requires
        0 <= j < done <= line.len(),
        typed_to(line, done),
        is_space(cell) == is_space(line[j]),
        is_blank_at(line, j) || (if is_space(cell) {
            cell.role == Role::Done
        } else {
            cell.role != Role::Todo
        }),
    ensures
        typed_to(line.update(j, cell), done),
{
    let l2 = line.update(j, cell);
    lemma_update_keeps_kinds(line, j, cell);
    assert forall|i: int| 0 <= i < done && i < l2.len() implies #[trigger] cell_typed(l2, i) by {
        assert(cell_typed(line, i));
    }
    assert forall|i: int| done <= i < l2.len() implies #[trigger] cell_fresh(l2, i) by {
        assert(cell_fresh(line, i));
    }
}

/// A line typed up to a cursor is typed up to the cell behind it if that cell
/// is an empty blank.
pub proof fn lemma_typed_skip(line: Seq<CellView>, done: int)
    requires
        0 <= done < line.len(),
        typed_to(line, done),
        is_blank_at(line, done),
    ensures
        typed_to(line, done + 1),
{
    assert forall|i: int| 0 <= i < done + 1 && i < line.len() implies #[trigger] cell_typed(
        line,
        i,
    ) by {
        if i < done {
            assert(cell_typed(line, i));
        }
    }
    assert forall|i: int| done + 1 <= i < line.len() implies #[trigger] cell_fresh(line, i) by {
        assert(cell_fresh(line, i));
    }
}

/// The cursor may step back over an empty blank.
pub proof fn lemma_typed_unskip(line: Seq<CellView>, done: int)
    requires
        0 < done <= line.len(),
        typed_to(line, done),
        is_blank_at(line, done - 1),
        line[done - 1].content.len() == 0,
    ensures
        typed_to(line, done - 1),
{
    assert forall|i: int| 0 <= i < done - 1 && i < line.len() implies #[trigger] cell_typed(
        line,
        i,
    ) by {
        assert(cell_typed(line, i));
    }
    assert forall|i: int| done - 1 <= i < line.len() implies #[trigger] cell_fresh(line, i) by {
        if i >= done {
            assert(cell_fresh(line, i));
        }
    }
}

} // verus!
