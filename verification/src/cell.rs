//! Display cells and the shape of a line of them.
//!
//! A line is made of three kinds of cell. A glyph holds one character to type.
//! A space holds the separator between two words. Directly before every space
//! stands a blank: a cell that is empty until characters are typed past the end
//! of the word, which it then collects.

use vstd::prelude::*;

verus! {

/// Most characters that a blank collects.
pub const MAX_EXTRA_MISTAKES: usize = 3;

/// Most cells in a line that the engine accepts; it keeps the cursor column
/// within sixteen bits.
pub const MAX_LINE_CELLS: usize = 16000;

/// What has happened to a cell.
#[derive(Clone, Copy, PartialEq, Eq, Debug, Hash, Structural)]
pub enum Role {
    /// Not typed yet.
    Todo,
    /// Typed correctly.
    Done,
    /// Typed wrongly, or holding characters that were typed in excess.
    Wrong,
}

/// One cell of displayed text.
#[derive(Clone, PartialEq, Eq, Debug)]
pub struct Cell {
    pub content: Vec<char>,
    pub role: Role,
}

/// The value of a cell.
pub struct CellView {
    pub content: Seq<char>,
    pub role: Role,
}

impl View for Cell {
    type V = CellView;

    open spec fn view(&self) -> CellView {
        CellView { content: self.content@, role: self.role }
    }
}

/// The values of the cells of a line.
pub open spec fn line_view(line: Seq<Cell>) -> Seq<CellView> {
    Seq::new(line.len(), |i: int| line[i]@)
}

/// The values of the cells of a list of lines.
pub open spec fn lines_view(lines: Seq<Vec<Cell>>) -> Seq<Seq<CellView>> {
    Seq::new(lines.len(), |i: int| line_view(lines[i]@))
}

pub open spec fn glyph(c: char) -> CellView {
    CellView { content: seq![c], role: Role::Todo }
}

pub open spec fn blank() -> CellView {
    CellView { content: Seq::empty(), role: Role::Wrong }
}

pub open spec fn space() -> CellView {
    CellView { content: seq![' '], role: Role::Todo }
}

/// The two cells that end a word: an empty blank and the space.
pub open spec fn boundary() -> Seq<CellView> {
    seq![blank(), space()]
}

/// One fresh glyph for each character.
pub open spec fn glyphs(chars: Seq<char>) -> Seq<CellView> {
    Seq::new(chars.len(), |i: int| glyph(chars[i]))
}

pub open spec fn is_space(cell: CellView) -> bool {
    cell.content.len() == 1 && cell.content[0] == ' '
}

/// The cell at `i` is a blank: the cell after it is a space.
pub open spec fn is_blank_at(line: Seq<CellView>, i: int) -> bool {
    0 <= i && i + 1 < line.len() && is_space(line[i + 1])
}

/// The cell at `i` holds one character to be typed other than the separator.
pub open spec fn is_glyph_at(line: Seq<CellView>, i: int) -> bool {
    0 <= i < line.len() && !is_space(line[i]) && !is_blank_at(line, i)
}

/// What a blank may hold: at most `MAX_EXTRA_MISTAKES` characters, none of them
/// the separator.
pub open spec fn blank_ok(cell: CellView) -> bool {
    &&& cell.role == Role::Wrong
    &&& cell.content.len() <= MAX_EXTRA_MISTAKES
    &&& forall|k: int| 0 <= k < cell.content.len() ==> cell.content[k] != ' '
}

/// The cell at `i` fits the shape of a line.
pub open spec fn cell_shaped(line: Seq<CellView>, i: int) -> bool {
    &&& line[i].content.len() == 1 || is_blank_at(line, i)
    &&& is_space(line[i]) ==> i >= 2 && !is_space(line[i - 1]) && !is_space(line[i - 2])
        && line[i].role != Role::Wrong
    &&& is_blank_at(line, i) ==> blank_ok(line[i])
}

/// A line begins with a glyph, every space follows a glyph and a blank, and
/// nothing else is in it.
pub open spec fn line_shaped(line: Seq<CellView>) -> bool {
    &&& line.len() <= MAX_LINE_CELLS
    &&& forall|i: int| 0 <= i < line.len() ==> #[trigger] cell_shaped(line, i)
}

/// The cell at `i` has been typed.
pub open spec fn cell_typed(line: Seq<CellView>, i: int) -> bool {
    if is_blank_at(line, i) {
        true
    } else if is_space(line[i]) {
        line[i].role == Role::Done
    } else {
        line[i].role != Role::Todo
    }
}

/// The cell at `i` is as the generator made it.
pub open spec fn cell_fresh(line: Seq<CellView>, i: int) -> bool {
    if is_blank_at(line, i) {
        line[i].content.len() == 0
    } else {
        line[i].role == Role::Todo
    }
}

/// The first `done` cells have been typed and the rest are untouched.
pub open spec fn typed_to(line: Seq<CellView>, done: int) -> bool {
    &&& forall|i: int| 0 <= i < done && i < line.len() ==> #[trigger] cell_typed(line, i)
    &&& forall|i: int| done <= i < line.len() ==> #[trigger] cell_fresh(line, i)
}

/// A line that can become the active one: shaped, not empty and untouched.
pub open spec fn line_ready(line: Seq<CellView>) -> bool {
    line.len() > 0 && line_shaped(line) && typed_to(line, 0)
}

/// The cell at `i` is a glyph that was typed wrongly.
pub open spec fn is_mistake_at(line: Seq<CellView>, i: int) -> bool {
    line[i].role == Role::Wrong && !is_blank_at(line, i)
}

/// Number of wrongly typed glyphs among the first `n` cells.
pub open spec fn mistakes_in(line: Seq<CellView>, n: int) -> int
    decreases n,
{
    if n <= 0 {
        0
    } else {
        mistakes_in(line, n - 1) + if is_mistake_at(line, n - 1) { 1int } else { 0 }
    }
}

/// Number of blanks among the first `n` cells.
pub open spec fn blanks_in(line: Seq<CellView>, n: int) -> int
    decreases n,
{
    if n <= 0 {
        0
    } else {
        blanks_in(line, n - 1) + if is_blank_at(line, n - 1) { 1int } else { 0 }
    }
}

/// Number of characters that the blanks among the first `n` cells hold.
pub open spec fn extras_in(line: Seq<CellView>, n: int) -> int
    decreases n,
{
    if n <= 0 {
        0
    } else {
        extras_in(line, n - 1) + if is_blank_at(line, n - 1) {
            line[n - 1].content.len() as int
        } else {
            0
        }
    }
}

/// Number of characters that the first `n` cells show.
pub open spec fn width_of(line: Seq<CellView>, n: int) -> int
    decreases n,
{
    if n <= 0 {
        0
    } else {
        width_of(line, n - 1) + line[n - 1].content.len()
    }
}

/// Number of characters that a whole line shows.
pub open spec fn rendered_width(line: Seq<CellView>) -> int {
    width_of(line, line.len() as int)
}

/// Number of spaces among the first `n` cells.
pub open spec fn spaces_in(line: Seq<CellView>, n: int) -> int
    decreases n,
{
    if n <= 0 {
        0
    } else {
        spaces_in(line, n - 1) + if is_space(line[n - 1]) { 1int } else { 0 }
    }
}

impl Cell {
    /// A fresh glyph.
    pub fn glyph(c: char) -> (cell: Cell)
        ensures
            cell@ == glyph(c),
    {
        let mut content: Vec<char> = Vec::new();
        content.push(c);
        let cell = Cell { content, role: Role::Todo };
        assert(cell@.content =~= seq![c]);
        cell
    }

    /// An empty blank.
    pub fn blank() -> (cell: Cell)
        ensures
            cell@ == blank(),
    {
        let cell = Cell { content: Vec::new(), role: Role::Wrong };
        assert(cell@.content =~= Seq::<char>::empty());
        cell
    }

    /// A fresh space.
    pub fn space() -> (cell: Cell)
        ensures
            cell@ == space(),
    {
        let mut content: Vec<char> = Vec::new();
        content.push(' ');
        let cell = Cell { content, role: Role::Todo };
        assert(cell@.content =~= seq![' ']);
        cell
    }

    /// Whether the cell holds the separator and nothing else.
    pub fn is_space(&self) -> (b: bool)
        ensures
            b == is_space(self@),
    {
        self.content.len() == 1 && self.content[0] == ' '
    }

    /// The first character of the cell, if it holds any.
    pub fn first_char(&self) -> (c: Option<char>)
        ensures
            c == (if self@.content.len() > 0 {
                Some(self@.content[0])
            } else {
                None
            }),
    {
        if self.content.len() > 0 {
            Some(self.content[0])
        } else {
            None
        }
    }
}

} // verus!
