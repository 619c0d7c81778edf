//! Line wrapping: words that must not be split are gathered into lines under
//! a budget of characters.

use crate::cell::{boundary, glyph, glyphs, line_view, lines_view, Cell, CellView};
use crate::helpers::add_space_with_blank;
use vstd::prelude::*;

verus! {

/// The value of a wrapper: the lines that are complete, the line that is
/// being filled, and the running count of characters.
pub struct WrapView {
    pub lines: Seq<Seq<CellView>>,
    pub current: Seq<CellView>,
    pub count: int,
}

pub open spec fn empty_wrap() -> WrapView {
    WrapView { lines: Seq::empty(), current: Seq::empty(), count: 0 }
}

/// A word as it is placed: a glyph for each of its characters, and behind
/// them the boundary.
pub open spec fn word_piece(word: Seq<char>) -> Seq<CellView> {
    glyphs(word) + boundary()
}

/// Places one word, whole. The count takes all the characters of the word
/// and one for its separator; if that exceeds the budget and the line being
/// filled holds a word already, that line is complete and the word begins
/// the next, with its characters alone as the count.
pub open spec fn place_spec(w: WrapView, word: Seq<char>, limit: int) -> WrapView {
    if w.current.len() > 0 && w.count + word.len() + 1 > limit {
        WrapView {
            lines: w.lines.push(w.current),
            current: word_piece(word),
            count: word.len() as int,
        }
    } else {
        WrapView {
            lines: w.lines,
            current: w.current + word_piece(word),
            count: w.count + word.len() + 1,
        }
    }
}

/// Places the words one after another.
pub open spec fn place_all(words: Seq<Seq<char>>, limit: int) -> WrapView
    decreases words.len(),
{
    if words.len() == 0 {
        empty_wrap()
    } else {
        place_spec(place_all(words.drop_last(), limit), words.last(), limit)
    }
}

/// A line without its last two cells.
pub open spec fn trimmed(line: Seq<CellView>) -> Seq<CellView> {
    if line.len() >= 2 {
        line.subrange(0, line.len() - 2)
    } else {
        Seq::empty()
    }
}

/// The lines in the order in which they are typed, the last one trimmed.
pub open spec fn forward_lines(w: WrapView) -> Seq<Seq<CellView>> {
    w.lines.push(trimmed(w.current))
}

/// The lines as they are handed over: the first line last.
pub open spec fn finish_spec(w: WrapView) -> Seq<Seq<CellView>> {
    forward_lines(w).reverse()
}

/// The cells of a word as it is placed.
pub fn word_cells(word: &Vec<char>) -> (cells: Vec<Cell>)
    ensures
        line_view(cells@) == word_piece(word@),
{
    let mut cells: Vec<Cell> = Vec::new();
    let mut i: usize = 0;
    while i < word.len()
        invariant
            i <= word.len(),
            line_view(cells@) == glyphs(word@.subrange(0, i as int)),
        decreases word.len() - i,
    {
        let ghost before = line_view(cells@);
        cells.push(Cell::glyph(word[i]));
        assert(line_view(cells@) =~= before.push(glyph(word[i as int])));
        assert(line_view(cells@) =~= glyphs(word@.subrange(0, i + 1)));
        i += 1;
    }
    assert(word@.subrange(0, word.len() as int) =~= word@);
    add_space_with_blank(&mut cells);
    cells
}

/// Gathers words into lines.
pub struct LineWrapper {
    pub lines: Vec<Vec<Cell>>,
    pub current: Vec<Cell>,
    pub count: u128,
    pub limit: usize,
}

impl View for LineWrapper {
    type V = WrapView;

    open spec fn view(&self) -> WrapView {
        WrapView {
            lines: lines_view(self.lines@),
            current: line_view(self.current@),
            count: self.count as int,
        }
    }
}

impl LineWrapper {
    /// The count stays far within the range of its type, and an empty line
    /// counts nothing.
    pub open spec fn wf(&self) -> bool {
        self.count <= 2 * usize::MAX && (self.current@.len() == 0 ==> self.count == 0)
    }

    pub fn new(limit: usize) -> (wrapper: Self)
        ensures
            wrapper@ == empty_wrap(),
            wrapper.limit == limit,
            wrapper.wf(),
    {
        let wrapper = LineWrapper { lines: Vec::new(), current: Vec::new(), count: 0, limit };
        assert(wrapper@.lines =~= Seq::<Seq<CellView>>::empty());
        assert(wrapper@.current =~= Seq::<CellView>::empty());
        wrapper
    }

    /// Places one word.
    pub fn place(&mut self, word: &Vec<char>)
        requires
            old(self).wf(),
        ensures
            final(self)@ == place_spec(old(self)@, word@, old(self).limit as int),
            final(self).limit == old(self).limit,
            final(self).wf(),
    {
        let mut cells = word_cells(word);
        let ghost piece = line_view(cells@);
        let width = word.len();
        let with_word: u128 = self.count + width as u128 + 1;
        if self.current.len() > 0 && with_word > self.limit as u128 {
            let mut full: Vec<Cell> = Vec::new();
            full.append(&mut self.current);
            self.lines.push(full);
            self.current = cells;
            self.count = width as u128;
            assert(lines_view(self.lines@) =~= old(self)@.lines.push(old(self)@.current));
        } else {
            self.current.append(&mut cells);
            self.count = with_word;
            assert(line_view(self.current@) =~= old(self)@.current + piece);
        }
    }

    /// Trims the last line and hands the lines over, the first line last.
    pub fn finish(self) -> (lines: Vec<Vec<Cell>>)
        ensures
            lines_view(lines@) == finish_spec(self@),
    {
        finish_lines(self.lines, self.current)
    }
}

/// Trims the line that is being filled, puts it behind the lines that are
/// complete, and hands them over in reverse: the first line last.
pub fn finish_lines(complete: Vec<Vec<Cell>>, current: Vec<Cell>) -> (lines: Vec<Vec<Cell>>)
    ensures
        lines_view(lines@) == lines_view(complete@).push(trimmed(line_view(current@))).reverse(),
{
    let mut last = current;
    last.pop();
    last.pop();
    assert(line_view(last@) =~= trimmed(line_view(current@)));
    let mut forward = complete;
    forward.push(last);
    assert(lines_view(forward@) =~= lines_view(complete@).push(trimmed(line_view(current@))));
    let ghost all = forward@;
    let mut lines: Vec<Vec<Cell>> = Vec::new();
    while forward.len() > 0
        invariant
            forward.len() <= all.len(),
            lines.len() + forward.len() == all.len(),
            forall|i: int| 0 <= i < forward.len() ==> forward[i] == all[i],
            forall|i: int| 0 <= i < lines.len() ==> lines[i] == all[all.len() - 1 - i],
        decreases forward.len(),
    {
        match forward.pop() {
            Some(line) => {
                lines.push(line);
            },
            None => {},
        }
    }
    assert(lines_view(lines@) =~= lines_view(all).reverse());
    lines
}

} // verus!
