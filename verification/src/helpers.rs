//! Small parts of the generator: making cells and remembering which word is
//! to begin with a capital.

use crate::cell::{boundary, line_view, Cell, CellView, Role};
use vstd::prelude::*;

verus! {

/// Something that takes characters as cells.
pub trait SpanIntake {
    /// What it holds, as cells.
    spec fn cells(&self) -> Seq<CellView>;

    /// Takes one character as a cell of the given role.
    fn push_styled_char(&mut self, c: char, role: Role)
        ensures
            final(self).cells() == old(self).cells().push(CellView { content: seq![c], role }),
    ;
}

impl SpanIntake for Vec<Cell> {
    open spec fn cells(&self) -> Seq<CellView> {
        line_view(self@)
    }

    fn push_styled_char(&mut self, c: char, role: Role) {
        let mut content: Vec<char> = Vec::new();
        content.push(c);
        let cell = Cell { content, role };
        assert(cell@.content =~= seq![c]);
        self.push(cell);
        assert(line_view(self@) =~= line_view(old(self)@).push(
            CellView { content: seq![c], role },
        ));
    }
}

/// Ends a word: an empty blank and a space.
pub fn add_space_with_blank(container: &mut Vec<Cell>)
    ensures
        line_view(final(container)@) == line_view(old(container)@) + boundary(),
{
    container.push(Cell::blank());
    container.push(Cell::space());
    assert(line_view(container@) =~= line_view(old(container)@) + boundary());
}

/// The two marks of a `Capitalize`: zero for none, two for a signal that has
/// come in, one for a signal that is due.
pub struct Marks {
    pub first: u8,
    pub second: u8,
}

/// The marks after a signal.
pub open spec fn signal_spec(marks: Marks) -> Marks {
    if marks.first == 0 {
        Marks { first: 2, second: marks.second }
    } else {
        Marks { first: marks.first, second: 2 }
    }
}

/// The marks after a query, and its answer.
pub open spec fn capitalize_spec(marks: Marks) -> (Marks, bool) {
    if marks.first == 1 {
        if marks.second == 0 {
            (Marks { first: 0, second: marks.second }, true)
        } else {
            (Marks { first: 1, second: 0 }, true)
        }
    } else {
        (
            Marks {
                first: if marks.first == 0 {
                    0
                } else {
                    (marks.first - 1) as u8
                },
                second: marks.second,
            },
            false,
        )
    }
}

/// The marks before the first word: one signal, queried once.
pub open spec fn first_marks() -> Marks {
    capitalize_spec(signal_spec(Marks { first: 0, second: 0 })).0
}

/// Remembers that the next word needs a capital. A signal given while a word
/// is made tells that the word after it is to begin with one; each word asks
/// once.
pub struct Capitalize {
    sync: [u8; 2],
}

impl View for Capitalize {
    type V = Marks;

    closed spec fn view(&self) -> Marks {
        Marks { first: self.sync[0], second: self.sync[1] }
    }
}

impl Default for Capitalize {
    fn default() -> (capitalize: Self)
        ensures
            capitalize@ == (Marks { first: 0, second: 0 }),
    {
        Self { sync: [0, 0] }
    }
}

impl Capitalize {
    /// Signals that the next word should be capitalized.
    pub fn signal(&mut self)
        ensures
            final(self)@ == signal_spec(old(self)@),
    {
        if self.sync[0] == 0 {
            self.sync = [2, self.sync[1]];
            return ;
        }
        self.sync = [self.sync[0], 2];
    }

    /// Tells whether the word at hand should be capitalized. To be asked once
    /// for each word.
    pub fn capitalize(&mut self) -> (capital: bool)
        ensures
            (final(self)@, capital) == capitalize_spec(old(self)@),
    {
        if self.sync[0] == 1 {
            if self.sync[1] == 0 {
                self.sync = [0, self.sync[1]];
            } else {
                self.sync = [1, 0];
            }
            return true;
        }
        let lowered: u8 = if self.sync[0] == 0 {
            0
        } else {
            self.sync[0] - 1
        };
        self.sync = [lowered, self.sync[1]];
        false
    }
}

} // verus!
