//! The typing test engine: it takes one event at a time, repaints the cells
//! and keeps the counters from which speed and accuracy are computed.

use crate::cell::{
    cell_fresh, cell_shaped, is_blank_at, is_space, line_ready, line_view, lines_view, width_of,
    Cell, CellView, Role, MAX_EXTRA_MISTAKES, MAX_LINE_CELLS,
};
use crate::clock::{elapsed_nanos, instant_before};
use crate::colorscheme::Color;
use crate::line_lemmas::{lemma_counts_bounds, lemma_shape_facts};
use crate::model::{
    at_start, counts_fit,
    advance_spec, correct_chars, deduct_spec, on_char_spec, paint, progress_line_spec,
    regress_line_spec, rewind_word_spec, rewrite, set_next_char_spec, skip_blank_spec,
    total_cells, undo_boundary_spec, undo_char_spec, undo_here_spec, undo_word_spec, wf,
    wf_base, wf_finished, TestView,
};
use crate::model_lemmas::{
    lemma_advance, lemma_before_cursor, lemma_cursor_cell, lemma_limits, lemma_on_char,
    lemma_regress, lemma_rewind_step, lemma_rewind_word, lemma_stepped, lemma_total_cells_push,
    lemma_total_cells_split, lemma_undo_boundary, lemma_undo_char, lemma_undo_here,
    lemma_undo_word, lemma_untype_space, on_glyph, stepped,
};
use crate::settings::{Ratio, TestSummary};
use std::time::Instant;
use vstd::prelude::*;

verus! {

/// Milliseconds by which the start of the clock is set back at the first
/// keystroke, so that the first reading of the speed is no spike.
pub const INITAL_OFFSET: u64 = 50;

/// The colors in which the three roles of a cell are shown.
#[derive(Clone, Copy, Debug, PartialEq, Eq, Structural)]
pub struct TestColors {
    pub wrong: Color,
    pub todo: Color,
    pub done: Color,
}

impl Default for TestColors {
    fn default() -> (colors: Self)
        ensures
            colors == (TestColors { wrong: Color::Red, todo: Color::Gray, done: Color::White }),
    {
        Self { wrong: Color::Red, todo: Color::Gray, done: Color::White }
    }
}

/// Samples of the speed, in thousandths of a word per minute, taken at even
/// intervals. When their number reaches the capacity, the samples are
/// averaged in pairs, which halves their number, and the interval doubles.
pub struct WpmHoarder {
    pub wpms: Vec<u64>,
    pub capacity: usize,
    pub seconds: u64,
}

/// The samples averaged in pairs: the first with the second, the third with
/// the fourth and so on. A last sample without a partner is dropped.
pub open spec fn halved(samples: Seq<u64>) -> Seq<u64> {
    Seq::new(
        samples.len() / 2,
        |i: int| ((samples[2 * i] + samples[2 * i + 1]) / 2) as u64,
    )
}

/// The samples after one more was taken.
pub open spec fn pushed(samples: Seq<u64>, capacity: int, sample: u64) -> Seq<u64> {
    if samples.len() + 1 == capacity {
        halved(samples.push(sample))
    } else {
        samples.push(sample)
    }
}

/// The whole seconds in a reading of the clock in nanoseconds, or the largest
/// number where there are more.
pub open spec fn whole_seconds(nanos: u128) -> u64 {
    if nanos / 1_000_000_000 > u64::MAX {
        u64::MAX
    } else {
        (nanos / 1_000_000_000) as u64
    }
}

/// Twice a number, or the largest number.
pub open spec fn doubled(seconds: u64) -> u64 {
    if 2 * seconds > u64::MAX {
        u64::MAX
    } else {
        (2 * seconds) as u64
    }
}

impl WpmHoarder {
    pub fn new(capacity: usize) -> (hoarder: Self)
        ensures
            hoarder.wpms@ == Seq::<u64>::empty(),
            hoarder.capacity == capacity,
            hoarder.seconds == 1,
    {
        WpmHoarder { capacity, wpms: Vec::new(), seconds: 1 }
    }

    pub fn reset(&mut self)
        ensures
            final(self).wpms@ == Seq::<u64>::empty(),
            final(self).capacity == old(self).capacity,
            final(self).seconds == 1,
    {
        self.wpms.clear();
        self.seconds = 1;
    }

    /// Whether the next sample falls due once `elapsed` seconds have passed:
    /// one interval for each sample held and one more.
    pub open spec fn spec_is_due_after(&self, elapsed: u64) -> bool {
        elapsed >= self.seconds * (self.wpms.len() + 1)
    }

    pub fn is_due_after(&self, elapsed: u64) -> (due: bool)
        ensures
            due == self.spec_is_due_after(elapsed),
    {
        let samples = self.wpms.len() as u64;
        match samples.checked_add(1) {
            Some(count) => match self.seconds.checked_mul(count) {
                Some(due_time) => elapsed >= due_time,
                None => false,
            },
            None => {
                assert(self.seconds * (self.wpms.len() + 1) > u64::MAX || self.seconds == 0)
                    by (nonlinear_arith)
                    requires
                        self.wpms.len() + 1 > u64::MAX,
                        self.seconds >= 0,
                ;
                self.seconds == 0
            },
        }
    }

    /// Whether the next sample has fallen due, by the clock: the answer that
    /// `is_due_after` gives for the whole seconds that the clock reads since
    /// `begining`.
    pub fn is_due(&self, begining: &Instant) -> (due: bool)
        ensures
            exists|nanos: u128| due == self.spec_is_due_after(whole_seconds(nanos)),
    {
        let nanos = elapsed_nanos(begining);
        let elapsed = nanos / 1_000_000_000;
        let due = if elapsed > u64::MAX as u128 {
            self.is_due_after(u64::MAX)
        } else {
            self.is_due_after(elapsed as u64)
        };
        assert(due == self.spec_is_due_after(whole_seconds(nanos)));
        due
    }

    /// Takes one more sample.
    pub fn push(&mut self, wpm: u64)
        ensures
            final(self).wpms@ == pushed(old(self).wpms@, old(self).capacity as int, wpm),
            final(self).capacity == old(self).capacity,
            final(self).seconds == (if old(self).wpms.len() + 1 == old(self).capacity {
                doubled(old(self).seconds)
            } else {
                old(self).seconds
            }),
    {
        self.wpms.push(wpm);
        if self.wpms.len() == self.capacity {
            let ghost samples = self.wpms@;
            let new_len: usize = self.wpms.len() / 2;
            let mut i: usize = 0;
            while i < new_len
                invariant
                    i <= new_len,
                    new_len == samples.len() / 2,
                    self.wpms.len() == samples.len(),
                    self.capacity == old(self).capacity,
                    self.seconds == old(self).seconds,
                    forall|k: int| 0 <= k < i ==> self.wpms[k] == halved(samples)[k],
                    forall|k: int| i <= k < samples.len() ==> self.wpms[k] == samples[k],
                decreases new_len - i,
            {
                let a = self.wpms[2 * i];
                let b = self.wpms[2 * i + 1];
                let mean = a / 2 + b / 2 + (a % 2 + b % 2) / 2;
                self.wpms[i] = mean;
                i += 1;
            }
            self.wpms.truncate(new_len);
            assert(self.wpms@ =~= halved(samples));
            self.seconds = match self.seconds.checked_mul(2) {
                Some(twice) => twice,
                None => u64::MAX,
            };
        }
    }

    /// The largest sample. There must be one.
    pub fn get_max_wpm(&self) -> (max: u64)
        requires
            self.wpms.len() > 0,
        ensures
            forall|i: int| 0 <= i < self.wpms.len() ==> self.wpms[i] <= max,
            exists|i: int| 0 <= i < self.wpms.len() && self.wpms[i] == max,
    {
        let mut max: u64 = self.wpms[0];
        let mut k: usize = 1;
        while k < self.wpms.len()
            invariant
                1 <= k <= self.wpms.len(),
                forall|i: int| 0 <= i < k ==> self.wpms[i] <= max,
                exists|i: int| 0 <= i < k && self.wpms[i] == max,
            decreases self.wpms.len() - k,
        {
            if self.wpms[k] > max {
                max = self.wpms[k];
            }
            k += 1;
        }
        max
    }

    /// The smallest and the largest sample. There must be one.
    pub fn get_min_max_wpm(&self) -> (min_max: (u64, u64))
        requires
            self.wpms.len() > 0,
        ensures
            forall|i: int|
                0 <= i < self.wpms.len() ==> min_max.0 <= #[trigger] self.wpms[i] <= min_max.1,
            exists|i: int| 0 <= i < self.wpms.len() && self.wpms[i] == min_max.0,
            exists|i: int| 0 <= i < self.wpms.len() && self.wpms[i] == min_max.1,
    {
        let mut max: u64 = self.wpms[0];
        let mut min: u64 = self.wpms[0];
        let mut k: usize = 1;
        while k < self.wpms.len()
            invariant
                1 <= k <= self.wpms.len(),
                forall|i: int| 0 <= i < k ==> min <= #[trigger] self.wpms[i] <= max,
                exists|i: int| 0 <= i < k && self.wpms[i] == min,
                exists|i: int| 0 <= i < k && self.wpms[i] == max,
            decreases self.wpms.len() - k,
        {
            if self.wpms[k] > max {
                max = self.wpms[k];
            } else if self.wpms[k] < min {
                min = self.wpms[k];
            }
            k += 1;
        }
        (min, max)
    }
}

/// Words per minute as a quotient: twelve words a minute for each character a
/// second.
pub fn wpm_of(correct: usize, elapsed_nanos: u128) -> (wpm: Ratio)
    ensures
        wpm.num == 12_000_000_000 * correct,
        wpm.den == elapsed_nanos,
{
    Ratio { num: 12_000_000_000u128 * (correct as u128), den: elapsed_nanos }
}

/// Accuracy in percent as a quotient: the correct characters among the
/// keystrokes that count, which are the correct ones and every wrong one.
pub fn acc_of(correct: usize, pmiss: usize) -> (acc: Ratio)
    ensures
        acc.num == 100 * correct,
        acc.den == correct + pmiss,
{
    Ratio { num: 100u128 * (correct as u128), den: (correct as u128) + (pmiss as u128) }
}

pub struct TestState {
    pub up: Vec<Cell>,
    pub active: Vec<Cell>,
    pub down: Vec<Cell>,
    pub backburner: Vec<Vec<Cell>>,
    pub done: usize,
    pub pdone: usize,
    pub blanks: usize,
    pub mistakes: usize,
    pub extra_mistakes: usize,
    pub pmiss: usize,
    pub cursor_x: u16,
    pub current_char: char,
    pub first: bool,
    pub begining: Instant,
    pub length: usize,
    pub hoarder: WpmHoarder,
    pub colors: TestColors,
}

/// The lines of a test as the generator hands them over, the first line last:
/// at least one, each ready to be typed, and no more cells than the counters
/// can count.
pub open spec fn lines_ready(lines: Seq<Seq<CellView>>) -> bool {
    &&& lines.len() > 0
    &&& forall|i: int| 0 <= i < lines.len() ==> crate::cell::line_ready(#[trigger] lines[i])
    &&& MAX_EXTRA_MISTAKES * total_cells(lines) <= usize::MAX
}

/// The state in which a test over the given lines begins.
pub open spec fn start_view(lines: Seq<Seq<CellView>>) -> TestView {
    let n = lines.len() as int;
    TestView {
        up: Seq::empty(),
        active: lines[n - 1],
        down: if n >= 2 {
            lines[n - 2]
        } else {
            Seq::empty()
        },
        backburner: if n >= 2 {
            lines.subrange(0, n - 2)
        } else {
            Seq::empty()
        },
        done: 0,
        pdone: 0,
        blanks: 0,
        mistakes: 0,
        extra_mistakes: 0,
        pmiss: 0,
        cursor_x: 1,
        current_char: lines[n - 1][0].content[0],
        length: lines[n - 1].len() as int,
        first: true,
    }
}

impl View for TestState {
    type V = TestView;

    open spec fn view(&self) -> TestView {
        TestView {
            up: line_view(self.up@),
            active: line_view(self.active@),
            down: line_view(self.down@),
            backburner: lines_view(self.backburner@),
            done: self.done as int,
            pdone: self.pdone as int,
            blanks: self.blanks as int,
            mistakes: self.mistakes as int,
            extra_mistakes: self.extra_mistakes as int,
            pmiss: self.pmiss as int,
            cursor_x: self.cursor_x as int,
            current_char: self.current_char,
            length: self.length as int,
            first: self.first,
        }
    }
}

/// Gives one cell of a line another role.
fn paint_cell(line: &mut Vec<Cell>, i: usize, role: Role)
    requires
        i < old(line).len(),
    ensures
        line_view(final(line)@) == paint(line_view(old(line)@), i as int, role),
{
    line[i].role = role;
    assert(line_view(line@) =~= paint(line_view(old(line)@), i as int, role));
}

/// Replaces what one cell of a line holds.
fn rewrite_cell(line: &mut Vec<Cell>, i: usize, content: Vec<char>)
    requires
        i < old(line).len(),
    ensures
        line_view(final(line)@) == rewrite(line_view(old(line)@), i as int, content@),
{
    line[i].content = content;
    assert(line_view(line@) =~= rewrite(line_view(old(line)@), i as int, content@));
}

/// Takes the last character off one cell of a line.
fn pop_from_cell(line: &mut Vec<Cell>, i: usize)
    requires
        i < old(line).len(),
        old(line)[i as int].content.len() > 0,
    ensures
        line_view(final(line)@) == rewrite(
            line_view(old(line)@),
            i as int,
            old(line)[i as int].content@.drop_last(),
        ),
{
    line[i].content.pop();
    assert(old(line)[i as int].content@.drop_last() =~= old(line)[i as int].content@.subrange(
        0,
        old(line)[i as int].content@.len() - 1,
    ));
    assert(line_view(line@) =~= rewrite(
        line_view(old(line)@),
        i as int,
        old(line)[i as int].content@.drop_last(),
    ));
}

/// Number of characters that a line shows.
fn line_width(line: &Vec<Cell>) -> (width: usize)
    requires
        line.len() <= crate::cell::MAX_LINE_CELLS,
        forall|i: int| 0 <= i < line.len() ==> line[i].content.len() <= MAX_EXTRA_MISTAKES,
    ensures
        width == width_of(line_view(line@), line.len() as int),
        width <= MAX_EXTRA_MISTAKES * line.len(),
{
    let mut width: usize = 0;
    let mut i: usize = 0;
    while i < line.len()
        invariant
            i <= line.len(),
            line.len() <= crate::cell::MAX_LINE_CELLS,
            forall|k: int| 0 <= k < line.len() ==> line[k].content.len() <= MAX_EXTRA_MISTAKES,
            width == width_of(line_view(line@), i as int),
            width <= MAX_EXTRA_MISTAKES * i,
        decreases line.len() - i,
    {
        width += line[i].content.len();
        i += 1;
    }
    width
}

/// Adds a character to one cell of a line.
fn push_to_cell(line: &mut Vec<Cell>, i: usize, c: char)
    requires
        i < old(line).len(),
    ensures
        line_view(final(line)@) == rewrite(
            line_view(old(line)@),
            i as int,
            old(line)[i as int].content@.push(c),
        ),
{
    line[i].content.push(c);
    assert(line_view(line@) =~= rewrite(
        line_view(old(line)@),
        i as int,
        old(line)[i as int].content@.push(c),
    ));
}

/// A test over lines that are ready begins in a sound state.
pub proof fn lemma_start_wf(lines: Seq<Seq<CellView>>)
    requires
        lines_ready(lines),
    ensures
        wf(start_view(lines)),
        start_view(lines).active[0].content.len() == 1,
{
    let v = start_view(lines);
    let n = lines.len() as int;
    assert(line_ready(lines[n - 1]));
    lemma_shape_facts(v.active, 0);
    if n >= 2 {
        assert(line_ready(lines[n - 2]));
        lemma_total_cells_split(lines, n - 2);
        assert forall|i: int| 0 <= i < v.backburner.len() implies line_ready(
            #[trigger] v.backburner[i],
        ) by {
            assert(v.backburner[i] == lines[i]);
        }
    } else {
        lemma_total_cells_split(lines, n - 1);
        assert(total_cells(v.backburner) == 0);
    }
}

/// Whether the cell at `i` of a line is shaped and untouched.
fn cell_is_ready(line: &Vec<Cell>, i: usize) -> (ok: bool)
    requires
        i < line.len(),
    ensures
        ok == (cell_shaped(line_view(line@), i as int) && cell_fresh(line_view(line@), i as int)),
{
    let ghost view = line_view(line@);
    let cell = &line[i];
    let next_is_space = i + 1 < line.len() && line[i + 1].is_space();
    assert(next_is_space == is_blank_at(view, i as int));
    if next_is_space {
        if !(cell.content.len() == 0 && cell.role == Role::Wrong) {
            return false;
        }
    } else {
        if !(cell.content.len() == 1 && cell.role == Role::Todo) {
            return false;
        }
    }
    if cell.is_space() {
        if i < 2 {
            return false;
        }
        if line[i - 1].is_space() || line[i - 2].is_space() {
            return false;
        }
    }
    true
}

/// Whether a line can become the active one: shaped, not empty and untouched.
pub fn line_is_ready(line: &Vec<Cell>) -> (ok: bool)
    ensures
        ok == line_ready(line_view(line@)),
{
    if line.len() == 0 || line.len() > MAX_LINE_CELLS {
        return false;
    }
    let ghost view = line_view(line@);
    let mut i: usize = 0;
    while i < line.len()
        invariant
            i <= line.len(),
            view == line_view(line@),
            forall|k: int| 0 <= k < i ==> cell_shaped(view, k) && cell_fresh(view, k),
        decreases line.len() - i,
    {
        if !cell_is_ready(line, i) {
            return false;
        }
        i += 1;
    }
    true
}

/// Whether lines can be handed to the engine: see `lines_ready`.
pub fn check_lines(lines: &Vec<Vec<Cell>>) -> (ok: bool)
    ensures
        ok == lines_ready(lines_view(lines@)),
{
    if lines.len() == 0 {
        return false;
    }
    let ghost views = lines_view(lines@);
    let limit: usize = usize::MAX / MAX_EXTRA_MISTAKES;
    let mut total: usize = 0;
    let mut i: usize = 0;
    while i < lines.len()
        invariant
            i <= lines.len(),
            views == lines_view(lines@),
            limit == usize::MAX / MAX_EXTRA_MISTAKES,
            total == total_cells(views.subrange(0, i as int)),
            total <= limit,
            forall|k: int| 0 <= k < i ==> line_ready(#[trigger] views[k]),
        decreases lines.len() - i,
    {
        if !line_is_ready(&lines[i]) {
            assert(!line_ready(views[i as int]));
            return false;
        }
        proof {
            lemma_total_cells_push(views.subrange(0, i as int), views[i as int]);
            assert(views.subrange(0, i as int).push(views[i as int]) =~= views.subrange(
                0,
                i + 1,
            ));
            lemma_total_cells_split(views, i + 1);
        }
        if lines[i].len() > limit - total {
            return false;
        }
        total += lines[i].len();
        i += 1;
    }
    assert(views.subrange(0, i as int) =~= views);
    true
}

impl Default for TestState {
    /// An engine without a test: `reset` gives it one.
    fn default() -> (state: Self)
        ensures
            state.idle(),
            state.colors == (TestColors { wrong: Color::Red, todo: Color::Gray, done: Color::White }),
    {
        let mut backburner: Vec<Vec<Cell>> = Vec::new();
        backburner.push(Vec::new());
        TestState {
            up: Vec::new(),
            active: Vec::new(),
            down: Vec::new(),
            backburner,
            begining: Instant::now(),
            done: 0,
            first: true,
            pdone: 0,
            blanks: 0,
            mistakes: 0,
            extra_mistakes: 0,
            pmiss: 0,
            cursor_x: 0,
            length: 0,
            current_char: ' ',
            hoarder: WpmHoarder::new(400),
            colors: TestColors::default(),
        }
    }
}

impl TestState {
    /// The engine holds no test: no line but an empty one in reserve, all
    /// counters at zero, and room for four hundred samples of the speed.
    pub open spec fn idle(&self) -> bool {
        &&& self.up@.len() == 0
        &&& self.active@.len() == 0
        &&& self.down@.len() == 0
        &&& self.backburner@.len() == 1
        &&& self.backburner@[0]@.len() == 0
        &&& self.done == 0
        &&& self.pdone == 0
        &&& self.blanks == 0
        &&& self.mistakes == 0
        &&& self.extra_mistakes == 0
        &&& self.pmiss == 0
        &&& self.cursor_x == 0
        &&& self.length == 0
        &&& self.current_char == ' '
        &&& self.first
        &&& self.hoarder.capacity == 400
        &&& self.hoarder.wpms@.len() == 0
        &&& self.hoarder.seconds == 1
    }

    /// An engine without a test that shows the roles in the given colors.
    pub fn with_colors(colors: TestColors) -> (state: Self)
        ensures
            state.idle(),
            state.colors == colors,
    {
        let mut state = Self::default();
        state.colors = colors;
        state
    }

    /// Begins a test over the given lines, the first line last in the list.
    pub fn reset(&mut self, lines: Vec<Vec<Cell>>)
        requires
            lines_ready(lines_view(lines@)),
        ensures
            final(self)@ == start_view(lines_view(lines@)),
            wf(final(self)@),
            final(self).same_setup(old(self)),
            final(self).hoarder.wpms@ == Seq::<u64>::empty(),
            final(self).hoarder.seconds == 1,
    {
        let ghost views = lines_view(lines@);
        proof {
            lemma_start_wf(views);
        }
        self.blanks = 0;
        self.done = 0;
        self.pdone = 0;
        self.up = Vec::new();
        self.pmiss = 0;
        self.mistakes = 0;
        self.extra_mistakes = 0;
        self.hoarder.reset();
        let mut wordy = lines;
        self.active = match wordy.pop() {
            Some(line) => line,
            None => Vec::new(),
        };
        self.down = match wordy.pop() {
            Some(line) => line,
            None => Vec::new(),
        };
        self.backburner = wordy;
        self.current_char = self.active[0].content[0];
        self.length = self.active.len();
        self.first = true;
        self.cursor_x = 1;
        self.begining = Instant::now();
        proof {
            let n = views.len() as int;
            assert(line_view(self.up@) =~= Seq::<CellView>::empty());
            assert(line_view(self.active@) == views[n - 1]);
            if n >= 2 {
                assert(line_view(self.down@) == views[n - 2]);
                assert(lines_view(self.backburner@) =~= views.subrange(0, n - 2));
            } else {
                assert(line_view(self.down@) =~= Seq::<CellView>::empty());
                assert(lines_view(self.backburner@) =~= Seq::<Seq<CellView>>::empty());
            }
        }
    }

    /// What stays as it is whatever the event.
    pub open spec fn same_setup(&self, other: &TestState) -> bool {
        self.colors == other.colors && self.hoarder.capacity == other.hoarder.capacity
    }

    /// The samples and their interval are those of `other`.
    pub open spec fn same_samples(&self, other: &TestState) -> bool {
        self.hoarder.wpms@ == other.hoarder.wpms@ && self.hoarder.seconds == other.hoarder.seconds
    }

    /// Checks whether the cell at `index` is marked wrong and, if so, takes it
    /// off the count of mistakes.
    pub fn if_mistake_deduct(&mut self, index: usize)
        requires
            index < old(self).active.len(),
            old(self).active[index as int].role == Role::Wrong ==> old(self).mistakes > 0,
        ensures
            final(self)@ == (TestView { mistakes: deduct_spec(old(self)@, index as int), ..old(self)@ }),
            final(self).begining == old(self).begining,
            final(self).same_setup(old(self)),
            final(self).same_samples(old(self)),
    {
        if self.active[index].role == Role::Wrong {
            self.mistakes -= 1;
        }
    }

    /// Loads the character under the cursor.
    pub fn set_next_char(&mut self)
        requires
            old(self).done < old(self).active.len(),
            old(self).active[old(self).done as int].content.len() > 0,
        ensures
            final(self)@ == set_next_char_spec(old(self)@),
            final(self).begining == old(self).begining,
            final(self).same_setup(old(self)),
            final(self).same_samples(old(self)),
    {
        self.current_char = self.active[self.done].content[0];
    }

    /// The character under the cursor, if the cell there holds one.
    pub fn get_next_char(&self) -> (c: Option<char>)
        requires
            self.done < self.active.len(),
        ensures
            c == (if self@.active[self.done as int].content.len() > 0 {
                Some(self@.active[self.done as int].content[0])
            } else {
                None
            }),
    {
        self.active[self.done].first_char()
    }

    /// What the cell at `index` of the active line holds.
    pub fn fetch(&self, index: usize) -> (content: &Vec<char>)
        requires
            index < self.active.len(),
        ensures
            content@ == self@.active[index as int].content,
    {
        &self.active[index].content
    }

    /// Replaces what the cell at `index` of the active line holds.
    pub fn change(&mut self, index: usize, item: Vec<char>)
        requires
            index < old(self).active.len(),
        ensures
            final(self)@ == (TestView {
                active: rewrite(old(self)@.active, index as int, item@),
                ..old(self)@
            }),
            final(self).begining == old(self).begining,
            final(self).same_setup(old(self)),
            final(self).same_samples(old(self)),
    {
        rewrite_cell(&mut self.active, index, item);
    }

    fn set_next_char_beware_blanks(&mut self)
        requires
            wf_base(old(self)@),
            old(self).done > 0,
            old(self).done < old(self).active.len(),
        ensures
            final(self)@ == skip_blank_spec(old(self)@),
            final(self).begining == old(self).begining,
            final(self).same_setup(old(self)),
            final(self).same_samples(old(self)),
    {
        proof {
            lemma_advance(self@);
            lemma_shape_facts(self@.active, self.done as int);
            assert(cell_fresh(self@.active, self.done as int));
            lemma_limits(self@);
        }
        if let Some(c) = self.get_next_char() {
            self.current_char = c;
        } else {
            self.done += 1;
            self.blanks += 1;
            self.set_next_char();
        }
    }

    fn progress_line(&mut self) -> (finished: bool)
        requires
            wf_base(old(self)@),
            old(self).done == old(self).active.len(),
        ensures
            (final(self)@, finished) == progress_line_spec(old(self)@),
            final(self).begining == old(self).begining,
            final(self).same_setup(old(self)),
            final(self).same_samples(old(self)),
    {
        proof {
            lemma_advance(self@);
            lemma_limits(self@);
            if self@.down.len() > 0 {
                lemma_shape_facts(self@.down, 0);
            }
        }
        self.up.clear();
        self.up.append(&mut self.active);
        assert(line_view(self.up@) =~= old(self)@.active);
        assert(line_view(self.active@) =~= Seq::<CellView>::empty());
        if self.down.is_empty() {
            return true;
        }
        self.active.append(&mut self.down);
        assert(line_view(self.active@) =~= old(self)@.down);
        if let Some(line) = self.backburner.pop() {
            self.down = line;
            assert(lines_view(self.backburner@) =~= old(self)@.backburner.drop_last());
            assert(line_view(self.down@) == old(self)@.backburner.last());
        } else {
            self.down = Vec::new();
            assert(line_view(self.down@) =~= Seq::<CellView>::empty());
        }
        self.pdone += self.done;
        self.done = 0;
        self.cursor_x = 1;
        self.length = self.active.len();
        self.set_next_char();
        false
    }

    fn regress_line(&mut self)
        requires
            wf(old(self)@),
            old(self).done == 0,
            old(self).up.len() > 0,
        ensures
            final(self)@ == regress_line_spec(old(self)@),
            final(self).begining == old(self).begining,
            final(self).same_setup(old(self)),
            final(self).same_samples(old(self)),
    {
        proof {
            lemma_regress(self@);
            lemma_counts_bounds(self@.up, self@.up.len() as int);
            assert forall|i: int| 0 <= i < self.up.len() implies self.up[i].content.len()
                <= MAX_EXTRA_MISTAKES by {
                lemma_shape_facts(self@.up, i);
            }
        }
        let mut temp: Vec<Cell> = Vec::new();
        temp.append(&mut self.down);
        self.backburner.push(temp);
        assert(lines_view(self.backburner@) =~= old(self)@.backburner.push(old(self)@.down));
        self.down.append(&mut self.active);
        assert(line_view(self.down@) =~= old(self)@.active);
        self.active.append(&mut self.up);
        assert(line_view(self.active@) =~= old(self)@.up);
        assert(line_view(self.up@) =~= Seq::<CellView>::empty());
        self.length = self.active.len();
        self.pdone -= self.length;
        self.done = self.length;
        let crs = line_width(&self.active);
        self.cursor_x = 1 + crs as u16;
    }

    fn set_next_char_or_end(&mut self) -> (finished: bool)
        requires
            wf_base(old(self)@),
            old(self).done > 0,
        ensures
            (final(self)@, finished) == advance_spec(old(self)@),
            final(self).begining == old(self).begining,
            final(self).same_setup(old(self)),
            final(self).same_samples(old(self)),
    {
        if self.done < self.length {
            self.set_next_char_beware_blanks();
            return false;
        }
        self.progress_line()
    }

    /// Takes a keystroke. Tells whether it finished the test.
    pub fn on_char(&mut self, c: char) -> (finished: bool)
        requires
            wf(old(self)@),
            old(self).pmiss < usize::MAX,
        ensures
            (final(self)@, finished) == on_char_spec(old(self)@, c),
            finished ==> wf_finished(final(self)@),
            !finished ==> wf(final(self)@),
            !old(self).first ==> final(self).begining == old(self).begining,
            !old(self).first ==> final(self).same_samples(old(self)),
            old(self).first ==> final(self).hoarder.wpms@ == Seq::<u64>::empty(),
            old(self).first ==> final(self).hoarder.seconds == 1,
            final(self).same_setup(old(self)),
    {
        proof {
            lemma_on_char(self@, c);
            lemma_cursor_cell(self@);
            lemma_limits(self@);
        }
        self.cursor_x += 1;
        if self.first {
            self.hoarder.reset();
            self.first = false;
            self.begining = match instant_before(Instant::now(), INITAL_OFFSET) {
                Some(begining) => begining,
                None => Instant::now(),
            };
        }
        let ghost v1 = TestView { first: false, ..old(self)@ };
        if c == self.current_char {
            paint_cell(&mut self.active, self.done, Role::Done);
            self.done += 1;
            proof {
                lemma_stepped(v1, Role::Done);
                assert(self@ == stepped(v1, Role::Done));
            }
            return self.set_next_char_or_end();
        }
        if self.current_char == ' ' {
            self.pmiss += 1;
            if self.fetch(self.done - 1).len() < MAX_EXTRA_MISTAKES {
                self.extra_mistakes += 1;
                push_to_cell(&mut self.active, self.done - 1, c);
            } else {
                self.cursor_x -= 1;
            }
        } else {
            self.mistakes += 1;
            self.pmiss += 1;
            paint_cell(&mut self.active, self.done, Role::Wrong);
            self.done += 1;
            proof {
                let w1 = TestView { pmiss: v1.pmiss + 1, ..v1 };
                lemma_stepped(w1, Role::Wrong);
                assert(self@ == stepped(w1, Role::Wrong));
            }
            return self.set_next_char_or_end();
        }
        false
    }

    fn undo_here(&mut self)
        requires
            wf_base(old(self)@),
            old(self).done > 0,
            old(self).done < old(self).active.len() ==> wf(old(self)@),
            old(self).done == old(self).active.len() ==> old(self).current_char != ' ',
        ensures
            final(self)@ == undo_here_spec(old(self)@),
            final(self).begining == old(self).begining,
            final(self).same_setup(old(self)),
            final(self).same_samples(old(self)),
    {
        proof {
            lemma_undo_here(self@);
            lemma_limits(self@);
            lemma_before_cursor(self@, self.done - 1);
            if self.done < self.active.len() {
                lemma_cursor_cell(self@);
                if self.current_char == ' ' {
                    lemma_before_cursor(self@, self.done - 2);
                }
            } else {
                lemma_shape_facts(self@.active, self.done - 1);
            }
        }
        self.cursor_x -= 1;
        if self.current_char == ' ' {
            if self.active[self.done - 1].content.len() == 0 {
                self.if_mistake_deduct(self.done - 2);
                self.done -= 2;
                self.blanks -= 1;
                self.set_next_char();
                paint_cell(&mut self.active, self.done, Role::Todo);
            } else {
                pop_from_cell(&mut self.active, self.done - 1);
                self.extra_mistakes -= 1;
            }
        } else {
            self.done -= 1;
            self.if_mistake_deduct(self.done);
            self.set_next_char();
            paint_cell(&mut self.active, self.done, Role::Todo);
        }
    }

    /// Takes a backspace: the cell before the cursor is made fresh again, across
    /// the start of the line if a line above is kept. At the start of the test
    /// nothing happens.
    pub fn undo_char(&mut self)
        requires
            wf(old(self)@) || at_start(old(self)@),
        ensures
            final(self)@ == undo_char_spec(old(self)@),
            wf(old(self)@) ==> wf(final(self)@),
            at_start(old(self)@) ==> final(self)@ == old(self)@,
            final(self).begining == old(self).begining,
            final(self).same_setup(old(self)),
            final(self).same_samples(old(self)),
    {
        proof {
            if wf(self@) {
                lemma_undo_char(self@);
            }
        }
        if self.done > 0 {
            self.undo_here();
            return ;
        }
        if !self.up.is_empty() {
            proof {
                lemma_regress(self@);
            }
            self.regress_line();
            self.undo_here();
        }
    }
    fn undo_space_char_and_extras(&mut self)
        requires
            wf_base(old(self)@),
            old(self).done < old(self).active.len(),
            is_space(old(self)@.active[old(self).done as int]),
        ensures
            final(self)@ == undo_boundary_spec(old(self)@),
            final(self).begining == old(self).begining,
            final(self).same_setup(old(self)),
            final(self).same_samples(old(self)),
    {
        proof {
            lemma_undo_boundary(self@);
            lemma_shape_facts(self@.active, self.done as int);
        }
        let x = self.fetch(self.done - 1).len();
        self.extra_mistakes -= x;
        self.cursor_x -= x as u16 + 1;
        self.change(self.done - 1, Vec::new());
        self.done -= 2;
        self.if_mistake_deduct(self.done);
        paint_cell(&mut self.active, self.done, Role::Todo);
        self.blanks -= 1;
    }

    /// Undoes a word: the cells from the cursor back to the start of the word
    /// are made fresh again, across the end of the word before if the cursor
    /// stands at a boundary, and across the start of the line if a line above
    /// is kept. At the start of the test nothing happens.
    pub fn undo_word(&mut self)
        requires
            wf(old(self)@) || at_start(old(self)@),
        ensures
            final(self)@ == undo_word_spec(old(self)@),
            wf(old(self)@) ==> wf(final(self)@),
            at_start(old(self)@) ==> final(self)@ == old(self)@,
            final(self).begining == old(self).begining,
            final(self).same_setup(old(self)),
            final(self).same_samples(old(self)),
    {
        proof {
            if wf(self@) {
                lemma_undo_word(self@);
            }
        }
        if self.done == 0 {
            if !self.up.is_empty() {
                proof {
                    lemma_regress(self@);
                }
                self.regress_line();
            } else {
                return ;
            }
        } else {
            proof {
                lemma_cursor_cell(self@);
            }
        }
        if self.current_char == ' ' {
            proof {
                lemma_undo_boundary(self@);
            }
            self.undo_space_char_and_extras();
        } else if self.active[self.done - 1].is_space() {
            proof {
                lemma_untype_space(self@);
            }
            self.done -= 1;
            self.cursor_x -= 1;
            paint_cell(&mut self.active, self.done, Role::Todo);
            proof {
                lemma_undo_boundary(self@);
            }
            self.undo_space_char_and_extras();
        }
        let ghost v1 = self@;
        while self.done != 0 && !self.active[self.done - 1].is_space()
            invariant
                on_glyph(self@),
                rewind_word_spec(self@) == rewind_word_spec(v1),
                self.done <= self.active.len(),
                self.begining == old(self).begining,
                self.same_setup(old(self)),
                self.same_samples(old(self)),
            decreases self.done,
        {
            proof {
                lemma_rewind_step(self@);
            }
            self.cursor_x -= 1;
            self.done -= 1;
            self.if_mistake_deduct(self.done);
            paint_cell(&mut self.active, self.done, Role::Todo);
        }
        proof {
            lemma_rewind_word(v1);
            lemma_shape_facts(self@.active, self.done as int);
        }
        self.set_next_char();
    }

    /// Characters typed correctly and left standing.
    pub fn correct_chars(&self) -> (correct: usize)
        requires
            counts_fit(self@),
        ensures
            correct == correct_chars(self@),
    {
        self.pdone + self.done - self.blanks - self.mistakes
    }

    /// Whether the counters can be summed up: see `counts_fit`.
    pub fn can_count(&self) -> (ok: bool)
        ensures
            ok == counts_fit(self@),
    {
        match (self.pdone.checked_add(self.done), self.blanks.checked_add(self.mistakes)) {
            (Some(completed), Some(other)) => other <= completed,
            _ => false,
        }
    }

    /// Words per minute by the clock. The numerator is twelve thousand million
    /// times the correct characters, the denominator the nanoseconds since
    /// the clock was started.
    pub fn calculate_wpm(&self) -> (wpm: Ratio)
        requires
            counts_fit(self@),
        ensures
            wpm.num == 12_000_000_000 * correct_chars(self@),
    {
        wpm_of(self.correct_chars(), elapsed_nanos(&self.begining))
    }

    /// Accuracy in percent: the correct characters among the keystrokes that
    /// count.
    pub fn calculate_acc(&self) -> (acc: Ratio)
        requires
            counts_fit(self@),
        ensures
            acc.num == 100 * correct_chars(self@),
            acc.den == correct_chars(self@) + self.pmiss,
    {
        acc_of(self.correct_chars(), self.pmiss)
    }

    /// The result of the test as it stands.
    pub fn summarize(&self) -> (summary: TestSummary)
        requires
            counts_fit(self@),
            self.mistakes + self.extra_mistakes <= usize::MAX,
        ensures
            summary.correct_chars == correct_chars(self@),
            summary.mistakes == self.mistakes + self.extra_mistakes,
            summary.wpm.num == 12_000_000_000 * correct_chars(self@),
            summary.acc.num == 100 * correct_chars(self@),
            summary.acc.den == correct_chars(self@) + self.pmiss,
    {
        TestSummary {
            correct_chars: self.correct_chars(),
            mistakes: self.mistakes + self.extra_mistakes,
            wpm: self.calculate_wpm(),
            acc: self.calculate_acc(),
        }
    }

    /// The samples after the clock was read twice: if `due_nanos` since the
    /// start make a sample due, the speed at `nanos` since the start was
    /// taken as a sample, in thousandths; else nothing was taken.
    pub open spec fn history_updated(
        &self,
        after: &TestState,
        due_nanos: u128,
        nanos: u128,
    ) -> bool {
        if self.hoarder.spec_is_due_after(whole_seconds(due_nanos)) {
            let speed = Ratio { num: (12_000_000_000 * correct_chars(self@)) as u128, den: nanos };
            &&& after.hoarder.wpms@ == pushed(
                self.hoarder.wpms@,
                self.hoarder.capacity as int,
                speed.spec_milli(),
            )
            &&& after.hoarder.seconds == (if self.hoarder.wpms.len() + 1
                == self.hoarder.capacity {
                doubled(self.hoarder.seconds)
            } else {
                self.hoarder.seconds
            })
        } else {
            after.same_samples(self)
        }
    }

    /// Takes a sample of the speed if one has fallen due by the clock.
    pub fn update_wpm_history(&mut self)
        requires
            counts_fit(old(self)@),
        ensures
            final(self)@ == old(self)@,
            final(self).begining == old(self).begining,
            final(self).same_setup(old(self)),
            exists|due_nanos: u128, nanos: u128|
                old(self).history_updated(final(self), due_nanos, nanos),
    {
        let due = self.hoarder.is_due(&self.begining);
        let ghost due_nanos = choose|due_nanos: u128|
            due == self.hoarder.spec_is_due_after(whole_seconds(due_nanos));
        if due {
            let speed = self.calculate_wpm();
            self.hoarder.push(speed.milli());
            assert(old(self).history_updated(self, due_nanos, speed.den));
        } else {
            assert(old(self).history_updated(self, due_nanos, 0));
        }
    }
}

} // verus!
