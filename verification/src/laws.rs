//! Laws of the engine that relate several events.

use crate::cell::{cell_fresh, is_blank_at, width_of, Role, MAX_EXTRA_MISTAKES};
use crate::line_lemmas::{lemma_counts_update, lemma_shape_facts};
use crate::model::{advance_spec, correct_chars, on_char_spec, paint, regress_line_spec, undo_char_spec, undo_here_spec, wf, wf_finished, TestView};
use crate::model_lemmas::{lemma_advance, lemma_cursor_cell, lemma_on_char, lemma_regress, lemma_stepped, lemma_undo_char, stepped};
use vstd::prelude::*;

verus! {

/// Two states agree on where the test stands: on the cursor, the counters
/// that a backspace can restore, and the cells of the active line and the
/// line below.
pub open spec fn same_progress(a: TestView, b: TestView) -> bool {
    &&& a.done == b.done
    &&& a.pdone == b.pdone
    &&& a.mistakes == b.mistakes
    &&& a.blanks == b.blanks
    &&& a.extra_mistakes == b.extra_mistakes
    &&& a.cursor_x == b.cursor_x
    &&& a.current_char == b.current_char
    &&& a.length == b.length
    &&& a.active == b.active
    &&& a.down == b.down
}

/// Two states agree on everything but the record of keystrokes.
pub open spec fn same_but_keystrokes(a: TestView, b: TestView) -> bool {
    a == (TestView { pmiss: a.pmiss, first: a.first, ..b })
}

/// The keystroke is dropped: it is wrong, the cursor rests on a space, and
/// the blank before it is full.
pub open spec fn discarded(v: TestView, c: char) -> bool {
    c != v.current_char && v.current_char == ' ' && v.active[v.done - 1].content.len()
        >= MAX_EXTRA_MISTAKES
}

/// A keystroke that neither finishes the test nor is dropped.
pub open spec fn plain_step(v: TestView, c: char) -> bool {
    !on_char_spec(v, c).1 && !discarded(v, c)
}

/// A backspace takes back the keystroke before it: the cursor, the counters
/// and the cells are as they were. Only the record of keystrokes remains,
/// and, where the keystroke moved a line on, the line above is no longer
/// kept.
pub proof fn lemma_undo_after_char(v: TestView, c: char)
    requires
        wf(v),
        plain_step(v, c),
    ensures
        wf(on_char_spec(v, c).0),
        wf(undo_char_spec(on_char_spec(v, c).0)),
        same_progress(undo_char_spec(on_char_spec(v, c).0), v),
        on_char_spec(v, c).0.done > 0 ==> same_but_keystrokes(
            undo_char_spec(on_char_spec(v, c).0),
            v,
        ),
{
    let w = on_char_spec(v, c).0;
    let x = undo_char_spec(w);
    lemma_on_char(v, c);
    lemma_undo_char(w);
    lemma_cursor_cell(v);
    let v1 = TestView { first: false, ..v };
    if c != v.current_char && v.current_char == ' ' {
        let j = v.done - 1;
        let content = v.active[j].content;
        assert(content.push(c).drop_last() =~= content);
        assert(x.active =~= v.active);
    } else {
        let role = if c == v.current_char {
            Role::Done
        } else {
            Role::Wrong
        };
        let v2 = if c == v.current_char {
            v1
        } else {
            TestView { pmiss: v1.pmiss + 1, ..v1 }
        };
        let s = stepped(v2, role);
        assert(wf(v2));
        lemma_stepped(v2, role);
        lemma_advance(s);
        assert(on_char_spec(v, c) == advance_spec(s));
        assert(cell_fresh(v.active, v.done));
        assert(v.active[v.done].role == Role::Todo);
        let d = v.done;
        assert(paint(paint(v.active, d, role), d, Role::Todo) =~= v.active);
        if s.done < s.length {
            lemma_shape_facts(s.active, s.done);
            assert(cell_fresh(v.active, s.done));
            if is_blank_at(s.active, s.done) {
                lemma_shape_facts(s.active, s.done + 1);
                assert(w.current_char == ' ');
                assert(w.active[w.done - 1].content.len() == 0);
                assert(x.active =~= v.active);
            } else {
                assert(w.current_char != ' ');
                assert(x.active =~= v.active);
            }
        } else {
            lemma_regress(w);
            let r = regress_line_spec(w);
            assert(r.active == s.active);
            assert(r.done == s.done);
            lemma_counts_update(
                v.active,
                d,
                crate::cell::CellView { content: v.active[d].content, role },
                d,
            );
            assert(width_of(s.active, d + 1) == width_of(s.active, d) + 1);
            assert(x == undo_here_spec(r));
            assert(x.active =~= v.active);
        }
    }
}

/// The state after a sequence of keystrokes.
pub open spec fn run_spec(v: TestView, keys: Seq<char>) -> TestView
    decreases keys.len(),
{
    if keys.len() == 0 {
        v
    } else {
        on_char_spec(run_spec(v, keys.drop_last()), keys.last()).0
    }
}

/// The state after a number of backspaces.
pub open spec fn back_spec(v: TestView, n: nat) -> TestView
    decreases n,
{
    if n == 0 {
        v
    } else {
        back_spec(undo_char_spec(v), (n - 1) as nat)
    }
}

/// None of the keystrokes finishes the test or is dropped.
pub open spec fn plain_run(v: TestView, keys: Seq<char>) -> bool
    decreases keys.len(),
{
    keys.len() == 0 || (plain_run(v, keys.drop_last()) && plain_step(
        run_spec(v, keys.drop_last()),
        keys.last(),
    ))
}

/// Number of keystrokes that move a line on.
pub open spec fn advances(v: TestView, keys: Seq<char>) -> int
    decreases keys.len(),
{
    if keys.len() == 0 {
        0
    } else {
        advances(v, keys.drop_last()) + if run_spec(v, keys).done == 0 {
            1int
        } else {
            0
        }
    }
}

/// A run of plain keystrokes leaves a test under way.
pub proof fn lemma_run_wf(v: TestView, keys: Seq<char>)
    requires
        wf(v),
        plain_run(v, keys),
    ensures
        wf(run_spec(v, keys)),
        advances(v, keys) >= 0,
        keys.len() > 0 && advances(v, keys) == 0 ==> run_spec(v, keys).done > 0,
    decreases keys.len(),
{
    if keys.len() > 0 {
        lemma_run_wf(v, keys.drop_last());
        lemma_on_char(run_spec(v, keys.drop_last()), keys.last());
    }
}

/// A backspace does not read the record of keystrokes.
pub proof fn lemma_undo_ignores_keystrokes(a: TestView, b: TestView)
    requires
        same_but_keystrokes(a, b),
    ensures
        same_but_keystrokes(undo_char_spec(a), undo_char_spec(b)),
{
}

/// Backspaces do not read the record of keystrokes.
pub proof fn lemma_back_ignores_keystrokes(a: TestView, b: TestView, n: nat)
    requires
        same_but_keystrokes(a, b),
    ensures
        same_but_keystrokes(back_spec(a, n), back_spec(b, n)),
    decreases n,
{
    if n > 0 {
        lemma_undo_ignores_keystrokes(a, b);
        lemma_back_ignores_keystrokes(undo_char_spec(a), undo_char_spec(b), (n - 1) as nat);
    }
}

/// With the cursor past the start of the line, a backspace reads nothing but
/// where the test stands.
pub proof fn lemma_undo_same_progress(a: TestView, b: TestView)
    requires
        same_progress(a, b),
        a.done > 0,
    ensures
        same_progress(undo_char_spec(a), undo_char_spec(b)),
{
}

/// Backspaces after keystrokes on one line take all of them back, whatever
/// line is kept above.
pub proof fn lemma_round_trip_on_line(v: TestView, keys: Seq<char>, a: TestView)
    requires
        wf(v),
        plain_run(v, keys),
        advances(v, keys) == 0,
        same_progress(a, run_spec(v, keys)),
    ensures
        same_progress(back_spec(a, keys.len()), v),
        same_but_keystrokes(back_spec(run_spec(v, keys), keys.len()), v),
    decreases keys.len(),
{
    if keys.len() > 0 {
        let before = keys.drop_last();
        let u = run_spec(v, before);
        let w = run_spec(v, keys);
        lemma_run_wf(v, before);
        lemma_run_wf(v, keys);
        lemma_undo_after_char(u, keys.last());
        // From the state itself.
        let x = undo_char_spec(w);
        assert(same_but_keystrokes(x, u));
        lemma_back_ignores_keystrokes(x, u, before.len());
        lemma_round_trip_on_line(v, before, u);
        // From a state that agrees with it.
        lemma_undo_same_progress(a, w);
        lemma_round_trip_on_line(v, before, undo_char_spec(a));
    }
}

/// Round trip: as many backspaces as keystrokes put the test back where it
/// stood, with the cursor, the counters that count what stands, and all
/// cells of the active line and the line below as they were. This holds of
/// keystrokes of which none finishes the test, none is dropped at a full
/// blank, and at most one moves a line on: only one line above is kept.
pub proof fn lemma_round_trip(v: TestView, keys: Seq<char>)
    requires
        wf(v),
        plain_run(v, keys),
        advances(v, keys) <= 1,
    ensures
        same_progress(back_spec(run_spec(v, keys), keys.len()), v),
    decreases keys.len(),
{
    if keys.len() > 0 {
        let before = keys.drop_last();
        let u = run_spec(v, before);
        let w = run_spec(v, keys);
        lemma_run_wf(v, before);
        lemma_run_wf(v, keys);
        lemma_undo_after_char(u, keys.last());
        let x = undo_char_spec(w);
        if w.done == 0 {
            // The last keystroke moved a line on: the others were typed on
            // the line before.
            lemma_round_trip_on_line(v, before, x);
        } else {
            lemma_back_ignores_keystrokes(x, u, before.len());
            lemma_round_trip(v, before);
        }
    }
}

/// Number of keystrokes that miss the character under the cursor.
pub open spec fn wrong_keys(v: TestView, keys: Seq<char>) -> int
    decreases keys.len(),
{
    if keys.len() == 0 {
        0
    } else {
        wrong_keys(v, keys.drop_last()) + if keys.last() != run_spec(
            v,
            keys.drop_last(),
        ).current_char {
            1int
        } else {
            0
        }
    }
}

/// No keystroke but the last finishes the test.
pub open spec fn finishes_last(v: TestView, keys: Seq<char>) -> bool {
    forall|i: int|
        0 <= i < keys.len() - 1 ==> !(#[trigger] on_char_spec(
            run_spec(v, keys.subrange(0, i)),
            keys[i],
        )).1
}

/// Every keystroke counts once: a right one adds to the correct characters,
/// a wrong one to the wrong keystrokes, whether it is shown, dropped or
/// later taken back. So after `k` keystrokes of which `m` are wrong, typed
/// into a fresh test, the accuracy is `100 * (k - m)` over `k`.
pub proof fn lemma_keystrokes_counted(v: TestView, keys: Seq<char>)
    requires
        wf(v),
        finishes_last(v, keys),
    ensures
        correct_chars(run_spec(v, keys)) == correct_chars(v) + keys.len() - wrong_keys(v, keys),
        run_spec(v, keys).pmiss == v.pmiss + wrong_keys(v, keys),
        0 <= wrong_keys(v, keys) <= keys.len(),
        wf(run_spec(v, keys)) || (keys.len() > 0 && wf_finished(run_spec(v, keys))),
        keys.len() > 0 ==> wf(run_spec(v, keys.drop_last())),
    decreases keys.len(),
{
    if keys.len() > 0 {
        let before = keys.drop_last();
        assert forall|i: int| 0 <= i < before.len() - 1 implies !(#[trigger] on_char_spec(
            run_spec(v, before.subrange(0, i)),
            before[i],
        )).1 by {
            assert(before.subrange(0, i) =~= keys.subrange(0, i));
            assert(!on_char_spec(run_spec(v, keys.subrange(0, i)), keys[i]).1);
        }
        lemma_keystrokes_counted(v, before);
        if before.len() > 0 {
            let i = before.len() - 1;
            assert(before.drop_last() =~= keys.subrange(0, i));
            assert(!on_char_spec(run_spec(v, keys.subrange(0, i)), keys[i]).1);
            assert(run_spec(v, before) == on_char_spec(
                run_spec(v, before.drop_last()),
                before.last(),
            ).0);
            lemma_on_char(run_spec(v, before.drop_last()), before.last());
        }
        lemma_on_char(run_spec(v, before), keys.last());
    }
}

/// A backspace takes back one character at most, and no wrong keystroke.
pub proof fn lemma_undo_counts(v: TestView)
    requires
        wf(v),
    ensures
        correct_chars(v) - 1 <= correct_chars(undo_char_spec(v)) <= correct_chars(v),
        undo_char_spec(v).pmiss == v.pmiss,
{
    lemma_undo_char(v);
    if v.done > 0 {
        lemma_cursor_cell(v);
    } else if v.up.len() > 0 {
        lemma_regress(v);
    }
}

/// A wrong keystroke and a backspace behind it leave the correct characters
/// as they were and one wrong keystroke more.
pub proof fn lemma_wrong_and_back(v: TestView, c: char)
    requires
        wf(v),
        c != v.current_char,
        !on_char_spec(v, c).1,
    ensures
        correct_chars(undo_char_spec(on_char_spec(v, c).0)) == correct_chars(v),
        undo_char_spec(on_char_spec(v, c).0).pmiss == v.pmiss + 1,
        wf(undo_char_spec(on_char_spec(v, c).0)),
{
    let w = on_char_spec(v, c).0;
    lemma_on_char(v, c);
    lemma_undo_char(w);
    lemma_undo_counts(w);
    if discarded(v, c) {
        lemma_cursor_cell(v);
        lemma_cursor_cell(w);
    } else {
        lemma_undo_after_char(v, c);
    }
}

/// A key that is dropped at a full blank counts as a wrong keystroke and
/// changes nothing else: no cell, no other counter, not the cursor.
pub proof fn lemma_dropped_key(v: TestView, c: char)
    requires
        wf(v),
        discarded(v, c),
    ensures
        on_char_spec(v, c) == (TestView { pmiss: v.pmiss + 1, first: false, ..v }, false),
        wf(on_char_spec(v, c).0),
{
    lemma_on_char(v, c);
}

/// What is done to a test: a key is typed, or backspace.
pub enum Event {
    Key(char),
    Backspace,
}

/// The state after an event.
pub open spec fn apply_spec(v: TestView, event: Event) -> TestView {
    match event {
        Event::Key(c) => on_char_spec(v, c).0,
        Event::Backspace => undo_char_spec(v),
    }
}

/// The state after a sequence of events.
pub open spec fn run_events(v: TestView, events: Seq<Event>) -> TestView
    decreases events.len(),
{
    if events.len() == 0 {
        v
    } else {
        apply_spec(run_events(v, events.drop_last()), events.last())
    }
}

/// Number of keys among the events that hit the character under the cursor
/// (`right`) or miss it.
pub open spec fn keys_counted(v: TestView, events: Seq<Event>, right: bool) -> int
    decreases events.len(),
{
    if events.len() == 0 {
        0
    } else {
        keys_counted(v, events.drop_last(), right) + match events.last() {
            Event::Key(c) => if (c == run_events(v, events.drop_last()).current_char) == right {
                1int
            } else {
                0
            },
            Event::Backspace => 0,
        }
    }
}

/// Before each event the test is under way, and no backspace takes back a
/// correct character: what was typed right is left standing.
pub open spec fn right_keys_stand(v: TestView, events: Seq<Event>) -> bool
    decreases events.len(),
{
    events.len() == 0 || {
        let before = run_events(v, events.drop_last());
        &&& right_keys_stand(v, events.drop_last())
        &&& wf(before)
        &&& events.last() is Backspace ==> correct_chars(undo_char_spec(before))
            == correct_chars(before)
    }
}

/// Accuracy with backspaces among the keys: where no backspace takes back a
/// correct character, the correct characters are the keys that were typed
/// right and the wrong keystrokes are the keys that were typed wrong, taken
/// back or not. So after `k` keys of which `m` were wrong, typed into a
/// fresh test, the accuracy is `100 * (k - m)` over `k`.
pub proof fn lemma_events_counted(v: TestView, events: Seq<Event>)
    requires
        right_keys_stand(v, events),
    ensures
        correct_chars(run_events(v, events)) == correct_chars(v) + keys_counted(
            v,
            events,
            true,
        ),
        run_events(v, events).pmiss == v.pmiss + keys_counted(v, events, false),
        keys_counted(v, events, true) >= 0,
        keys_counted(v, events, false) >= 0,
    decreases events.len(),
{
    if events.len() > 0 {
        let before = events.drop_last();
        lemma_events_counted(v, before);
        let u = run_events(v, before);
        match events.last() {
            Event::Key(c) => {
                lemma_on_char(u, c);
            },
            Event::Backspace => {
                lemma_undo_char(u);
            },
        }
    }
}

} // verus!
