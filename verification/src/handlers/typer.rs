//! Keys while a test is typed.

use crate::application::{App, Request, Screen};
use crate::handlers::{typer_action, typer_action_spec, Key, TyperAction};
use crate::menu::Settings;
use crate::model::{correct_chars, on_char_spec, undo_char_spec, undo_word_spec};
use crate::model_lemmas::lemma_counts_fit;
use crate::settings::TypingTestConfig;
use vstd::prelude::*;

verus! {

/// What a key does while a test is typed: a character is scored, and when it
/// finishes the test, the summary is put down and the result is shown; the
/// undo keys undo; the others change the screen, ask for a new test or stop
/// the program. A character is passed over once the wrong keystrokes cannot
/// be counted any further.
pub open spec fn typed(before: App, key: Key, after: App, request: Request) -> bool {
    let action = typer_action_spec(key);
    let full = before.test.pmiss == usize::MAX;
    &&& after.is_alive == (before.is_alive && action != TyperAction::Stop)
    &&& after.margin == before.margin && after.paragraph == before.paragraph
    &&& match action {
        TyperAction::Type(c) => if full {
            after.test@ == before.test@ && after.screen == Screen::Test && request
                == Request::Nothing && after.settings == before.settings
        } else {
            let (view, finished) = on_char_spec(before.test@, c);
            let summary = after.settings.test_cfg.test_summary;
            &&& after.test@ == view
            &&& finished ==> {
                &&& after.screen == Screen::Post
                &&& request == Request::SaveRun
                &&& after.settings == (Settings {
                    test_cfg: TypingTestConfig { test_summary: summary, ..before.settings.test_cfg },
                    ..before.settings
                })
                &&& summary.correct_chars == correct_chars(view)
                &&& summary.mistakes == view.mistakes + view.extra_mistakes
                &&& summary.wpm.num == 12_000_000_000 * correct_chars(view)
                &&& summary.acc.num == 100 * correct_chars(view)
                &&& summary.acc.den == correct_chars(view) + view.pmiss
            }
            &&& !finished ==> after.screen == Screen::Test && request == Request::Nothing
                && after.settings == before.settings
        },
        TyperAction::UndoChar => after.test@ == undo_char_spec(before.test@) && after.screen
            == Screen::Test && request == Request::Nothing && after.settings == before.settings,
        TyperAction::UndoWord => after.test@ == undo_word_spec(before.test@) && after.screen
            == Screen::Test && request == Request::Nothing && after.settings == before.settings,
        TyperAction::ResetTest => after.test@ == before.test@ && after.screen == Screen::Test
            && request == Request::NewTest && after.settings == before.settings,
        TyperAction::ToSettings => after.test@ == before.test@ && after.screen
            == Screen::Settings && request == Request::Nothing && after.settings
            == before.settings,
        _ => after.test@ == before.test@ && after.screen == Screen::Test && request
            == Request::Nothing && after.settings == before.settings,
    }
}

/// Takes a key while a test is typed.
pub fn handle(key: Key, app: &mut App) -> (request: Request)
    requires
        old(app).wf(),
        old(app).screen == Screen::Test,
    ensures
        final(app).wf(),
        typed(*old(app), key, *final(app), request),
{
    match typer_action(key) {
        TyperAction::Stop => {
            app.stop();
            Request::Nothing
        },
        TyperAction::UndoWord => {
            app.test.undo_word();
            Request::Nothing
        },
        TyperAction::Type(c) => {
            if app.test.pmiss == usize::MAX {
                return Request::Nothing;
            }
            if app.test.on_char(c) {
                proof {
                    lemma_counts_fit(app.test@);
                }
                let summary = app.test.summarize();
                app.settings.test_cfg.test_summary = summary;
                proof {
                    let before = old(app).settings;
                    let after = app.settings;
                    assert(after.length_list == before.length_list);
                    assert(after.mods_list == before.mods_list);
                }
                app.change_to_post();
                Request::SaveRun
            } else {
                Request::Nothing
            }
        },
        TyperAction::UndoChar => {
            app.test.undo_char();
            Request::Nothing
        },
        TyperAction::ResetTest => Request::NewTest,
        TyperAction::ToSettings => {
            app.change_to_settings();
            Request::Nothing
        },
        TyperAction::Nothing => Request::Nothing,
    }
}

} // verus!
