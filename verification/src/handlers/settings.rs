//! Keys in the settings.

use crate::application::{request_of, App, Request, Screen};
use crate::handlers::{settings_action, settings_action_spec, Key, SettingsAction};
use crate::menu::EnterOutcome;
use vstd::prelude::*;

verus! {

/// What a key does in the settings: it moves the hover or the selection,
/// opens a list or takes a choice over, asks for a new test or stops the
/// program.
pub open spec fn settled(before: App, key: Key, after: App, request: Request) -> bool {
    let action = settings_action_spec(key);
    let same = after.settings == before.settings;
    &&& after == (App { settings: after.settings, is_alive: after.is_alive, ..before })
    &&& after.is_alive == (before.is_alive && action != SettingsAction::Stop && !(action
        == SettingsAction::Escape && before.settings.spec_escape().1))
    &&& match action {
        SettingsAction::Escape => after.settings == before.settings.spec_escape().0 && request
            == Request::Nothing,
        SettingsAction::RestartTest => same && request == Request::NewTest,
        SettingsAction::Left => after.settings == before.settings.spec_sideways() && request
            == Request::Nothing,
        SettingsAction::Right => after.settings == before.settings.spec_sideways() && request
            == Request::Nothing,
        SettingsAction::Up => after.settings == before.settings.spec_step(false) && request
            == Request::Nothing,
        SettingsAction::Down => after.settings == before.settings.spec_step(true) && request
            == Request::Nothing,
        SettingsAction::Enter => exists|outcome: EnterOutcome|
            before.settings.entered(after.settings, outcome) && request == request_of(outcome),
        _ => same && request == Request::Nothing,
    }
}

/// Takes a key in the settings.
pub fn handle(key: Key, app: &mut App) -> (request: Request)
    requires
        old(app).wf(),
        old(app).screen == Screen::Settings,
    ensures
        final(app).wf(),
        settled(*old(app), key, *final(app), request),
{
    match settings_action(key) {
        SettingsAction::Escape => {
            if app.settings.escape() {
                app.stop();
            }
            Request::Nothing
        },
        SettingsAction::RestartTest => Request::NewTest,
        SettingsAction::Stop => {
            app.stop();
            Request::Nothing
        },
        SettingsAction::Left => {
            app.settings.left();
            Request::Nothing
        },
        SettingsAction::Down => {
            app.settings.down();
            Request::Nothing
        },
        SettingsAction::Up => {
            app.settings.up();
            Request::Nothing
        },
        SettingsAction::Right => {
            app.settings.right();
            Request::Nothing
        },
        SettingsAction::Enter => {
            let outcome = app.settings.enter();
            let request = match outcome {
                EnterOutcome::Opened => Request::Nothing,
                EnterOutcome::Ignored => Request::Nothing,
                EnterOutcome::CacheMaxWpm => Request::CacheMaxWpm,
                EnterOutcome::ScriptChosen => Request::LookUpScript,
                EnterOutcome::NeedWordCount => Request::CountWords,
            };
            assert(old(app).settings.entered(app.settings, outcome) && request
                == request_of(outcome));
            request
        },
        SettingsAction::Nothing => Request::Nothing,
    }
}

} // verus!
