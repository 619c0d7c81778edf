//! Keys on the screen behind a test.

use crate::application::{App, Request, Screen};
use crate::handlers::{post_action, post_action_spec, Key, PostAction};
use vstd::prelude::*;

verus! {

/// What a key does on the screen behind a test: it asks for a new test or
/// stops the program.
pub open spec fn posted(before: App, key: Key, after: App, request: Request) -> bool {
    let action = post_action_spec(key);
    &&& after == (App { is_alive: before.is_alive && action != PostAction::Stop, ..before })
    &&& request == (if action == PostAction::RestartTest {
        Request::NewTest
    } else {
        Request::Nothing
    })
}

/// Takes a key on the screen behind a test.
pub fn handle(key: Key, app: &mut App) -> (request: Request)
    requires
        old(app).wf(),
        old(app).screen == Screen::Post,
    ensures
        final(app).wf(),
        posted(*old(app), key, *final(app), request),
{
    match post_action(key) {
        PostAction::Stop => {
            app.stop();
            Request::Nothing
        },
        PostAction::RestartTest => Request::NewTest,
        PostAction::Nothing => Request::Nothing,
    }
}

} // verus!
