//! The state of the program: which screen is shown, the test that is typed
//! and the settings. Keys are taken here; what needs the outside world is
//! handed back as a request.

use crate::cell::{lines_view, Cell};
use crate::handlers::post::posted;
use crate::handlers::settings::settled;
use crate::handlers::typer::typed;
use crate::handlers::Key;
use crate::menu::{EnterOutcome, Settings};
use crate::model::{wf, wf_finished};
use crate::typer::{lines_ready, start_view, TestState};
use vstd::prelude::*;

verus! {

pub const APPLOGO: &'static str = " _._ _  _ |  _    \n_>| | |(_)|<(/_\\/ \n               /  ";

/// The screens of the program.
#[derive(Debug, Clone, Copy, PartialEq, Eq, Structural)]
pub enum Screen {
    /// A test is typed.
    Test,
    /// The result of a test is shown.
    Post,
    Settings,
}

/// What the caller is to do after a key was taken.
#[derive(Debug, Clone, Copy, PartialEq, Eq, Structural)]
pub enum Request {
    Nothing,
    /// A test is to be made from the configuration and handed to
    /// `reset_test`.
    NewTest,
    /// A test was finished: its summary stands in the configuration and is
    /// to be stored.
    SaveRun,
    /// The best speed so far of the configured test is to be looked up.
    CacheMaxWpm,
    /// The best speed so far of the configured script is to be looked up.
    LookUpScript,
    /// The words of the configured word list are to be counted and the count
    /// handed to the settings.
    CountWords,
}

pub struct App {
    pub settings: Settings,
    pub test: TestState,
    pub margin: u16,
    pub paragraph: u16,
    pub screen: Screen,
    pub is_alive: bool,
}

/// The request that comes of what the settings leave to do.
pub open spec fn request_of(outcome: EnterOutcome) -> Request {
    match outcome {
        EnterOutcome::Opened => Request::Nothing,
        EnterOutcome::Ignored => Request::Nothing,
        EnterOutcome::CacheMaxWpm => Request::CacheMaxWpm,
        EnterOutcome::ScriptChosen => Request::LookUpScript,
        EnterOutcome::NeedWordCount => Request::CountWords,
    }
}

impl App {
    /// The settings are sound, and while a test is typed the test is under
    /// way.
    pub open spec fn wf(&self) -> bool {
        &&& self.settings.wf()
        &&& self.screen == Screen::Test ==> wf(self.test@)
        &&& self.screen == Screen::Post ==> wf(self.test@) || wf_finished(self.test@)
    }

    /// The program with the settings shown and no test yet.
    pub fn new(settings: Settings, test: TestState) -> (app: Self)
        requires
            settings.wf(),
        ensures
            app.wf(),
            app.settings == settings,
            app.test == test,
            app.screen == Screen::Settings,
            app.is_alive,
            app.margin == 2,
            app.paragraph == 62,
    {
        App { test, is_alive: true, margin: 2, paragraph: 62, settings, screen: Screen::Settings }
    }

    pub fn change_to_post(&mut self)
        requires
            wf(old(self).test@) || wf_finished(old(self).test@),
        ensures
            *final(self) == (App { screen: Screen::Post, ..*old(self) }),
    {
        self.screen = Screen::Post;
    }

    pub fn change_to_settings(&mut self)
        ensures
            *final(self) == (App { screen: Screen::Settings, ..*old(self) }),
    {
        self.screen = Screen::Settings;
    }

    pub fn change_to_test(&mut self)
        requires
            wf(old(self).test@),
        ensures
            *final(self) == (App { screen: Screen::Test, ..*old(self) }),
    {
        self.screen = Screen::Test;
    }

    pub fn stop(&mut self)
        ensures
            *final(self) == (App { is_alive: false, ..*old(self) }),
    {
        self.is_alive = false;
    }

    /// Begins a test over the given lines, the first line last, and shows
    /// it.
    pub fn reset_test(&mut self, lines: Vec<Vec<Cell>>)
        requires
            old(self).settings.wf(),
            lines_ready(lines_view(lines@)),
        ensures
            final(self).wf(),
            final(self).test@ == start_view(lines_view(lines@)),
            final(self).screen == Screen::Test,
            final(self).settings == old(self).settings,
            final(self).is_alive == old(self).is_alive,
            final(self).margin == old(self).margin,
            final(self).paragraph == old(self).paragraph,
            final(self).test.same_setup(&old(self).test),
    {
        self.test.reset(lines);
        self.screen = Screen::Test;
    }

    /// Takes a key on the screen that is shown.
    pub fn handle_key_event(&mut self, key: Key) -> (request: Request)
        requires
            old(self).wf(),
        ensures
            final(self).wf(),
            old(self).screen == Screen::Test ==> typed(*old(self), key, *final(self), request),
            old(self).screen == Screen::Post ==> posted(*old(self), key, *final(self), request),
            old(self).screen == Screen::Settings ==> settled(
                *old(self),
                key,
                *final(self),
                request,
            ),
    {
        match self.screen {
            Screen::Test => crate::handlers::typer::handle(key, self),
            Screen::Post => crate::handlers::post::handle(key, self),
            Screen::Settings => crate::handlers::settings::handle(key, self),
        }
    }
}

} // verus!
