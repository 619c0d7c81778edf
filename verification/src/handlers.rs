//! What a key means on each screen, and what it does there.

pub mod post;
pub mod settings;
pub mod typer;

use vstd::prelude::*;

verus! {

/// The keys that the screens tell apart.
#[derive(Debug, Clone, Copy, PartialEq, Eq, Structural)]
pub enum KeyCode {
    Char(char),
    Backspace,
    Tab,
    Esc,
    Enter,
    Left,
    Right,
    Up,
    Down,
    /// Any other key.
    Other,
}

/// A key as it was pressed.
#[derive(Debug, Clone, Copy, PartialEq, Eq, Structural)]
pub struct Key {
    pub code: KeyCode,
    /// The control key, and no other modifier, was held.
    pub control: bool,
}

/// What a key asks for while a test is typed.
#[derive(Debug, Clone, Copy, PartialEq, Eq, Structural)]
pub enum TyperAction {
    Stop,
    UndoWord,
    Type(char),
    UndoChar,
    ResetTest,
    ToSettings,
    Nothing,
}

/// What a key asks for while a test is typed. With control held, `c` stops
/// the program and every other key undoes a word: terminals report control
/// with backspace in many ways.
pub open spec fn typer_action_spec(key: Key) -> TyperAction {
    if key.control {
        if key.code == KeyCode::Char('c') {
            TyperAction::Stop
        } else {
            TyperAction::UndoWord
        }
    } else {
        match key.code {
            KeyCode::Char(c) => TyperAction::Type(c),
            KeyCode::Backspace => TyperAction::UndoChar,
            KeyCode::Tab => TyperAction::ResetTest,
            KeyCode::Esc => TyperAction::ToSettings,
            _ => TyperAction::Nothing,
        }
    }
}

pub fn typer_action(key: Key) -> (action: TyperAction)
    ensures
        action == typer_action_spec(key),
{
    if key.control {
        if let KeyCode::Char(c) = key.code {
            if c == 'c' {
                return TyperAction::Stop;
            }
        }
        return TyperAction::UndoWord;
    }
    match key.code {
        KeyCode::Char(c) => TyperAction::Type(c),
        KeyCode::Backspace => TyperAction::UndoChar,
        KeyCode::Tab => TyperAction::ResetTest,
        KeyCode::Esc => TyperAction::ToSettings,
        _ => TyperAction::Nothing,
    }
}

/// What a key asks for on the screen behind a test.
#[derive(Debug, Clone, Copy, PartialEq, Eq, Structural)]
pub enum PostAction {
    Stop,
    RestartTest,
    Nothing,
}

pub open spec fn post_action_spec(key: Key) -> PostAction {
    match key.code {
        KeyCode::Esc => PostAction::Stop,
        KeyCode::Tab => PostAction::RestartTest,
        KeyCode::Char(c) => if key.control && c == 'c' {
            PostAction::Stop
        } else {
            PostAction::Nothing
        },
        _ => PostAction::Nothing,
    }
}

pub fn post_action(key: Key) -> (action: PostAction)
    ensures
        action == post_action_spec(key),
{
    match key.code {
        KeyCode::Esc => PostAction::Stop,
        KeyCode::Tab => PostAction::RestartTest,
        KeyCode::Char(c) => {
            if key.control && c == 'c' {
                PostAction::Stop
            } else {
                PostAction::Nothing
            }
        },
        _ => PostAction::Nothing,
    }
}

/// What a key asks for in the settings.
#[derive(Debug, Clone, Copy, PartialEq, Eq, Structural)]
pub enum SettingsAction {
    Escape,
    RestartTest,
    Stop,
    Left,
    Down,
    Up,
    Right,
    Enter,
    Nothing,
}

pub open spec fn settings_action_spec(key: Key) -> SettingsAction {
    match key.code {
        KeyCode::Esc => SettingsAction::Escape,
        KeyCode::Tab => SettingsAction::RestartTest,
        KeyCode::Char(c) => if key.control && c == 'c' {
            SettingsAction::Stop
        } else if c == 'h' {
            SettingsAction::Left
        } else if c == 'j' {
            SettingsAction::Down
        } else if c == 'k' {
            SettingsAction::Up
        } else if c == 'l' {
            SettingsAction::Right
        } else if c == 'q' {
            SettingsAction::Stop
        } else {
            SettingsAction::Nothing
        },
        KeyCode::Left => SettingsAction::Left,
        KeyCode::Down => SettingsAction::Down,
        KeyCode::Up => SettingsAction::Up,
        KeyCode::Right => SettingsAction::Right,
        KeyCode::Enter => SettingsAction::Enter,
        _ => SettingsAction::Nothing,
    }
}

pub fn settings_action(key: Key) -> (action: SettingsAction)
    ensures
        action == settings_action_spec(key),
{
    match key.code {
        KeyCode::Esc => SettingsAction::Escape,
        KeyCode::Tab => SettingsAction::RestartTest,
        KeyCode::Char(c) => {
            if key.control && c == 'c' {
                return SettingsAction::Stop;
            }
            if c == 'h' {
                SettingsAction::Left
            } else if c == 'j' {
                SettingsAction::Down
            } else if c == 'k' {
                SettingsAction::Up
            } else if c == 'l' {
                SettingsAction::Right
            } else if c == 'q' {
                SettingsAction::Stop
            } else {
                SettingsAction::Nothing
            }
        },
        KeyCode::Left => SettingsAction::Left,
        KeyCode::Down => SettingsAction::Down,
        KeyCode::Up => SettingsAction::Up,
        KeyCode::Right => SettingsAction::Right,
        KeyCode::Enter => SettingsAction::Enter,
        _ => SettingsAction::Nothing,
    }
}

} // verus!
