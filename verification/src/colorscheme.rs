//! Colors and the theme that assigns them to the roles of the interface.

use crate::settings::SettingsColors;
use crate::typer::TestColors;
use vstd::prelude::*;

verus! {

/// A terminal color.
#[derive(Debug, Clone, Copy, PartialEq, Eq, Hash, Structural)]
pub enum Color {
    Reset,
    Black,
    Red,
    Green,
    Yellow,
    Blue,
    Magenta,
    Cyan,
    Gray,
    DarkGray,
    LightRed,
    LightGreen,
    LightYellow,
    LightBlue,
    LightMagenta,
    LightCyan,
    White,
    Rgb(u8, u8, u8),
    Indexed(u8),
}

/// The colors of the interface.
#[derive(Debug, Clone, Copy, PartialEq, Eq, Structural)]
pub struct Theme {
    pub done: Color,
    pub wrong: Color,
    pub todo: Color,
    pub hover: Color,
    pub active: Color,
}

/// The colors that hold unless others are set.
pub open spec fn default_theme() -> Theme {
    Theme {
        done: Color::White,
        wrong: Color::Red,
        todo: Color::Gray,
        hover: Color::Magenta,
        active: Color::Green,
    }
}

impl Default for Theme {
    fn default() -> (theme: Self)
        ensures
            theme == default_theme(),
    {
        Theme {
            done: Color::White,
            wrong: Color::Red,
            todo: Color::Gray,
            hover: Color::Magenta,
            active: Color::Green,
        }
    }
}

impl Theme {
    pub fn to_settings_colors(self) -> (colors: SettingsColors)
        ensures
            colors == (SettingsColors { hover: self.hover, active: self.active }),
    {
        SettingsColors { hover: self.hover, active: self.active }
    }

    pub fn to_test_colors(self) -> (colors: TestColors)
        ensures
            colors == (TestColors { todo: self.todo, done: self.done, wrong: self.wrong }),
    {
        TestColors { todo: self.todo, done: self.done, wrong: self.wrong }
    }
}

} // verus!
