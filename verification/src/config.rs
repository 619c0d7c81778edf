//! What the user has configured, and the configuration that comes of it.

pub mod test_parser;
pub mod theme_parser;

use crate::colorscheme::{default_theme, Theme};
use crate::config::test_parser::UserTest;
use crate::config::theme_parser::UserTheme;
use crate::settings::TypingTestConfig;
use vstd::prelude::*;

verus! {

/// The configuration in use: the defaults, overwritten in part or in whole
/// by what the user has set.
pub struct FinalConfig {
    pub theme: Theme,
    pub typing_test_config: TypingTestConfig,
}

impl Default for FinalConfig {
    fn default() -> (config: Self)
        ensures
            config.theme == default_theme(),
            UserTest::unset().configures(config.typing_test_config),
    {
        proof {
            reveal_strlit("english");
        }
        FinalConfig { theme: Theme::default(), typing_test_config: TypingTestConfig::default() }
    }
}

/// What the user has set: a theme, a test, both or neither.
pub struct UserConfig {
    pub theme: Option<UserTheme>,
    pub test: Option<UserTest>,
}

impl UserConfig {
    /// The configuration in use. A part that the user has not set is the
    /// default.
    pub fn to_final_config(self) -> (config: FinalConfig)
        ensures
            config.theme == (match self.theme {
                Some(user_theme) => user_theme.spec_theme(),
                None => default_theme(),
            }),
            match self.test {
                Some(user_test) => user_test.configures(config.typing_test_config),
                None => UserTest::unset().configures(config.typing_test_config),
            },
    {
        proof {
            reveal_strlit("english");
        }
        let final_theme = match self.theme {
            Some(user_theme) => user_theme.to_theme(),
            None => Theme::default(),
        };
        let final_ttc = match self.test {
            Some(user_test) => user_test.into_typing_test_config(),
            None => TypingTestConfig::default(),
        };
        FinalConfig { theme: final_theme, typing_test_config: final_ttc }
    }
}

} // verus!
