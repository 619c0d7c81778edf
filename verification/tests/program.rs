use smokey::application::{App, Request, Screen};
use smokey::colorscheme::Color;
use smokey::database::{entry_name, run_record};
use smokey::handlers::{
    post_action, settings_action, typer_action, Key, KeyCode, PostAction, SettingsAction,
    TyperAction,
};
use smokey::langs::layout_words;
use smokey::menu::{EnterOutcome, Settings};
use smokey::settings::{
    SetList, SettingsColors, TestMod, TestVariant, TypingTestConfig,
};
use smokey::typer::{check_lines, TestState};
use smokey::utils::decimal::parse_decimal;

fn strings(list: &[&str]) -> Vec<String> {
    list.iter().map(|w| w.to_string()).collect()
}

fn key(code: KeyCode) -> Key {
    Key { code, control: false }
}

fn ctrl(code: KeyCode) -> Key {
    Key { code, control: true }
}

fn settings() -> Settings {
    Settings::with_config(
        SettingsColors::default(),
        TypingTestConfig::default(),
        strings(&["english", "polish", "#!quotes"]),
        1200,
    )
}

fn app_with_test(words: &[&str]) -> App {
    let mut app = App::new(settings(), TestState::default());
    let lines = layout_words(&strings(words));
    assert!(check_lines(&lines));
    app.reset_test(lines);
    app
}

#[test]
fn keys_mean_what_the_screen_says() {
    assert_eq!(typer_action(key(KeyCode::Char('c'))), TyperAction::Type('c'));
    assert_eq!(typer_action(ctrl(KeyCode::Char('c'))), TyperAction::Stop);
    assert_eq!(typer_action(ctrl(KeyCode::Char('h'))), TyperAction::UndoWord);
    assert_eq!(typer_action(ctrl(KeyCode::Backspace)), TyperAction::UndoWord);
    assert_eq!(typer_action(key(KeyCode::Backspace)), TyperAction::UndoChar);
    assert_eq!(typer_action(key(KeyCode::Tab)), TyperAction::ResetTest);
    assert_eq!(typer_action(key(KeyCode::Esc)), TyperAction::ToSettings);
    assert_eq!(typer_action(key(KeyCode::Enter)), TyperAction::Nothing);

    assert_eq!(post_action(key(KeyCode::Esc)), PostAction::Stop);
    assert_eq!(post_action(key(KeyCode::Tab)), PostAction::RestartTest);
    assert_eq!(post_action(ctrl(KeyCode::Char('c'))), PostAction::Stop);
    assert_eq!(post_action(key(KeyCode::Char('c'))), PostAction::Nothing);
    assert_eq!(post_action(ctrl(KeyCode::Char('x'))), PostAction::Nothing);

    assert_eq!(settings_action(key(KeyCode::Esc)), SettingsAction::Escape);
    assert_eq!(settings_action(key(KeyCode::Tab)), SettingsAction::RestartTest);
    assert_eq!(settings_action(ctrl(KeyCode::Char('c'))), SettingsAction::Stop);
    assert_eq!(settings_action(key(KeyCode::Char('q'))), SettingsAction::Stop);
    assert_eq!(settings_action(key(KeyCode::Char('h'))), SettingsAction::Left);
    assert_eq!(settings_action(key(KeyCode::Char('j'))), SettingsAction::Down);
    assert_eq!(settings_action(key(KeyCode::Char('k'))), SettingsAction::Up);
    assert_eq!(settings_action(key(KeyCode::Char('l'))), SettingsAction::Right);
    assert_eq!(settings_action(key(KeyCode::Left)), SettingsAction::Left);
    assert_eq!(settings_action(key(KeyCode::Right)), SettingsAction::Right);
    assert_eq!(settings_action(key(KeyCode::Up)), SettingsAction::Up);
    assert_eq!(settings_action(key(KeyCode::Down)), SettingsAction::Down);
    assert_eq!(settings_action(key(KeyCode::Enter)), SettingsAction::Enter);
    assert_eq!(settings_action(key(KeyCode::Char('x'))), SettingsAction::Nothing);
    assert_eq!(settings_action(key(KeyCode::Other)), SettingsAction::Nothing);
}

#[test]
fn a_test_is_typed_through_to_the_result() {
    let mut app = app_with_test(&["dog", "fox"]);
    assert_eq!(app.screen, Screen::Test);
    assert!(app.is_alive);
    assert_eq!((app.margin, app.paragraph), (2, 62));

    // q in this context just counts toward the test
    assert_eq!(app.handle_key_event(key(KeyCode::Char('q'))), Request::Nothing);
    assert_eq!(app.test.done, 1);
    assert!(app.is_alive);
    app.handle_key_event(key(KeyCode::Backspace));
    assert_eq!(app.test.done, 0);

    for c in "dog fo".chars() {
        assert_eq!(app.handle_key_event(key(KeyCode::Char(c))), Request::Nothing);
        assert_eq!(app.screen, Screen::Test);
    }
    assert_eq!(app.handle_key_event(ctrl(KeyCode::Char('w'))), Request::Nothing);
    assert_eq!(app.test.done, 5);
    for c in "fo".chars() {
        app.handle_key_event(key(KeyCode::Char(c)));
    }
    assert_eq!(app.handle_key_event(key(KeyCode::Char('x'))), Request::SaveRun);
    assert_eq!(app.screen, Screen::Post);
    let summary = app.settings.test_cfg.test_summary;
    assert_eq!(summary.correct_chars, 7);
    assert_eq!(summary.mistakes, 0);
    assert_eq!(summary.acc.num, 700);
    assert_eq!(summary.acc.den, 8);

    // On the result nothing is typed.
    assert_eq!(app.handle_key_event(key(KeyCode::Char('x'))), Request::Nothing);
    assert_eq!(app.handle_key_event(key(KeyCode::Tab)), Request::NewTest);
    assert_eq!(app.screen, Screen::Post);
    app.reset_test(layout_words(&strings(&["owl"])));
    assert_eq!(app.screen, Screen::Test);
    assert_eq!(app.test.current_char, 'o');
    assert_eq!(app.test.pmiss, 0);

    // Esc should go back to the settings
    assert_eq!(app.handle_key_event(key(KeyCode::Esc)), Request::Nothing);
    assert_eq!(app.screen, Screen::Settings);
    // now q char is handled differently -> (quit app)
    app.handle_key_event(key(KeyCode::Char('q')));
    assert!(!app.is_alive);
}

#[test]
fn each_screen_has_its_handler() {
    let mut app = app_with_test(&["dog"]);
    assert_eq!(smokey::handlers::typer::handle(key(KeyCode::Char('d')), &mut app), Request::Nothing);
    assert_eq!(app.test.done, 1);
    assert_eq!(smokey::handlers::typer::handle(key(KeyCode::Esc), &mut app), Request::Nothing);
    assert_eq!(app.screen, Screen::Settings);
    assert_eq!(
        smokey::handlers::settings::handle(key(KeyCode::Enter), &mut app),
        Request::Nothing
    );
    assert_eq!(app.settings.active, SetList::Length);
    assert_eq!(
        smokey::handlers::settings::handle(key(KeyCode::Enter), &mut app),
        Request::CacheMaxWpm
    );
    assert_eq!(app.settings.test_cfg.length, 10);
    assert_eq!(smokey::handlers::settings::handle(key(KeyCode::Tab), &mut app), Request::NewTest);
    app.reset_test(layout_words(&strings(&["a"])));
    assert_eq!(smokey::handlers::typer::handle(key(KeyCode::Char('a')), &mut app), Request::SaveRun);
    assert_eq!(smokey::handlers::post::handle(key(KeyCode::Char('a')), &mut app), Request::Nothing);
    assert_eq!(smokey::handlers::post::handle(key(KeyCode::Tab), &mut app), Request::NewTest);
    assert_eq!(smokey::handlers::post::handle(key(KeyCode::Esc), &mut app), Request::Nothing);
    assert!(!app.is_alive);
}

#[test]
fn the_program_stops_on_control_c() {
    let mut app = app_with_test(&["dog"]);
    assert_eq!(app.handle_key_event(key(KeyCode::Tab)), Request::NewTest);
    app.handle_key_event(ctrl(KeyCode::Char('c')));
    assert!(!app.is_alive);
    let mut app = App::new(settings(), TestState::default());
    assert_eq!(app.screen, Screen::Settings);
    assert_eq!(app.handle_key_event(key(KeyCode::Tab)), Request::NewTest);
    app.handle_key_event(key(KeyCode::Esc));
    assert!(!app.is_alive);
}

#[test]
fn the_hover_moves_in_a_square() {
    let mut settings = settings();
    assert_eq!(settings.hovered, SetList::Length);
    assert_eq!(settings.active, SetList::Nil);
    assert_eq!(settings.color_hover_or_active(SetList::Length), Some(Color::Magenta));
    assert_eq!(settings.color_hover_or_active(SetList::Test), None);
    settings.down();
    assert_eq!(settings.hovered, SetList::Test);
    settings.right();
    assert_eq!(settings.hovered, SetList::Mods);
    settings.up();
    assert_eq!(settings.hovered, SetList::Frequency);
    settings.left();
    assert_eq!(settings.hovered, SetList::Length);
    settings.up();
    assert_eq!(settings.hovered, SetList::Test);
    settings.left();
    assert_eq!(settings.hovered, SetList::Mods);
    assert!(settings.escape());
    assert_eq!(settings.hovered, SetList::Mods);
    assert!(settings.get_list(SetList::Nil).is_none());
    assert_eq!(settings.get_list(SetList::Mods).unwrap().items.len(), 3);
}

#[test]
fn choices_are_taken_over() {
    let mut settings = settings();
    assert_eq!(settings.length_list.items, vec!["10", "15", "25", "50", "100"]);
    assert_eq!(settings.frequency_list.items, vec!["100", "1000", "1200"]);
    assert_eq!(settings.mods_list.items, vec!["punctuation", "numbers", "symbols"]);
    assert_eq!(settings.test_cfg.word_pool, 1200);

    // length
    assert_eq!(settings.enter(), EnterOutcome::Opened);
    assert_eq!(settings.active, SetList::Length);
    assert_eq!(settings.hovered, SetList::Nil);
    assert_eq!(settings.length_list.selected, Some(0));
    assert_eq!(settings.color_hover_or_active(SetList::Length), Some(Color::Green));
    settings.down();
    settings.down();
    settings.down();
    assert_eq!(settings.enter(), EnterOutcome::CacheMaxWpm);
    assert_eq!(settings.test_cfg.length, 50);
    settings.up();
    settings.up();
    settings.up();
    settings.up();
    assert_eq!(settings.length_list.selected, Some(4));
    assert_eq!(settings.enter(), EnterOutcome::CacheMaxWpm);
    assert_eq!(settings.test_cfg.length, 100);

    // pool
    settings.right();
    assert_eq!(settings.hovered, SetList::Frequency);
    assert_eq!(settings.active, SetList::Nil);
    settings.enter();
    settings.down();
    assert_eq!(settings.enter(), EnterOutcome::CacheMaxWpm);
    assert_eq!(settings.test_cfg.word_pool, 1000);

    // mods
    assert!(!settings.escape());
    settings.down();
    assert_eq!(settings.hovered, SetList::Mods);
    settings.enter();
    settings.down();
    assert_eq!(settings.enter(), EnterOutcome::CacheMaxWpm);
    assert!(settings.test_cfg.mods.contains(&TestMod::Numbers));
    assert_eq!(settings.test_cfg.to_string(), "english: 100/1000 + 17");
    assert_eq!(settings.enter(), EnterOutcome::CacheMaxWpm);
    assert!(settings.test_cfg.mods.is_empty());
    assert_eq!(settings.test_cfg.to_string(), "english: 100/1000 ");

    // test
    settings.left();
    assert_eq!(settings.hovered, SetList::Test);
    settings.enter();
    settings.down();
    assert_eq!(settings.enter(), EnterOutcome::NeedWordCount);
    assert_eq!(settings.test_cfg.name, "polish");
    assert_eq!(settings.test_cfg.variant, TestVariant::Standard);
    settings.set_word_count(300);
    assert_eq!(settings.frequency_list.items, vec!["100", "300"]);
    assert_eq!(settings.test_cfg.word_pool, 300);
    settings.down();
    assert_eq!(settings.enter(), EnterOutcome::ScriptChosen);
    assert_eq!(settings.test_cfg.name, "quotes");
    assert_eq!(settings.test_cfg.variant, TestVariant::Script);
    assert_eq!(settings.test_cfg.to_string(), "quotes");
    assert_eq!(run_record(&settings.test_cfg), (0, 0, 0));

    // a script has no length
    assert!(!settings.escape());
    settings.up();
    assert_eq!(settings.hovered, SetList::Length);
    settings.enter();
    assert_eq!(settings.enter(), EnterOutcome::Ignored);
    assert_eq!(settings.test_cfg.length, 100);
}

#[test]
fn runs_are_named_in_the_history() {
    assert_eq!(entry_name("quotes", 0, 0, 0), "quotes");
    assert_eq!(entry_name("english", 25, 5000, 0), "english 25/5000 ");
    assert_eq!(entry_name("english", 100, 1000, 5), "english 100/1000 !?#$");
    let mut config = TypingTestConfig::default();
    config.mods.insert(TestMod::Symbols);
    config.mods.insert(TestMod::Punctuation);
    assert_eq!(run_record(&config), (25, 5, 5000));
    assert_eq!(config.to_string(), "english: 25/5000 + !? #$");
}

#[test]
fn numbers_are_read() {
    for n in [0usize, 7, 10, 15, 25, 50, 100, 69000, usize::MAX] {
        assert_eq!(parse_decimal(&n.to_string()), Some(n));
    }
    for text in [
        "", "+", "-1", "+12", "12a", " 12", "007", "18446744073709551616",
        "99999999999999999999", "1_000", "٣",
    ] {
        assert_eq!(parse_decimal(text), text.parse::<usize>().ok(), "{:?}", text);
    }
}
