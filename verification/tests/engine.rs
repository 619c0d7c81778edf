use smokey::application::{App, Request, Screen};
use smokey::cell::{Cell, Role, MAX_EXTRA_MISTAKES};
use smokey::handlers::{Key, KeyCode};
use smokey::menu::Settings;
use smokey::langs::{layout_words, prepare_test, TestSource, LIMIT};
use smokey::settings::{Ratio, SettingsColors, TypingTestConfig};
use smokey::typer::{acc_of, check_lines, wpm_of, TestState, WpmHoarder};

fn words(list: &[&str]) -> Vec<String> {
    list.iter().map(|w| w.to_string()).collect()
}

fn word_list(n: usize) -> Vec<String> {
    let syllables = ["ka", "to", "mi", "ne", "ru", "so", "la", "vi", "po", "hu"];
    (0..n)
        .map(|i| {
            let mut word = String::new();
            let mut k = i + 7;
            while k > 0 {
                word.push_str(syllables[k % 10]);
                k /= 10;
            }
            word
        })
        .collect()
}

fn keys_of(lines: &Vec<Vec<Cell>>) -> Vec<char> {
    let mut keys = vec![];
    for line in lines.iter().rev() {
        for cell in line {
            if let Some(c) = cell.content.last() {
                keys.push(*c);
            }
        }
    }
    keys
}

fn get_wrong_char(c: char) -> char {
    if c == 'ź' {
        return 'a';
    }
    'ź'
}

fn new_test_with(length: usize) -> TestState {
    let list = word_list(300);
    let mut config = TypingTestConfig::default();
    config.length = length;
    config.validate(list.len());
    let lines = prepare_test(&config, &TestSource::WordList(list));
    assert!(check_lines(&lines));
    let mut test = TestState::default();
    test.reset(lines);
    test
}

fn setup_new_test() -> TestState {
    new_test_with(100)
}

fn remaining_keys(test: &TestState) -> Vec<char> {
    let mut keys = vec![];
    for cell in &test.active {
        if let Some(c) = cell.content.last() {
            keys.push(*c);
        }
    }
    for cell in &test.down {
        if let Some(c) = cell.content.last() {
            keys.push(*c);
        }
    }
    for line in test.backburner.iter().rev() {
        for cell in line {
            if let Some(c) = cell.content.last() {
                keys.push(*c);
            }
        }
    }
    keys
}

fn new_lines(config: &TypingTestConfig) -> Vec<Vec<Cell>> {
    let lines = prepare_test(config, &TestSource::WordList(word_list(300)));
    assert!(check_lines(&lines));
    lines
}

fn get_test_app() -> App {
    let list = word_list(300);
    let settings = Settings::with_config(
        SettingsColors::default(),
        TypingTestConfig::default(),
        vec!["english".to_string()],
        list.len(),
    );
    let mut app = App::new(settings, TestState::default());
    let lines = new_lines(&app.settings.test_cfg);
    app.reset_test(lines);
    app
}

fn char_key(c: char) -> Key {
    Key { code: KeyCode::Char(c), control: false }
}

fn backspace() -> Key {
    Key { code: KeyCode::Backspace, control: false }
}

fn generate_key_events_passing_standart_test(app: &App) -> Vec<Key> {
    remaining_keys(&app.test).into_iter().map(char_key).collect()
}

fn go_thorugh_test_n_times(n: usize) {
    let mut app = get_test_app();
    for _ in 0..n {
        let key_events = generate_key_events_passing_standart_test(&app);

        let screen = app.screen;
        assert_eq!(screen, Screen::Test);

        let mut request = Request::Nothing;
        for kv in key_events {
            assert_eq!(request, Request::Nothing);
            request = app.handle_key_event(kv);
        }

        // the screen should be changed by now
        // as after the completed test the app should land itself in the post screen
        assert_ne!(screen, app.screen);
        assert_eq!(request, Request::SaveRun);
        assert_eq!(app.settings.test_cfg.test_summary.mistakes, 0);

        assert_eq!(
            app.handle_key_event(Key { code: KeyCode::Tab, control: false }),
            Request::NewTest
        );
        let lines = new_lines(&app.settings.test_cfg);
        app.reset_test(lines);
    }
}

#[test]
fn five_words_typed_without_mistakes() {
    let lines = layout_words(&words(&["dog", "fox", "owl", "ant", "cat"]));
    assert!(check_lines(&lines));
    let keys = keys_of(&lines);
    assert_eq!(keys.len(), 19);
    let mut test = TestState::default();
    test.reset(lines);
    for (i, key) in keys.iter().enumerate() {
        let finished = test.on_char(*key);
        assert_eq!(finished, i == keys.len() - 1);
    }
    assert_eq!(test.mistakes, 0);
    assert_eq!(test.pmiss, 0);
    assert_eq!(test.done + test.pdone - test.blanks, 15 + 4);
    assert_eq!(test.done + test.pdone, 15 + 4 + 4);
    assert_eq!(test.summarize().correct_chars, 19);
}

#[test]
fn wrong_char_at_full_blank_is_dropped() {
    let lines = layout_words(&words(&["dog", "fox"]));
    let mut test = TestState::default();
    test.reset(lines);
    for key in ['d', 'o', 'g'] {
        assert!(!test.on_char(key));
    }
    assert_eq!(test.current_char, ' ');
    assert_eq!(test.done, 4);
    assert_eq!(test.blanks, 1);
    for _ in 0..MAX_EXTRA_MISTAKES {
        assert!(!test.on_char('x'));
    }
    assert_eq!(test.fetch(3), &vec!['x', 'x', 'x']);
    assert_eq!(test.extra_mistakes, 3);
    assert_eq!(test.pmiss, 3);
    let cursor = test.cursor_x;
    assert_eq!(cursor, 1 + 3 + 3);

    assert!(!test.on_char('y'));
    assert_eq!(test.fetch(3), &vec!['x', 'x', 'x']);
    assert_eq!(test.cursor_x, cursor);
    assert_eq!(test.pmiss, 4);
    assert_eq!(test.extra_mistakes, 3);
    assert_eq!(test.done, 4);
    assert_eq!(test.summarize().mistakes, 3);
}

#[test]
fn backspaces_take_keystrokes_back() {
    let lines = layout_words(&words(&["dog", "fox", "owl"]));
    let mut test = TestState::default();
    test.reset(lines);
    test.on_char('d');
    let active = test.active.clone();
    let (done, pdone, mistakes, blanks, cursor, current) = (
        test.done,
        test.pdone,
        test.mistakes,
        test.blanks,
        test.cursor_x,
        test.current_char,
    );
    let keys = ['o', 'x', ' ', 'f', 'o', 'x', 'q', 'r'];
    for key in keys {
        assert!(!test.on_char(key));
    }
    assert_eq!(test.mistakes, 1);
    assert_eq!(test.extra_mistakes, 2);
    assert_eq!(test.pmiss, 3);
    assert_eq!(test.done, 9);
    assert_eq!(test.blanks, 2);
    assert_eq!(test.summarize().correct_chars, 9 - 2 - 1);
    for _ in 0..keys.len() {
        test.undo_char();
    }
    assert_eq!(test.active, active);
    assert_eq!(
        (test.done, test.pdone, test.mistakes, test.blanks, test.cursor_x, test.current_char),
        (done, pdone, mistakes, blanks, cursor, current)
    );
    assert_eq!(test.extra_mistakes, 0);
    assert_eq!(test.pmiss, 3);
}

#[test]
fn backspace_goes_back_one_line() {
    let list: Vec<String> = (0..30).map(|_| "abcdefgh".to_string()).collect();
    let lines = layout_words(&list);
    assert!(lines.len() > 2);
    let mut test = TestState::default();
    test.reset(lines);
    let first_line: Vec<char> =
        test.active.iter().filter_map(|cell| cell.content.last().copied()).collect();
    let before_last = first_line.len() - 1;
    for key in &first_line[..before_last] {
        test.on_char(*key);
    }
    let active = test.active.clone();
    let down = test.down.clone();
    let (done, pdone, cursor, current) = (test.done, test.pdone, test.cursor_x, test.current_char);
    assert_eq!(current, ' ');
    assert!(!test.on_char(' '));
    assert_eq!(test.done, 0);
    assert_eq!(test.cursor_x, 1);
    assert_eq!(test.pdone, active.len());
    assert_eq!(test.active, down);
    assert!(!test.on_char('a'));
    test.undo_char();
    test.undo_char();
    assert_eq!(test.active, active);
    assert_eq!(test.down, down);
    assert_eq!((test.done, test.pdone, test.cursor_x, test.current_char), (done, pdone, cursor, current));
    assert!(test.up.is_empty());
}

#[test]
fn undo_word_takes_a_word_back() {
    let lines = layout_words(&words(&["dog", "fox", "owl"]));
    let mut test = TestState::default();
    test.reset(lines);
    for key in ['d', 'o', 'g', 'x', ' ', 'f', 'a'] {
        test.on_char(key);
    }
    assert_eq!(test.mistakes, 1);
    assert_eq!(test.extra_mistakes, 1);
    test.undo_word();
    assert_eq!(test.done, 5);
    assert_eq!(test.current_char, 'f');
    assert_eq!(test.mistakes, 0);
    assert_eq!(test.cursor_x, 6);
    test.undo_word();
    assert_eq!(test.done, 0);
    assert_eq!(test.current_char, 'd');
    assert_eq!(test.extra_mistakes, 0);
    assert_eq!(test.blanks, 0);
    assert_eq!(test.cursor_x, 1);
    assert!(test.active.iter().all(|cell| cell.content.len() <= 1));
    assert!(test.active.iter().all(|cell| cell.content.is_empty() || cell.role == Role::Todo));
    test.undo_word();
    assert_eq!(test.done, 0);
    assert_eq!(test.pmiss, 2);
}

#[test]
fn undo_word_at_a_space_takes_the_word_before_it() {
    let lines = layout_words(&words(&["dog", "fox"]));
    let mut test = TestState::default();
    test.reset(lines);
    for key in ['d', 'o', 'g', 'x', 'y'] {
        test.on_char(key);
    }
    assert_eq!(test.current_char, ' ');
    test.undo_word();
    assert_eq!(test.done, 0);
    assert_eq!(test.extra_mistakes, 0);
    assert_eq!(test.cursor_x, 1);
    assert_eq!(test.current_char, 'd');
}

#[test]
fn test_undo_char() {
    let mut test = setup_new_test();

    // test deletes a single mistake
    test.on_char(get_wrong_char(test.current_char));
    assert_eq!(test.done, 1);
    assert_eq!(test.mistakes, 1);
    test.undo_char();
    assert_eq!(test.done, 0);
    assert_eq!(test.mistakes, 0);

    // test doesn't do anything at the beginning
    test.undo_char();
    assert_eq!(test.done, 0);
    assert_eq!(test.mistakes, 0);

    // test deletes extras
    while test.current_char != ' ' {
        test.on_char(test.current_char);
    }
    let done = test.done;
    test.on_char(get_wrong_char(test.current_char));
    assert!(!test.fetch(done - 1).is_empty());
    test.undo_char();
    assert!(test.fetch(done - 1).is_empty());
}

#[test]
fn test_undo_previous_line() {
    let mut test = setup_new_test();
    let limit = 62;

    test.on_char(test.current_char);
    let mut bail = 0;

    while test.up.is_empty() {
        if bail > limit + 10 {
            panic!("the line never progressed")
        }
        bail += 1;
        test.on_char(test.current_char);
    }

    // The test is at the beginning of the second line
    assert_eq!(test.done, 0);
    let stashed_pdone = test.pdone;

    // del char should put test at the end of the first line
    test.undo_char();
    assert_ne!(test.done, 0);
    assert!(test.up.is_empty());

    // the test goes back to second line gracefully
    test.on_char(test.current_char);
    assert_eq!(test.done, 0);
    assert_eq!(stashed_pdone, test.pdone);
}

#[test]
fn test_go_thorugh_test_five_times() {
    go_thorugh_test_n_times(5)
}

#[test]
fn typer_go_thorugh_test_five_times() {
    go_thorugh_test_n_times(5)
}

#[test]
fn test_accuracy() {
    let mut app = get_test_app();
    let key_events = generate_key_events_passing_standart_test(&app);
    let key_events_len = key_events.len();
    let amount_of_mistakes = 10;

    for kv in &key_events[..amount_of_mistakes] {
        if let KeyCode::Char(c) = kv.code {
            match c {
                'ź' => app.handle_key_event(char_key('a')),
                _ => app.handle_key_event(char_key('ź')),
            };
        } else {
            unreachable!();
        }
        app.handle_key_event(backspace());
    }

    for kv in key_events {
        app.handle_key_event(kv);
    }

    let summary = app.test.summarize();
    let final_acc = summary.acc.num as f64 / summary.acc.den as f64;

    let acc = {
        let denom = (key_events_len + amount_of_mistakes) as f64;
        (100 * key_events_len) as f64 / denom
    };

    assert!(acc - f64::EPSILON <= final_acc);
    assert!(acc + f64::EPSILON >= final_acc);
    assert_eq!(summary.acc.num, 100 * key_events_len as u128);
    assert_eq!(summary.acc.den, (key_events_len + amount_of_mistakes) as u128);
    assert_eq!(summary.correct_chars, key_events_len);
    assert_eq!(app.settings.test_cfg.test_summary.acc, summary.acc);
}

fn backspace_at_the_test_begining() {
    let mut app = get_test_app();
    for _ in 0..20 {
        app.handle_key_event(backspace());
    }
    assert_eq!(app.test.done, 0);

    app.handle_key_event(char_key('ź'));
    assert_eq!(app.test.done, 1);
    app.handle_key_event(backspace());
    assert_eq!(app.test.done, 0);

    for _ in 0..20 {
        app.handle_key_event(char_key('ź'));
        app.handle_key_event(backspace());
    }
    assert_eq!(app.test.done, 0);
}

#[test]
fn test_test_backspace_at_the_test_begining() {
    backspace_at_the_test_begining()
}

#[test]
fn typer_test_backspace_at_the_test_begining() {
    backspace_at_the_test_begining()
}

#[test]
fn an_engine_without_a_test_takes_backspaces() {
    let mut test = TestState::default();
    test.undo_char();
    test.undo_word();
    assert_eq!(
        (test.done, test.pdone, test.mistakes, test.blanks, test.cursor_x),
        (0, 0, 0, 0, 0)
    );
    assert!(test.up.is_empty() && test.active.is_empty() && test.down.is_empty());
    assert!(test.can_count());
    let summary = test.summarize();
    assert_eq!((summary.correct_chars, summary.mistakes), (0, 0));
    assert_eq!(summary.acc, Ratio { num: 0, den: 0 });
}

#[test]
fn the_summary_comes_of_the_counters() {
    let mut test = TestState::default();
    test.pdone = 10;
    test.done = 5;
    test.blanks = 2;
    test.mistakes = 1;
    test.extra_mistakes = 2;
    test.pmiss = 3;
    assert!(test.can_count());
    let summary = test.summarize();
    assert_eq!(summary.correct_chars, 12);
    assert_eq!(summary.mistakes, 3);
    assert_eq!(summary.acc, Ratio { num: 1200, den: 15 });
    assert_eq!(summary.acc.num as f64 / summary.acc.den as f64, 80.0);
    assert_eq!(summary.wpm.num, 12_000_000_000 * 12);
    assert_eq!(test.calculate_acc().milli(), 80_000);
    assert_eq!(test.correct_chars(), 12);
    test.blanks = 20;
    assert!(!test.can_count());
}

#[test]
fn speed_and_accuracy_as_quotients() {
    // 50 characters in 10 seconds are 10 words in a sixth of a minute.
    let wpm = wpm_of(50, 10_000_000_000);
    assert_eq!(wpm, Ratio { num: 600_000_000_000, den: 10_000_000_000 });
    assert_eq!(wpm.milli(), 60_000);
    let acc = acc_of(45, 5);
    assert_eq!(acc, Ratio { num: 4500, den: 50 });
    assert_eq!(acc.milli(), 90_000);
    assert_eq!(Ratio { num: 1, den: 3 }.milli(), 333);
    assert_eq!(Ratio { num: 1, den: 0 }.milli(), u64::MAX);
    assert_eq!(Ratio { num: u128::MAX, den: 1 }.milli(), u64::MAX);
    assert_eq!(Ratio { num: u128::MAX, den: u128::MAX }.milli(), 1000);
    assert_eq!(Ratio { num: u128::MAX - 1, den: u128::MAX }.milli(), 999);
    assert_eq!(Ratio { num: u128::MAX / 3, den: u128::MAX }.milli(), 333);
}

#[test]
fn the_clock_starts_with_the_first_keystroke() {
    let lines = layout_words(&words(&["dog", "fox"]));
    let mut test = TestState::default();
    test.reset(lines);
    assert!(test.first);
    test.hoarder.push(7);
    test.on_char('d');
    assert!(!test.first);
    assert!(test.hoarder.wpms.is_empty());
    let wpm = test.calculate_wpm();
    assert_eq!(wpm.num, 12_000_000_000);
    // The clock was set back by fifty milliseconds.
    assert!(wpm.den >= 50_000_000);
    test.update_wpm_history();
    assert!(test.hoarder.wpms.is_empty());
}

#[test]
fn hoarder_halves_when_full() {
    let mut hoarder = WpmHoarder::new(4);
    assert!(!hoarder.is_due_after(0));
    assert!(hoarder.is_due_after(1));
    hoarder.push(10);
    assert!(!hoarder.is_due_after(1));
    assert!(hoarder.is_due_after(2));
    hoarder.push(20);
    hoarder.push(40);
    assert_eq!(hoarder.wpms, vec![10, 20, 40]);
    assert_eq!(hoarder.seconds, 1);
    hoarder.push(81);
    assert_eq!(hoarder.wpms, vec![15, 60]);
    assert_eq!(hoarder.seconds, 2);
    assert!(!hoarder.is_due_after(5));
    assert!(hoarder.is_due_after(6));
    assert_eq!(hoarder.get_max_wpm(), 60);
    assert_eq!(hoarder.get_min_max_wpm(), (15, 60));
    hoarder.push(5);
    assert_eq!(hoarder.get_min_max_wpm(), (5, 60));
    hoarder.push(u64::MAX);
    assert_eq!(hoarder.wpms, vec![37, u64::MAX / 2 + 3]);
    assert_eq!(hoarder.seconds, 4);
    let mut odd = WpmHoarder::new(3);
    odd.push(1);
    odd.push(2);
    odd.push(30);
    assert_eq!(odd.wpms, vec![1]);
    assert_eq!(odd.seconds, 2);
    hoarder.reset();
    assert!(hoarder.wpms.is_empty());
    assert_eq!(hoarder.seconds, 1);
    assert_eq!(hoarder.capacity, 4);
}

#[test]
fn lines_that_are_not_ready_are_told() {
    assert!(!check_lines(&vec![]));
    assert!(!check_lines(&vec![vec![]]));
    assert!(!check_lines(&vec![vec![Cell::blank(), Cell::space()]]));
    assert!(!check_lines(&vec![vec![Cell::glyph('a'), Cell::space()]]));
    assert!(!check_lines(&vec![vec![Cell::glyph('a'), Cell::blank()]]));
    let mut typed = Cell::glyph('a');
    typed.role = Role::Done;
    assert!(!check_lines(&vec![vec![typed]]));
    assert!(check_lines(&vec![vec![Cell::glyph('a')]]));
    assert!(check_lines(&vec![vec![
        Cell::glyph('a'),
        Cell::blank(),
        Cell::space(),
        Cell::glyph('b')
    ]]));
    assert!(LIMIT == 65);
}
