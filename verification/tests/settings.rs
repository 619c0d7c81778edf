use smokey::colorscheme::{Color, Theme};
use smokey::config::test_parser::{parse_mods, resolve_test_variant, UserTest};
use smokey::config::theme_parser::{
    hex_to_color, parse_user_defined_colors, str_to_color, trim, UserTheme,
};
use smokey::config::{FinalConfig, UserConfig};
use smokey::database::{decode, encode_test_mod_bitflag, JustingInfo};
use smokey::settings::{
    create_frequency_list, decode_test_mod_bitflags, is_script, ModSet, SettingsColors, TestIdentity,
    TestMod, TestVariant, TypingTestConfig,
};
use smokey::storage::parse_storage_contents;
use smokey::typer::TestColors;
use smokey::utils::decimal::decimal;
use smokey::utils::list::StatefulList;

fn strings(list: &[&str]) -> Vec<String> {
    list.iter().map(|w| w.to_string()).collect()
}

#[test]
fn test_parse_mods() {
    let faulty = strings(&["nonexitant", "punctuation"]);
    let full = strings(&["numbers", "punctuation", "symbols"]);
    let empty: Vec<String> = strings(&[]);
    let mut hs = ModSet::new();
    assert_eq!(parse_mods(&empty), hs);
    hs.insert(TestMod::Punctuation);
    assert_eq!(parse_mods(&faulty), hs);
    hs.insert(TestMod::Numbers);
    hs.insert(TestMod::Symbols);
    assert_eq!(parse_mods(&full), hs);
}

#[test]
fn test_parse_user_defined_color() {
    // empty string
    assert_eq!(parse_user_defined_colors(""), None);

    // correct hex code
    assert_eq!(parse_user_defined_colors("#Fc08f4").unwrap(), Color::Rgb(252, 8, 244));

    // correct standard color
    assert_eq!(parse_user_defined_colors("LightMagenta").unwrap(), Color::LightMagenta);

    // invalid hex code
    assert_eq!(parse_user_defined_colors("#0acg4e"), None);

    // too short hex code
    assert_eq!(parse_user_defined_colors("#fc08f"), None);

    // works despite whitespace
    assert_eq!(parse_user_defined_colors(" #fc08f4").unwrap(), Color::Rgb(252, 8, 244));
    assert_eq!(parse_user_defined_colors("#fc08f4 ").unwrap(), Color::Rgb(252, 8, 244));

    // works despite capitalization
    assert_eq!(parse_user_defined_colors("liGhTGREEN").unwrap(), Color::LightGreen)
}

fn user_theme(
    done: Option<&str>,
    wrong: Option<&str>,
    todo: Option<&str>,
    hover: Option<&str>,
    active: Option<&str>,
) -> UserTheme {
    UserTheme {
        done: done.map(|s| s.to_string()),
        wrong: wrong.map(|s| s.to_string()),
        todo: todo.map(|s| s.to_string()),
        hover: hover.map(|s| s.to_string()),
        active: active.map(|s| s.to_string()),
    }
}

#[test]
fn test_parse_partial_theme() {
    // invalid stuff should be ignored
    let partial_config =
        user_theme(Some("#fc08f4"), None, Some(""), Some("rouge"), Some("lightyellow"));
    let th = Theme {
        done: Color::Rgb(252, 8, 244),
        active: Color::LightYellow,
        ..Theme::default()
    };
    assert_eq!(th, partial_config.to_theme());
}

#[test]
fn test_parse_complete_theme() {
    let complete_config = user_theme(
        Some("#fc08f4"),
        Some("maGenta"),
        Some("#ff0000"),
        Some("BLUE"),
        Some("lightyellow"),
    );

    let th = Theme {
        done: Color::Rgb(252, 8, 244),
        active: Color::LightYellow,
        wrong: Color::Magenta,
        hover: Color::Blue,
        todo: Color::Rgb(255, 0, 0),
    };

    assert_eq!(th, complete_config.to_theme());
}

#[test]
fn test_encode_mod_bitflag() {
    let mut tm: ModSet = ModSet::new();
    let zero = encode_test_mod_bitflag(&tm);
    assert_eq!(zero, 0_u8);

    tm.insert(TestMod::Punctuation);
    let one = encode_test_mod_bitflag(&tm);
    assert_eq!(one, 1_u8);

    tm.insert(TestMod::Symbols);
    let five = encode_test_mod_bitflag(&tm);
    assert_eq!(five, 5_u8);
}

#[test]
fn test_create_frequency_list() {
    let large = create_frequency_list(69000);
    let medium = create_frequency_list(15889);
    let small = create_frequency_list(1000);
    let tiny = create_frequency_list(20);

    assert_eq!(large.items, vec!["100", "1000", "5000", "10000", "20000", "50000", "69000"]);
    assert_eq!(medium.items, vec!["100", "1000", "5000", "10000", "15889"]);
    assert_eq!(small.items, vec!["100", "1000"]);
    assert_eq!(tiny.items, vec!["20"]);
}

#[test]
fn test_decode_bitflags() {
    let ans = decode_test_mod_bitflags(0b00000101);
    let mut hs = ModSet::new();
    hs.insert(TestMod::Punctuation);
    hs.insert(TestMod::Symbols);
    assert_eq!(ans, hs);

    let zero_ans = decode_test_mod_bitflags(0);
    assert!(zero_ans.is_empty());
}

#[test]
fn bitflags_go_round() {
    for bitflag in 0..8u8 {
        let mods = decode_test_mod_bitflags(bitflag);
        assert_eq!(encode_test_mod_bitflag(&mods), bitflag);
        assert_eq!(mods.len(), bitflag.count_ones() as usize);
    }
    assert_eq!(TestMod::from_bitflag(1), TestMod::Punctuation);
    assert_eq!(TestMod::from_bitflag(2), TestMod::Numbers);
    assert_eq!(TestMod::from_bitflag(4), TestMod::Symbols);
    assert_eq!(TestMod::from_name("symbols"), Some(TestMod::Symbols));
    assert_eq!(TestMod::from_name("Symbols"), None);
    let mut mods = ModSet::new();
    assert!(mods.insert(TestMod::Numbers));
    assert!(!mods.insert(TestMod::Numbers));
    assert!(mods.contains(&TestMod::Numbers));
    assert!(mods.remove(&TestMod::Numbers));
    assert!(!mods.remove(&TestMod::Numbers));
    assert!(mods.is_empty());
}

#[test]
fn bitflags_are_written_out() {
    assert_eq!(decode(0), " ");
    assert_eq!(decode(1), " !?");
    assert_eq!(decode(2), " 17");
    assert_eq!(decode(4), " #$");
    assert_eq!(decode(7), " !?17#$");
    assert_eq!(decode(0b1111_1010), " 17");
    assert_eq!(TestMod::Punctuation.shorthand(), "!?");
    assert_eq!(TestMod::Numbers.name(), "numbers");
}

#[test]
fn scripts_are_told_by_their_sign() {
    assert!(is_script("#!fortune"));
    assert!(is_script("#!"));
    assert!(!is_script("#"));
    assert!(!is_script(""));
    assert!(!is_script("english"));
    assert!(!is_script("!#e"));
    assert!(!is_script("é"));
    assert_eq!(resolve_test_variant("#!quotes"), TestVariant::Script);
    assert_eq!(resolve_test_variant("polish"), TestVariant::Standard);
}

#[test]
fn storage_lists_words_and_scripts() {
    let list = parse_storage_contents(strings(&["english", "polish"]), strings(&["fortune"]));
    assert_eq!(list, vec!["english", "polish", "#!fortune"]);
    assert!(is_script(&list[2]));
    assert!(!is_script(&list[0]));
    assert!(parse_storage_contents(vec![], vec![]).is_empty());
}

#[test]
fn user_test_becomes_a_configuration() {
    let unset = UserTest { name: None, len: None, pool: None, mods: None };
    let config = unset.into_typing_test_config();
    assert_eq!(config.name, "english");
    assert_eq!(config.variant, TestVariant::Standard);
    assert_eq!((config.length, config.word_pool), (25, 5000));
    assert!(config.mods.is_empty());

    let set = UserTest {
        name: Some("#!quotes".to_string()),
        len: Some(0),
        pool: Some(300),
        mods: Some(strings(&["numbers", "what"])),
    };
    let mut config = set.into_typing_test_config();
    assert_eq!(config.name, "#!quotes");
    assert_eq!(config.variant, TestVariant::Script);
    assert_eq!((config.length, config.word_pool), (25, 300));
    assert_eq!(config.mods.len(), 1);
    assert!(config.mods.contains(&TestMod::Numbers));
    assert_eq!(config.gib_identity(), TestIdentity { length: 25, word_pool: 300, mods: 2 });
    assert_eq!(config.validate(120), 120);
    assert_eq!(config.word_pool, 120);
    assert_eq!(config.validate(500), 500);
    assert_eq!(config.word_pool, 120);
}

#[test]
fn user_config_becomes_the_final_one() {
    let config = UserConfig { theme: None, test: None }.to_final_config();
    assert_eq!(config.theme, Theme::default());
    assert_eq!(config.typing_test_config.name, "english");
    let config = UserConfig {
        theme: Some(user_theme(None, Some("cyan"), None, None, None)),
        test: Some(UserTest { name: None, len: Some(7), pool: None, mods: None }),
    }
    .to_final_config();
    assert_eq!(config.theme.wrong, Color::Cyan);
    assert_eq!(config.theme.done, Color::White);
    assert_eq!(config.typing_test_config.length, 7);
    let default = FinalConfig::default();
    assert_eq!(default.typing_test_config.word_pool, 5000);
    assert_eq!(
        default.theme.to_test_colors(),
        TestColors { wrong: Color::Red, todo: Color::Gray, done: Color::White }
    );
    assert_eq!(
        default.theme.to_settings_colors(),
        SettingsColors { hover: Color::Magenta, active: Color::Green }
    );
    assert_eq!(TestColors::default(), default.theme.to_test_colors());
    assert_eq!(SettingsColors::default(), default.theme.to_settings_colors());
}

#[test]
fn colors_are_parsed() {
    assert_eq!(hex_to_color("#000000").ok(), Some(Color::Rgb(0, 0, 0)));
    assert_eq!(hex_to_color("#fFfFfF").ok(), Some(Color::Rgb(255, 255, 255)));
    assert_eq!(hex_to_color("#+a+b+c").ok(), Some(Color::Rgb(10, 11, 12)));
    assert_eq!(hex_to_color("#0102030405").ok(), Some(Color::Rgb(1, 2, 3)));
    assert!(hex_to_color("#-10000").is_err());
    assert!(hex_to_color("#00 000").is_err());
    assert!(hex_to_color("#é00000").is_err());
    assert_eq!(str_to_color("darkgray"), Some(Color::DarkGray));
    assert_eq!(str_to_color("DarkGray"), None);
    assert_eq!(str_to_color("white"), Some(Color::White));
    assert_eq!(str_to_color(""), None);
    for name in [
        "black", "red", "green", "yellow", "blue", "magenta", "cyan", "gray", "darkgray",
        "lightred", "lightgreen", "lightyellow", "lightblue", "lightmagenta", "lightcyan", "white",
    ] {
        assert!(str_to_color(name).is_some());
        assert_eq!(parse_user_defined_colors(&name.to_uppercase()), str_to_color(name));
    }
    // The Kelvin sign is a capital k.
    assert_eq!(parse_user_defined_colors("blac\u{212A}"), Some(Color::Black));
    // Seven bytes as written, but no seven characters once trimmed.
    assert_eq!(parse_user_defined_colors("  #fff  "), None);
    assert_eq!(parse_user_defined_colors("#fc08f4ff"), Some(Color::Rgb(252, 8, 244)));
    assert_eq!(parse_user_defined_colors("   "), None);
}

#[test]
fn texts_are_trimmed() {
    for text in ["", " ", "a", " a", "a ", "  a b  ", "\t\na\u{3000}", "\u{a0}é \u{2003}", "   \n"]
    {
        assert_eq!(trim(text), text.trim(), "{:?}", text);
    }
}

#[test]
fn numbers_are_written_in_decimal() {
    for n in [0usize, 1, 9, 10, 11, 99, 100, 999, 1000, 15889, usize::MAX] {
        assert_eq!(decimal(n), n.to_string());
    }
}

#[test]
fn a_list_goes_round() {
    let mut list = StatefulList::with_items(strings(&["10", "15", "25"]));
    assert_eq!(list.selected, None);
    list.next();
    assert_eq!(list.selected, Some(0));
    assert_eq!(list.get_item(), "10");
    list.next();
    list.next();
    assert_eq!(list.get_item(), "25");
    list.next();
    assert_eq!(list.selected, Some(0));
    list.previous();
    assert_eq!(list.selected, Some(2));
    list.previous();
    assert_eq!(list.selected, Some(1));
    list.unselect();
    assert_eq!(list.selected, None);
    list.previous();
    assert_eq!(list.selected, Some(0));
    list.select(Some(2));
    assert_eq!(list.get_item(), "25");
    let empty: StatefulList<String> = StatefulList::new();
    assert!(empty.items.is_empty());
}

#[test]
fn columns_take_the_widest_entry() {
    let mut info = JustingInfo::new();
    info.update(7, 120);
    info.update(3, 400);
    info.update(9, 1);
    assert_eq!(info, JustingInfo { name_len: 9, correct: 400 });
}
