use smokey::cell::{Cell, Role};
use smokey::helpers::{add_space_with_blank, Capitalize, SpanIntake};
use smokey::langs::{
    decorate_word, draw_indices, draw_token, get_shuffled_words, is_whitespace, layout_words,
    pick_words, prepare_modded_test, prepare_test, prepare_words_test, read_step, shuffle_words,
    to_testable_span, ReadStep, TestSource, LIMIT,
};
use smokey::punctuation::{InnerWord, Punctuation, PunctuationInsertFrequency};
use smokey::settings::{ModSet, TestMod, TestVariant, TypingTestConfig};
use smokey::typer::check_lines;
use smokey::wrap::LineWrapper;
use smokey::utils::lines::count_lines;
use smokey::utils::randorst::{pow_fraction, root_fraction, Randorst, SCALE};

fn word_list(n: usize) -> Vec<String> {
    let syllables = ["ka", "to", "mi", "ne", "ru", "so", "la", "vi", "po", "hu"];
    (0..n)
        .map(|i| {
            let mut word = String::new();
            let mut k = i + 7;
            while k > 0 {
                word.push_str(syllables[k % 10]);
                k /= 10;
            }
            word
        })
        .collect()
}

fn text_of(line: &Vec<Cell>) -> String {
    line.iter().flat_map(|cell| cell.content.iter()).collect()
}

fn test_prep() {
    let list = word_list(400);
    let mut cfg = TypingTestConfig::default();
    cfg.length = 200;
    cfg.validate(list.len());
    let mut words = 1;
    let mut char_count = 0;

    let result = prepare_test(&cfg, &TestSource::WordList(list));
    for line in &result {
        for span in line {
            if span.content == vec![' '] {
                words += 1;
            }
            if !span.content.is_empty() {
                char_count += 1;
            }
        }
        // there can be space at the end and I dont care for it
        assert!(char_count <= LIMIT + 1);
        char_count = 0;
    }

    assert_eq!(words, cfg.length);
    assert!(check_lines(&result));
}

#[test]
fn langs_test_prep() {
    test_prep()
}

#[test]
fn mod_test_prep() {
    test_prep()
}

#[test]
fn cells_are_taken_in() {
    let mut line: Vec<Cell> = vec![];
    line.push_styled_char('a', Role::Todo);
    line.push_styled_char('b', Role::Done);
    add_space_with_blank(&mut line);
    assert_eq!(line.len(), 4);
    assert_eq!(line[0], Cell::glyph('a'));
    assert_eq!(line[1], Cell { content: vec!['b'], role: Role::Done });
    assert_eq!(line[2], Cell::blank());
    assert_eq!(line[3], Cell::space());
    assert!(line[3].is_space());
    assert!(!line[2].is_space());
    assert_eq!(line[0].first_char(), Some('a'));
    assert_eq!(line[2].first_char(), None);
}

#[test]
fn capitals_follow_the_ends_of_sentences() {
    let mut capitalize = Capitalize::default();
    capitalize.signal();
    assert!(!capitalize.capitalize());
    // the first word
    assert!(capitalize.capitalize());
    assert!(!capitalize.capitalize());
    // a word that ends a sentence, and the word behind it
    capitalize.signal();
    assert!(!capitalize.capitalize());
    assert!(capitalize.capitalize());
    // two words that end a sentence, one behind the other
    capitalize.signal();
    assert!(!capitalize.capitalize());
    capitalize.signal();
    assert!(capitalize.capitalize());
    assert!(capitalize.capitalize());
    assert!(!capitalize.capitalize());
}

#[test]
fn words_are_laid_out_in_lines() {
    let words: Vec<String> = ["dog", "fox"].iter().map(|w| w.to_string()).collect();
    let lines = layout_words(&words);
    assert_eq!(
        lines,
        vec![vec![
            Cell::glyph('d'),
            Cell::glyph('o'),
            Cell::glyph('g'),
            Cell::blank(),
            Cell::space(),
            Cell::glyph('f'),
            Cell::glyph('o'),
            Cell::glyph('x'),
        ]]
    );
    assert_eq!(Cell::blank().role, Role::Wrong);
    assert_eq!(Cell::space().role, Role::Todo);

    // Thirty-two and thirty-two and the two spaces behind them are sixty-six.
    let long = "a".repeat(32);
    let lines = layout_words(&vec![long.clone(), long.clone(), "b".to_string()]);
    assert_eq!(lines.len(), 2);
    assert_eq!(text_of(&lines[1]), format!("{} ", long));
    assert_eq!(text_of(&lines[0]), format!("{} b", long));

    // Thirty-two and thirty-one fit.
    let lines = layout_words(&vec![long.clone(), "a".repeat(31), "b".to_string()]);
    assert_eq!(lines.len(), 2);
    assert_eq!(text_of(&lines[1]).chars().count(), 65);
    assert_eq!(text_of(&lines[0]), "b");
}

#[test]
fn literal_text_is_laid_out_in_lines() {
    let lines = to_testable_span("abc  def\n");
    assert_eq!(lines.len(), 1);
    assert_eq!(text_of(&lines[0]), "abc def");
    assert_eq!(lines[0].len(), 3 + 2 + 3);
    assert!(check_lines(&lines));

    // A word that no white space follows is left out.
    let lines = to_testable_span("abc def");
    assert_eq!(text_of(&lines[0]), "abc");

    let long = format!("{} {} end\n", "x".repeat(40), "y".repeat(40));
    let lines = to_testable_span(&long);
    assert_eq!(lines.len(), 2);
    assert_eq!(text_of(&lines[1]), format!("{} ", "x".repeat(40)));
    assert_eq!(text_of(&lines[0]), format!("{} end", "y".repeat(40)));
    assert!(check_lines(&lines));

    let config = TypingTestConfig { variant: TestVariant::Script, ..TypingTestConfig::default() };
    let lines = prepare_test(&config, &TestSource::ScriptOutput("one two\n".to_string()));
    assert_eq!(text_of(&lines[0]), "one two");
}

#[test]
fn white_space_is_what_the_standard_library_takes_for_it() {
    for code in 0..=0x10FFFFu32 {
        if let Some(c) = char::from_u32(code) {
            assert_eq!(is_whitespace(c), c.is_whitespace(), "{:?}", c);
        }
    }
}

#[test]
fn shuffled_words_come_from_the_pool() {
    let list = word_list(50);
    let mut config = TypingTestConfig::default();
    config.length = 30;
    config.word_pool = 10;
    let mut orders = std::collections::HashSet::new();
    for _ in 0..20 {
        let words = get_shuffled_words(&config, &list);
        assert_eq!(words.len(), 30);
        for word in &words {
            assert!(list[..10].contains(word));
        }
        orders.insert(words);
    }
    // Neither the draws nor the shuffle give the same every time.
    assert!(orders.len() > 1);
}

#[test]
fn words_are_picked_in_one_pass() {
    assert_eq!(read_step(None, 0), ReadStep::Skip(0));
    assert_eq!(read_step(None, 7), ReadStep::Skip(7));
    assert_eq!(read_step(Some(7), 7), ReadStep::Reuse);
    assert_eq!(read_step(Some(7), 8), ReadStep::Skip(0));
    assert_eq!(read_step(Some(7), 12), ReadStep::Skip(4));

    let list = word_list(20);
    let indices = vec![0, 0, 3, 4, 4, 4, 19];
    let words = pick_words(&list, &indices);
    let expected: Vec<String> = indices.iter().map(|i| list[*i].clone()).collect();
    assert_eq!(words, expected);
    assert!(pick_words(&list, &vec![]).is_empty());

    let mut config = TypingTestConfig::default();
    config.length = 50;
    config.word_pool = 20;
    let indices = draw_indices(&config);
    assert_eq!(indices.len(), 50);
    assert!(indices.windows(2).all(|pair| pair[0] <= pair[1]));
    assert!(indices.iter().all(|i| *i < 20));

    let mut shuffled = words.clone();
    shuffle_words(&mut shuffled);
    let mut sorted = shuffled.clone();
    sorted.sort();
    let mut expected = words.clone();
    expected.sort();
    assert_eq!(sorted, expected);

    let plain = prepare_words_test(&config, &words);
    assert_eq!(plain, layout_words(&words));
    config.mods.insert(TestMod::Numbers);
    let modded = prepare_words_test(&config, &words);
    assert!(check_lines(&modded));
}

#[test]
fn shuffle_changes_the_order() {
    let list = word_list(40);
    let mut config = TypingTestConfig::default();
    config.length = 400;
    config.word_pool = 40;
    let words = get_shuffled_words(&config, &list);
    let positions: Vec<usize> =
        words.iter().map(|w| list.iter().position(|l| l == w).unwrap()).collect();
    assert!(positions.windows(2).any(|pair| pair[0] > pair[1]));
}

#[test]
fn a_word_is_decorated() {
    let text = decorate_word("dog", Some(vec!['D']), Punctuation::Paired('(', ')'));
    assert_eq!(text.iter().collect::<String>(), "(Dog)");

    let text = decorate_word("dog", None, Punctuation::End('.'));
    assert_eq!(text.iter().collect::<String>(), "dog.");

    let text = decorate_word("dog", None, Punctuation::Normal(','));
    assert_eq!(text.iter().collect::<String>(), "dog,");

    let text = decorate_word(
        "straße",
        Some(vec!['S', 'S']),
        Punctuation::InBetweener(InnerWord::Number),
    );
    assert_eq!(text.iter().collect::<String>(), "SStraße");

    let text = decorate_word("dog", None, Punctuation::Nil);
    assert_eq!(text, vec!['d', 'o', 'g']);
}

#[test]
fn a_word_is_held_whole_against_the_budget() {
    let mut wrapper = LineWrapper::new(LIMIT);
    wrapper.place(&vec!['a'; 30]);
    // thirty-one are shown; a word of thirty-three in a pair of marks has
    // thirty-five and does not fit behind them
    let marked = decorate_word(&"b".repeat(33), None, Punctuation::Paired('(', ')'));
    assert_eq!(marked.len(), 35);
    wrapper.place(&marked);
    // a token is a word of its own
    wrapper.place(&vec!['4', '2']);
    wrapper.place(&vec!['c'; 26]);
    wrapper.place(&vec!['d']);
    let lines = wrapper.finish();
    assert!(check_lines(&lines));
    assert_eq!(lines.len(), 3);
    assert_eq!(text_of(&lines[2]), format!("{} ", "a".repeat(30)));
    assert_eq!(text_of(&lines[1]), format!("({}) 42 {} ", "b".repeat(33), "c".repeat(26)));
    assert_eq!(text_of(&lines[1]).chars().count(), 66);
    assert_eq!(text_of(&lines[0]), "d");

    // a word of the whole budget has a line of its own, the first line too
    let full = "e".repeat(65);
    let lines = layout_words(&vec![full.clone(), "f".to_string(), full.clone(), full.clone()]);
    assert!(check_lines(&lines));
    assert_eq!(lines.len(), 4);
    assert_eq!(text_of(&lines[3]), format!("{} ", full));
    assert_eq!(text_of(&lines[2]), "f ");
    assert_eq!(text_of(&lines[0]), full);
}

#[test]
fn lines_with_modifiers_keep_the_budget() {
    let words: Vec<String> = (0..200).map(|i| "w".repeat(1 + (i * 7) % 40)).collect();
    let mut config = TypingTestConfig::default();
    config.mods.insert(TestMod::Punctuation);
    config.mods.insert(TestMod::Numbers);
    config.mods.insert(TestMod::Symbols);
    for _ in 0..20 {
        let lines = prepare_modded_test(&config, &words);
        assert!(check_lines(&lines));
        for line in &lines {
            let shown = text_of(line);
            assert!(shown.trim_end().chars().count() <= LIMIT, "{}", shown);
            assert!(!shown.starts_with(' '));
        }
        let all: String = lines.iter().rev().map(|line| text_of(line)).collect();
        assert_eq!(
            all.to_lowercase().matches('w').count(),
            words.iter().map(|w| w.len()).sum::<usize>()
        );
    }
}

#[test]
fn tokens_fit_what_was_chosen() {
    let mut rng = rand::thread_rng();
    let symbols = "@#$%^&*_=+-/|\\";
    let mut numbers = std::collections::HashSet::new();
    for _ in 0..500 {
        assert_eq!(draw_token(Punctuation::InBetweener(InnerWord::Dash), &mut rng), vec!['-']);
        assert!(draw_token(Punctuation::Nil, &mut rng).is_empty());
        assert!(draw_token(Punctuation::End('.'), &mut rng).is_empty());
        let number: String =
            draw_token(Punctuation::InBetweener(InnerWord::Number), &mut rng).iter().collect();
        let value: usize = number.parse().unwrap();
        assert!(value <= 999);
        assert_eq!(value.to_string(), number);
        numbers.insert(value);
        let token = draw_token(Punctuation::InBetweener(InnerWord::Symbol), &mut rng);
        assert!(1 <= token.len() && token.len() <= 3);
        assert!(token.iter().all(|c| symbols.contains(*c)));
    }
    assert!(numbers.len() > 100);
}

#[test]
fn punctuation_is_chosen_from_the_table() {
    let mut mods = ModSet::new();
    let plain = PunctuationInsertFrequency::from_test_mods(&mods);
    assert_eq!(plain.symbols, vec![Punctuation::Nil]);
    let mut rng = rand::thread_rng();
    assert_eq!(plain.choose_punctuation(&mut rng), Punctuation::Nil);

    mods.insert(TestMod::Numbers);
    let numbers = PunctuationInsertFrequency::from_test_mods(&mods);
    assert_eq!(
        numbers.symbols,
        vec![Punctuation::Nil, Punctuation::InBetweener(InnerWord::Number)]
    );
    let mut seen = std::collections::HashSet::new();
    for _ in 0..2000 {
        let chosen = numbers.choose_punctuation(&mut rng);
        assert!(numbers.symbols.contains(&chosen));
        seen.insert(format!("{:?}", chosen));
    }
    assert_eq!(seen.len(), 2);

    mods.insert(TestMod::Punctuation);
    mods.insert(TestMod::Symbols);
    let all = PunctuationInsertFrequency::from_test_mods(&mods);
    assert_eq!(all.symbols.len(), 16);
    assert_eq!(all.symbols[1], Punctuation::End('.'));
    assert_eq!(all.symbols[13], Punctuation::InBetweener(InnerWord::Dash));
    assert_eq!(all.symbols[15], Punctuation::InBetweener(InnerWord::Symbol));

    let zero = PunctuationInsertFrequency::from_protoplast(vec![
        (Punctuation::Nil, 0),
        (Punctuation::End('!'), 3),
    ]);
    for _ in 0..200 {
        assert_eq!(zero.choose_punctuation(&mut rng), Punctuation::End('!'));
    }
}

#[test]
fn a_test_with_modifiers_begins_with_a_capital() {
    let list = word_list(100);
    let words: Vec<String> = list[..60].to_vec();
    let mut config = TypingTestConfig::default();
    config.mods.insert(TestMod::Punctuation);
    config.mods.insert(TestMod::Numbers);
    config.mods.insert(TestMod::Symbols);
    for _ in 0..20 {
        let lines = prepare_modded_test(&config, &words);
        assert!(check_lines(&lines));
        let first = lines.last().unwrap();
        let text = text_of(first);
        let begin = text.trim_start_matches(|c| "<({[\"'".contains(c));
        let initial = begin.chars().next().unwrap();
        assert!(initial.is_uppercase(), "{}", text);
        let all: String = lines.iter().rev().map(|line| text_of(line)).collect();
        for word in &words {
            assert!(all.to_lowercase().contains(word.as_str()));
        }
    }
}

#[test]
fn test_randorst() {
    fn randorst_test_helper(n: usize, a: usize, b: usize) {
        let mut last_in: usize = 0;
        let mut last_ex: usize = 0;
        let exclusive = Randorst::gen(n, a..b).collect();
        let inclusive = Randorst::gen(n, a..=b).collect();
        assert_eq!(exclusive.len(), n);
        assert_eq!(inclusive.len(), n);
        for (eni, ini) in exclusive.into_iter().zip(inclusive) {
            // last item cannot be larger than the next
            assert!(last_ex <= eni && last_in <= ini);
            // exclusive bound testing
            assert!(eni >= a && eni < b);
            // inclusive bound testing
            assert!(ini >= a && ini <= b);
            last_in = ini;
            last_ex = eni;
        }
    }
    randorst_test_helper(100, 10, 1000);
    randorst_test_helper(100, 0, 1);
    randorst_test_helper(999, 0, 78);
    randorst_test_helper(1_000, 2121, 100_000_000);
}

#[test]
fn sorted_numbers_spread_over_the_range() {
    let mut generator = Randorst::gen(3, 0..=usize::MAX);
    let mut last = 0;
    let mut count = 0;
    while let Some(number) = generator.next() {
        assert!(number >= last);
        last = number;
        count += 1;
    }
    assert_eq!(count, 3);
    assert_eq!(generator.next(), None);

    let numbers = Randorst::gen(2000, 0..100).collect();
    let low = numbers.iter().filter(|n| **n < 50).count();
    assert!(400 < low && low < 1600);
    assert!(numbers.iter().any(|n| *n < 5));
    assert!(numbers.iter().any(|n| *n >= 95));
    assert!(Randorst::gen(0, 3..4).collect().is_empty());
    assert_eq!(Randorst::gen(4, 3..4).collect(), vec![3, 3, 3, 3]);
}

#[test]
fn roots_and_powers_of_fractions() {
    assert_eq!(pow_fraction(SCALE / 2, 0), SCALE);
    assert_eq!(pow_fraction(SCALE / 2, 1), SCALE / 2);
    assert_eq!(pow_fraction(SCALE / 2, 2), SCALE / 4);
    assert_eq!(pow_fraction(SCALE / 2, 5), SCALE / 32);
    assert_eq!(pow_fraction(SCALE, 17), SCALE);
    assert_eq!(pow_fraction(0, 3), 0);
    assert_eq!(root_fraction(u32::MAX, 1), u32::MAX as u64);
    assert_eq!(root_fraction(1 << 30, 1), 1 << 30);
    assert_eq!(root_fraction(1 << 30, 2), 1 << 31);
    assert_eq!(root_fraction((SCALE / 8 - 1) as u32, 3), SCALE / 2 - 1);
    assert_eq!(root_fraction(0, 2), (1 << 16) - 1);
    for (draw, k) in [(12345u32, 7usize), (4_000_000_000, 100), (77, 3)] {
        let root = root_fraction(draw, k);
        assert!(pow_fraction(root, k) <= draw as u64);
        assert!(pow_fraction(root + 1, k) > draw as u64);
    }
}

#[test]
fn lines_are_counted() {
    let file: &[u8] = b"one line\nanother line\nand even more lines\n";
    assert_eq!(count_lines(file), 3);
    assert_eq!(count_lines(b""), 0);
    assert_eq!(count_lines(b"no line feed"), 0);
    let many = "line\n".repeat(1000);
    assert_eq!(count_lines(many.as_bytes()), 1000);
}
