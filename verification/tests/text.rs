use rebase_editor::text::{
    chars_of, is_whitespace, join_words, line_end, same_text, skip_run, split_words, string_of,
    trim_range,
};

fn chars(text: &str) -> Vec<char> {
    text.chars().collect()
}

#[test]
fn white_space_is_what_the_standard_library_calls_so() {
    let mut code: u32 = 0;
    while code <= 0x10FFFF {
        if let Some(c) = char::from_u32(code) {
            assert_eq!(is_whitespace(c), c.is_whitespace(), "code point {:#x}", code);
        }
        code += 1;
    }
}

#[test]
fn white_space_examples() {
    for c in [' ', '\t', '\n', '\r', '\u{b}', '\u{c}', '\u{85}', '\u{a0}', '\u{1680}', '\u{2000}',
        '\u{200a}', '\u{2028}', '\u{2029}', '\u{202f}', '\u{205f}', '\u{3000}']
    {
        assert!(is_whitespace(c), "{:?}", c);
    }
    for c in ['a', '#', '-', '0', '\u{0}', '\u{8}', '\u{e}', '\u{200b}', '\u{180e}', '\u{feff}'] {
        assert!(!is_whitespace(c), "{:?}", c);
    }
}

#[test]
fn chars_of_gives_every_character() {
    assert_eq!(chars_of(""), Vec::<char>::new());
    assert_eq!(chars_of("a b"), vec!['a', ' ', 'b']);
    assert_eq!(chars_of("h\u{e9}\u{1f600}!"), vec!['h', '\u{e9}', '\u{1f600}', '!']);
}

#[test]
fn string_of_copies_a_range() {
    let text = chars("pick \u{e9}t\u{e9} x");
    assert_eq!(string_of(&text, 0, 4), "pick");
    assert_eq!(string_of(&text, 5, 8), "\u{e9}t\u{e9}");
    assert_eq!(string_of(&text, 3, 3), "");
    assert_eq!(string_of(&text, 0, text.len()), "pick \u{e9}t\u{e9} x");
}

#[test]
fn same_text_compares_character_by_character() {
    assert!(same_text("", ""));
    assert!(same_text("pick", "pick"));
    assert!(same_text("\u{e9}t\u{e9}", "\u{e9}t\u{e9}"));
    assert!(!same_text("pick", "pic"));
    assert!(!same_text("pic", "pick"));
    assert!(!same_text("pick", "pack"));
    assert!(!same_text("", "p"));
    assert!(!same_text("-c", "-C"));
}

#[test]
fn skip_run_stops_where_the_kind_changes() {
    let text = chars("  ab  c");
    assert_eq!(skip_run(&text, 0, 7, true), 2);
    assert_eq!(skip_run(&text, 0, 7, false), 0);
    assert_eq!(skip_run(&text, 2, 7, false), 4);
    assert_eq!(skip_run(&text, 2, 7, true), 2);
    assert_eq!(skip_run(&text, 4, 7, true), 6);
    assert_eq!(skip_run(&text, 6, 7, false), 7);
    assert_eq!(skip_run(&text, 0, 1, true), 1);
    assert_eq!(skip_run(&text, 7, 7, true), 7);
}

#[test]
fn trim_range_drops_white_space_at_both_ends() {
    let text = chars("  ab  c \t");
    assert_eq!(trim_range(&text, 0, 9), (2, 7));
    assert_eq!(trim_range(&text, 2, 7), (2, 7));
    assert_eq!(trim_range(&text, 3, 6), (3, 4));
    assert_eq!(trim_range(&text, 4, 6), (6, 6));
    assert_eq!(trim_range(&text, 0, 0), (0, 0));
    let blank = chars(" \t \u{a0}");
    assert_eq!(trim_range(&blank, 0, 4), (4, 4));
}

#[test]
fn split_words_gives_the_runs_without_white_space() {
    let text = chars("  pick\tabc   fix it ");
    assert_eq!(split_words(&text, 0, text.len()), vec!["pick", "abc", "fix", "it"]);
    assert_eq!(split_words(&text, 2, 6), vec!["pick"]);
    assert_eq!(split_words(&text, 3, 9), vec!["ick", "ab"]);
    assert_eq!(split_words(&text, 0, 2), Vec::<String>::new());
    assert_eq!(split_words(&text, 5, 5), Vec::<String>::new());
}

#[test]
fn join_words_puts_the_separator_between() {
    let none: Vec<String> = vec![];
    assert_eq!(join_words(&none, ' '), "");
    assert_eq!(join_words(&vec!["a".to_string()], ' '), "a");
    assert_eq!(join_words(&vec!["a".to_string(), "b".to_string(), "c".to_string()], ' '), "a b c");
    assert_eq!(join_words(&vec!["".to_string(), "".to_string()], '\n'), "\n");
    assert_eq!(join_words(&vec!["a".to_string(), "".to_string()], '\n'), "a\n");
}

#[test]
fn line_end_finds_the_line_feed() {
    let text = chars("ab\n\ncd");
    assert_eq!(line_end(&text, 0, 6), 2);
    assert_eq!(line_end(&text, 2, 6), 2);
    assert_eq!(line_end(&text, 3, 6), 3);
    assert_eq!(line_end(&text, 4, 6), 6);
    assert_eq!(line_end(&text, 0, 1), 1);
    assert_eq!(line_end(&text, 6, 6), 6);
}
