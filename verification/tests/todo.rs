use rebase_editor::editors::rebase::todo::{
    command_for, parse_chars, Command, RebaseTodo, RebaseTodoLine,
};
use rebase_editor::style::{Color, Style};

fn words(items: &[&str]) -> Vec<String> {
    items.iter().map(|item| item.to_string()).collect()
}

fn comment(message: &str) -> RebaseTodoLine {
    RebaseTodoLine::Comment { message: message.to_string() }
}

#[test]
fn parse_comment_hash() {
    let line = RebaseTodoLine::parse("# this is a comment");
    assert_eq!(line.to_string(), "# this is a comment");
}

#[test]
fn parse_empty_line_is_comment() {
    let line = RebaseTodoLine::parse("");
    assert_eq!(line.to_string(), "");
}

#[test]
fn parse_pick_and_alias() {
    let pick = RebaseTodoLine::parse("pick abc123");
    assert_eq!(pick.to_string(), "pick abc123");

    let alias = RebaseTodoLine::parse("p abc123");
    assert_eq!(alias.to_string(), "pick abc123");
}

#[test]
fn parse_edit_squash_fixup_drop_label_reset_update_ref() {
    let cases = vec![
        ("edit deadbeef", "edit deadbeef"),
        ("e deadbeef", "edit deadbeef"),
        ("s deadbeef", "squash deadbeef"),
        ("f deadbeef", "fixup deadbeef"),
        ("d deadbeef", "drop deadbeef"),
        ("l mylabel", "label mylabel"),
        ("r mylabel", "reset mylabel"),
        ("u refs/heads/main", "update-ref refs/heads/main"),
    ];

    for (input, expected) in cases {
        let parsed = RebaseTodoLine::parse(input);
        assert_eq!(parsed.to_string(), expected, "input: {}", input);
    }
}

#[test]
fn parse_exec_with_multiple_args() {
    let line = RebaseTodoLine::parse("exec echo hello world");
    assert_eq!(line.to_string(), "exec echo hello world");
    let alias = RebaseTodoLine::parse("x echo hello world");
    assert_eq!(alias.to_string(), "exec echo hello world");
}

#[test]
fn parse_merge_with_and_without_commit_flag() {
    let without = RebaseTodoLine::parse("merge feature_branch");
    assert_eq!(without.to_string(), "merge feature_branch");

    let with_c = RebaseTodoLine::parse("merge -c abc123 feature_branch");
    assert_eq!(with_c.to_string(), "merge -c abc123 feature_branch");

    let alias = RebaseTodoLine::parse("m -c abc123 feature_branch");
    assert_eq!(alias.to_string(), "merge -c abc123 feature_branch");
}

#[test]
fn parse_rebase_todo_multiple_lines() {
    let content = "# top comment\npick a1b2c3d\ndrop deadbeef\n\nexec echo hi\n";
    let todo = RebaseTodo::parse(content);
    let rendered = todo
        .lines()
        .iter()
        .map(|l| l.to_string())
        .collect::<Vec<_>>();
    assert_eq!(
        rendered,
        vec![
            "# top comment",
            "pick a1b2c3d",
            "drop deadbeef",
            "",
            "exec echo hi"
        ]
    );
}

#[test]
fn parse_gives_the_fields_of_each_command() {
    assert_eq!(
        RebaseTodoLine::parse("pick abc123 fix the bug"),
        RebaseTodoLine::Pick { commit: "abc123".to_string(), rest: words(&["fix", "the", "bug"]) }
    );
    assert_eq!(
        RebaseTodoLine::parse("edit abc123"),
        RebaseTodoLine::Edit { commit: "abc123".to_string(), rest: vec![] }
    );
    assert_eq!(
        RebaseTodoLine::parse("squash abc123 x"),
        RebaseTodoLine::Squash { commit: "abc123".to_string(), rest: words(&["x"]) }
    );
    assert_eq!(
        RebaseTodoLine::parse("fixup abc123 x y"),
        RebaseTodoLine::Fixup { commit: "abc123".to_string(), rest: words(&["x", "y"]) }
    );
    assert_eq!(
        RebaseTodoLine::parse("drop abc123 -x --y"),
        RebaseTodoLine::Drop { commit: "abc123".to_string(), rest: words(&["-x", "--y"]) }
    );
    assert_eq!(
        RebaseTodoLine::parse("exec make -j4 test"),
        RebaseTodoLine::Exec { command: words(&["make", "-j4", "test"]) }
    );
    assert_eq!(
        RebaseTodoLine::parse("label onto # the base"),
        RebaseTodoLine::Label { label: "onto".to_string(), rest: words(&["#", "the", "base"]) }
    );
    assert_eq!(
        RebaseTodoLine::parse("reset onto"),
        RebaseTodoLine::Reset { label: "onto".to_string(), rest: vec![] }
    );
    assert_eq!(
        RebaseTodoLine::parse("merge topic"),
        RebaseTodoLine::Merge { commit: None, label: "topic".to_string() }
    );
    assert_eq!(
        RebaseTodoLine::parse("merge -c abc123 topic"),
        RebaseTodoLine::Merge { commit: Some("abc123".to_string()), label: "topic".to_string() }
    );
    assert_eq!(
        RebaseTodoLine::parse("update-ref refs/heads/main"),
        RebaseTodoLine::UpdateRef { refname: "refs/heads/main".to_string() }
    );
}

#[test]
fn canonical_text_round_trips_for_every_command() {
    let canonical = vec![
        "pick abc123",
        "pick abc123 subject of the commit",
        "edit abc123 subject",
        "squash abc123 subject",
        "fixup abc123 subject",
        "drop abc123 subject",
        "exec cargo test --all",
        "label onto",
        "label onto rest",
        "reset onto",
        "reset onto rest of it",
        "merge topic",
        "merge -c abc123 topic",
        "merge -c abc123 topic # Merge branch",
        "update-ref refs/heads/main",
    ];
    for text in canonical {
        let line = RebaseTodoLine::parse(text);
        assert!(!line.is_comment(), "input: {}", text);
        assert_eq!(line.to_string(), text);
        assert_eq!(RebaseTodoLine::parse(&line.to_string()), line);
    }
}

#[test]
fn every_alias_reads_as_its_keyword() {
    let pairs = vec![
        ("p", "pick"),
        ("e", "edit"),
        ("s", "squash"),
        ("f", "fixup"),
        ("d", "drop"),
        ("x", "exec"),
        ("l", "label"),
        ("r", "reset"),
        ("m", "merge"),
        ("u", "update-ref"),
    ];
    for (alias, keyword) in pairs {
        let short = RebaseTodoLine::parse(&format!("{} abc123", alias));
        let long = RebaseTodoLine::parse(&format!("{} abc123", keyword));
        assert!(!long.is_comment(), "keyword: {}", keyword);
        assert_eq!(short, long);
        assert_eq!(short.to_string(), format!("{} abc123", keyword));
        assert_eq!(short.to_string(), long.to_string());
    }
}

#[test]
fn command_for_knows_keywords_and_aliases_only() {
    assert_eq!(command_for("pick"), Some(Command::Pick));
    assert_eq!(command_for("p"), Some(Command::Pick));
    assert_eq!(command_for("edit"), Some(Command::Edit));
    assert_eq!(command_for("e"), Some(Command::Edit));
    assert_eq!(command_for("squash"), Some(Command::Squash));
    assert_eq!(command_for("s"), Some(Command::Squash));
    assert_eq!(command_for("fixup"), Some(Command::Fixup));
    assert_eq!(command_for("f"), Some(Command::Fixup));
    assert_eq!(command_for("drop"), Some(Command::Drop));
    assert_eq!(command_for("d"), Some(Command::Drop));
    assert_eq!(command_for("exec"), Some(Command::Exec));
    assert_eq!(command_for("x"), Some(Command::Exec));
    assert_eq!(command_for("label"), Some(Command::Label));
    assert_eq!(command_for("l"), Some(Command::Label));
    assert_eq!(command_for("reset"), Some(Command::Reset));
    assert_eq!(command_for("r"), Some(Command::Reset));
    assert_eq!(command_for("merge"), Some(Command::Merge));
    assert_eq!(command_for("m"), Some(Command::Merge));
    assert_eq!(command_for("update-ref"), Some(Command::UpdateRef));
    assert_eq!(command_for("u"), Some(Command::UpdateRef));
    assert_eq!(command_for("PICK"), None);
    assert_eq!(command_for("pic"), None);
    assert_eq!(command_for("picks"), None);
    assert_eq!(command_for("reword"), None);
    assert_eq!(command_for(""), None);
    assert_eq!(Command::UpdateRef.name(), "update-ref");
    assert_eq!(Command::Pick.name(), "pick");
}

#[test]
fn comments_keep_their_trimmed_text() {
    assert_eq!(RebaseTodoLine::parse(""), comment(""));
    assert_eq!(RebaseTodoLine::parse("   \t "), comment(""));
    assert_eq!(RebaseTodoLine::parse("# anything"), comment("# anything"));
    assert_eq!(RebaseTodoLine::parse("  #  two   spaces  "), comment("#  two   spaces"));
    assert_eq!(RebaseTodoLine::parse("#pick abc123"), comment("#pick abc123"));
    assert_eq!(RebaseTodoLine::parse("# anything").to_string(), "# anything");
    assert_eq!(RebaseTodoLine::parse("").to_string(), "");
}

#[test]
fn what_is_no_command_is_a_comment() {
    assert_eq!(RebaseTodoLine::parse("frobnicate abc123"), comment("frobnicate abc123"));
    assert_eq!(RebaseTodoLine::parse("  noop  "), comment("noop"));
    assert_eq!(RebaseTodoLine::parse("reword abc123 text"), comment("reword abc123 text"));
    assert_eq!(RebaseTodoLine::parse("Pick abc123"), comment("Pick abc123"));
    assert_eq!(RebaseTodoLine::parse("pick"), comment("pick"));
    assert_eq!(RebaseTodoLine::parse("p"), comment("p"));
    assert_eq!(RebaseTodoLine::parse("exec"), comment("exec"));
    assert_eq!(RebaseTodoLine::parse("label"), comment("label"));
    assert_eq!(RebaseTodoLine::parse("reset  "), comment("reset"));
    assert_eq!(RebaseTodoLine::parse("update-ref"), comment("update-ref"));
    assert_eq!(RebaseTodoLine::parse("update-ref a  b"), comment("update-ref a  b"));
    assert_eq!(RebaseTodoLine::parse("merge"), comment("merge"));
    assert_eq!(RebaseTodoLine::parse("merge -c"), comment("merge -c"));
    assert_eq!(RebaseTodoLine::parse("merge -c abc123"), comment("merge -c abc123"));
    assert_eq!(RebaseTodoLine::parse("merge topic -c abc123"), comment("merge topic -c abc123"));
    assert_eq!(RebaseTodoLine::parse("merge topic -C"), comment("merge topic -C"));
}

#[test]
fn white_space_between_words_does_not_count() {
    assert_eq!(RebaseTodoLine::parse("  pick   abc123 \t subject  ").to_string(), "pick abc123 subject");
    assert_eq!(RebaseTodoLine::parse("pick\tabc123").to_string(), "pick abc123");
    assert_eq!(RebaseTodoLine::parse("pick\u{a0}abc123\u{3000}x").to_string(), "pick abc123 x");
    assert_eq!(RebaseTodoLine::parse("exec echo hi\r").to_string(), "exec echo hi");
    assert_eq!(RebaseTodoLine::parse("\u{2003}# note\u{2003}"), comment("# note"));
}

#[test]
fn merge_takes_the_flag_before_the_label() {
    assert_eq!(
        RebaseTodoLine::parse("merge -C abc123 topic"),
        RebaseTodoLine::Merge { commit: Some("abc123".to_string()), label: "topic".to_string() }
    );
    assert_eq!(RebaseTodoLine::parse("merge -C abc123 topic").to_string(), "merge -c abc123 topic");
    assert_eq!(
        RebaseTodoLine::parse("merge topic   #  Merge branch"),
        RebaseTodoLine::Merge { commit: None, label: "topic # Merge branch".to_string() }
    );
    assert_eq!(
        RebaseTodoLine::parse("merge one -c abc123 two three"),
        RebaseTodoLine::Merge { commit: Some("abc123".to_string()), label: "one two three".to_string() }
    );
    assert_eq!(
        RebaseTodoLine::parse("m -c a -C b topic"),
        RebaseTodoLine::Merge { commit: Some("a".to_string()), label: "-C b topic".to_string() }
    );
    assert_eq!(
        RebaseTodoLine::parse("merge -c -c topic"),
        RebaseTodoLine::Merge { commit: Some("-c".to_string()), label: "topic".to_string() }
    );
    assert_eq!(RebaseTodoLine::parse("merge --c abc123 topic").to_string(), "merge --c abc123 topic");
}

#[test]
fn text_of_lines_built_by_hand() {
    let pick = RebaseTodoLine::Pick { commit: "abc".to_string(), rest: words(&["a", "b"]) };
    assert_eq!(pick.to_string(), "pick abc a b");
    let exec = RebaseTodoLine::Exec { command: words(&["true"]) };
    assert_eq!(exec.to_string(), "exec true");
    let merge = RebaseTodoLine::Merge { commit: Some("abc".to_string()), label: "topic".to_string() };
    assert_eq!(merge.to_string(), "merge -c abc topic");
    let plain = RebaseTodoLine::Merge { commit: None, label: "topic".to_string() };
    assert_eq!(plain.to_string(), "merge topic");
    let update = RebaseTodoLine::UpdateRef { refname: "refs/heads/x".to_string() };
    assert_eq!(update.to_string(), "update-ref refs/heads/x");
    let note = comment("  kept as it is ");
    assert_eq!(note.to_string(), "  kept as it is ");
}

#[test]
fn clone_keeps_every_field() {
    let lines = vec![
        "# note",
        "pick abc a b",
        "edit abc",
        "squash abc",
        "fixup abc",
        "exec make all",
        "drop abc",
        "label onto",
        "reset onto x",
        "merge -c abc topic",
        "merge topic",
        "update-ref refs/heads/x",
    ];
    for text in lines {
        let line = RebaseTodoLine::parse(text);
        assert_eq!(line.clone(), line);
    }
}

#[test]
fn commit_and_rest_of_each_kind_of_line() {
    for keyword in ["pick", "edit", "squash", "fixup", "drop"] {
        let line = RebaseTodoLine::parse(&format!("{} abc123 one two", keyword));
        assert_eq!(line.get_commit(), Some(&"abc123".to_string()));
        assert_eq!(line.get_rest(), Some(&words(&["one", "two"])));
        assert!(!line.is_comment());
    }
    for keyword in ["label", "reset"] {
        let line = RebaseTodoLine::parse(&format!("{} onto one", keyword));
        assert_eq!(line.get_commit(), None);
        assert_eq!(line.get_rest(), Some(&words(&["one"])));
    }
    for text in ["exec true", "merge -c abc123 topic", "update-ref refs/heads/x", "# note", ""] {
        let line = RebaseTodoLine::parse(text);
        assert_eq!(line.get_commit(), None);
        assert_eq!(line.get_rest(), None);
    }
    assert!(RebaseTodoLine::parse("# note").is_comment());
    assert!(RebaseTodoLine::parse("").is_comment());
    assert!(RebaseTodoLine::parse("unknown").is_comment());
}

#[test]
fn colors_and_styles_of_each_kind_of_line() {
    let plain = |color| Style { fg: Some(color), dim: false, crossed_out: false };
    let cases = vec![
        ("# note", Color::White, Style { fg: Some(Color::White), dim: true, crossed_out: false }),
        ("", Color::White, Style { fg: Some(Color::White), dim: true, crossed_out: false }),
        ("pick abc", Color::White, plain(Color::White)),
        ("edit abc", Color::Blue, plain(Color::Blue)),
        ("squash abc", Color::Yellow, plain(Color::Yellow)),
        ("fixup abc", Color::LightYellow, plain(Color::LightYellow)),
        ("exec true", Color::Red, plain(Color::Red)),
        ("drop abc", Color::White, Style { fg: Some(Color::White), dim: true, crossed_out: true }),
        ("label onto", Color::White, plain(Color::White)),
        ("reset onto", Color::White, plain(Color::White)),
        ("merge topic", Color::White, plain(Color::White)),
        ("update-ref refs/heads/x", Color::White, plain(Color::White)),
    ];
    for (text, color, style) in cases {
        let line = RebaseTodoLine::parse(text);
        assert_eq!(line.get_color(), color, "input: {}", text);
        assert_eq!(line.get_style(), style, "input: {}", text);
    }
}

#[test]
fn parse_chars_reads_a_range() {
    let chars: Vec<char> = "xx pick abc yy".chars().collect();
    assert_eq!(
        parse_chars(&chars, 2, 11),
        RebaseTodoLine::Pick { commit: "abc".to_string(), rest: vec![] }
    );
    assert_eq!(parse_chars(&chars, 3, 3), comment(""));
    assert_eq!(parse_chars(&chars, 0, 14), comment("xx pick abc yy"));
}

#[test]
fn documents_split_at_line_feeds() {
    assert_eq!(RebaseTodo::parse("").len(), 0);
    assert_eq!(RebaseTodo::parse("\n").lines(), &vec![comment("")]);
    assert_eq!(RebaseTodo::parse("\n\n").lines(), &vec![comment(""), comment("")]);
    assert_eq!(
        RebaseTodo::parse("pick a").lines(),
        &vec![RebaseTodoLine::Pick { commit: "a".to_string(), rest: vec![] }]
    );
    assert_eq!(
        RebaseTodo::parse("pick a\n").lines(),
        &vec![RebaseTodoLine::Pick { commit: "a".to_string(), rest: vec![] }]
    );
    assert_eq!(
        RebaseTodo::parse("pick a\r\ndrop b\r\n").lines(),
        &vec![
            RebaseTodoLine::Pick { commit: "a".to_string(), rest: vec![] },
            RebaseTodoLine::Drop { commit: "b".to_string(), rest: vec![] },
        ]
    );
    assert_eq!(RebaseTodo::parse("  \n# x\n\npick a").len(), 4);
}

#[test]
fn document_text_joins_lines_without_a_final_line_feed() {
    let content = "# top comment\npick a1b2c3d\ndrop deadbeef\n\nexec echo hi\n";
    let todo = RebaseTodo::parse(content);
    assert_eq!(todo.len(), 5);
    assert_eq!(todo.to_string(), "# top comment\npick a1b2c3d\ndrop deadbeef\n\nexec echo hi");
    assert_eq!(RebaseTodo::parse("").to_string(), "");
    assert_eq!(RebaseTodo::parse("p a").to_string(), "pick a");
    assert_eq!(RebaseTodo::parse("\n\n").to_string(), "\n");
    assert_eq!(RebaseTodo::parse(" p  a \n x  ls  -l ").to_string(), "pick a\nexec ls -l");
}

#[test]
fn documents_hold_and_change_their_lines() {
    let mut todo = RebaseTodo::new(vec![
        RebaseTodoLine::parse("pick a"),
        RebaseTodoLine::parse("# note"),
        RebaseTodoLine::parse("drop b"),
    ]);
    assert_eq!(todo.len(), 3);
    assert_eq!(todo.get(1), Some(&comment("# note")));
    assert_eq!(todo.get(3), None);
    todo.swap(0, 2);
    assert_eq!(todo.to_string(), "drop b\n# note\npick a");
    todo.swap(1, 1);
    assert_eq!(todo.to_string(), "drop b\n# note\npick a");
    todo.set(1, RebaseTodoLine::parse("exec true"));
    assert_eq!(todo.to_string(), "drop b\nexec true\npick a");
    assert_eq!(todo.lines().len(), 3);
}

#[test]
fn merge_lines_read_and_written() {
    assert_eq!(
        RebaseTodoLine::parse("merge -c abc123 feature_branch").to_string(),
        "merge -c abc123 feature_branch"
    );
    assert_eq!(RebaseTodoLine::parse("m feature_branch").to_string(), "merge feature_branch");
}

#[test]
fn an_alias_after_white_space_reads_as_its_keyword() {
    assert_eq!(RebaseTodoLine::parse(" \t s  abc  x "), RebaseTodoLine::parse(" \t squash  abc  x "));
    assert_eq!(RebaseTodoLine::parse(" \t s  abc  x ").to_string(), "squash abc x");
    assert_eq!(RebaseTodoLine::parse("u"), comment("u"));
    assert_eq!(RebaseTodoLine::parse("update-ref"), comment("update-ref"));
}
