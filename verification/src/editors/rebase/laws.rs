//! What holds of reading and writing lines, whatever the text.

use crate::editors::rebase::todo::{
    build, command_of, is_commit_flag, lemma_flag_index_is, lemma_parse_line_canonical, parse_line,
    structured, Command, LineView,
};
use crate::text::{
    all_words, is_space, is_word, join, lemma_join_ends, lemma_join_splice, lemma_run_len_is,
    lemma_tokens_are_words, lemma_tokens_concat, lemma_tokens_of_join, lemma_tokens_of_word,
    lemma_tokens_skip_spaces, lemma_trailing_spaces, lemma_trim_fixed, run_len, tokens,
    trailing_spaces, trim,
};
use vstd::prelude::*;

verus! {

/// The keyword and the alias of a command are words that do not start a comment, and both
/// stand for that command and for no other.
pub proof fn lemma_command_words(command: Command)
    ensures
        is_word(command.keyword()),
        is_word(command.alias()),
        command.keyword()[0] != '#',
        command.alias()[0] != '#',
        command_of(command.keyword()) == Some(command),
        command_of(command.alias()) == Some(command),
{
    reveal_strlit("pick");
    reveal_strlit("edit");
    reveal_strlit("squash");
    reveal_strlit("fixup");
    reveal_strlit("drop");
    reveal_strlit("exec");
    reveal_strlit("label");
    reveal_strlit("reset");
    reveal_strlit("merge");
    reveal_strlit("update-ref");
    reveal_strlit("p");
    reveal_strlit("e");
    reveal_strlit("s");
    reveal_strlit("f");
    reveal_strlit("d");
    reveal_strlit("x");
    reveal_strlit("l");
    reveal_strlit("r");
    reveal_strlit("m");
    reveal_strlit("u");
    assert(shape("pick"@) == (4nat, 'p', 'i'));
    assert(shape("edit"@) == (4nat, 'e', 'd'));
    assert(shape("squash"@) == (6nat, 's', 'q'));
    assert(shape("fixup"@) == (5nat, 'f', 'i'));
    assert(shape("drop"@) == (4nat, 'd', 'r'));
    assert(shape("exec"@) == (4nat, 'e', 'x'));
    assert(shape("label"@) == (5nat, 'l', 'a'));
    assert(shape("reset"@) == (5nat, 'r', 'e'));
    assert(shape("merge"@) == (5nat, 'm', 'e'));
    assert(shape("update-ref"@) == (10nat, 'u', 'p'));
    assert(shape("p"@).0 == 1 && shape("p"@).1 == 'p');
    assert(shape("e"@).0 == 1 && shape("e"@).1 == 'e');
    assert(shape("s"@).0 == 1 && shape("s"@).1 == 's');
    assert(shape("f"@).0 == 1 && shape("f"@).1 == 'f');
    assert(shape("d"@).0 == 1 && shape("d"@).1 == 'd');
    assert(shape("x"@).0 == 1 && shape("x"@).1 == 'x');
    assert(shape("l"@).0 == 1 && shape("l"@).1 == 'l');
    assert(shape("r"@).0 == 1 && shape("r"@).1 == 'r');
    assert(shape("m"@).0 == 1 && shape("m"@).1 == 'm');
    assert(shape("u"@).0 == 1 && shape("u"@).1 == 'u');
}

/// The length and the first two characters of a word: enough to tell the command words
/// apart.
spec fn shape(word: Seq<char>) -> (nat, char, char) {
    (word.len(), word[0], word[1])
}

/// The commit flag `-c` is a word.
pub proof fn lemma_commit_flag_word()
    ensures
        is_word("-c"@),
        is_commit_flag("-c"@),
{
    reveal_strlit("-c");
}

/// White space at the end of a text holds no token.
pub proof fn lemma_tokens_of_trim(s: Seq<char>)
    ensures
        tokens(trim(s)) == tokens(s),
{
    lemma_tokens_skip_spaces(s);
    let t = s.skip(run_len(s, true) as int);
    lemma_tokens_drop_trailing(t);
}

/// The tokens of a text are those of the text without its trailing white space.
pub proof fn lemma_tokens_drop_trailing(s: Seq<char>)
    ensures
        tokens(s.take(s.len() - trailing_spaces(s))) == tokens(s),
    decreases s.len(),
{
    lemma_trailing_spaces(s);
    if s.len() > 0 && is_space(s.last()) {
        let front = s.drop_last();
        lemma_tokens_drop_trailing(front);
        lemma_trailing_spaces(front);
        assert(s.take(s.len() - trailing_spaces(s)) == front.take(front.len() - trailing_spaces(
            front,
        )));
        lemma_tokens_concat(front, s.last(), Seq::empty());
        assert(front.push(s.last()) + Seq::<char>::empty() == s);
        assert(tokens(Seq::<char>::empty()) == Seq::<Seq<char>>::empty());
        assert(tokens(front) + Seq::<Seq<char>>::empty() == tokens(front));
    } else {
        assert(s.take(s.len() as int) == s);
    }
}

/// The text of words joined by spaces, the first of which does not start a comment, is
/// read as those words.
proof fn lemma_read_joined(words: Seq<Seq<char>>)
    requires
        words.len() > 0,
        all_words(words),
        words[0][0] != '#',
    ensures
        parse_line(join(words, ' ')) == match structured(words) {
            Some(parsed) => parsed,
            None => LineView::Comment { message: join(words, ' ') },
        },
{
    let text = join(words, ' ');
    lemma_join_ends(words, ' ');
    lemma_trim_fixed(text);
    lemma_tokens_of_join(words, ' ');
}

/// Reading the canonical text of a canonical line gives the line back, and so writing what
/// was read gives the text back.
pub proof fn lemma_canonical_round_trip(line: LineView)
    requires
        line.canonical(),
    ensures
        parse_line(line.text()) == line,
        parse_line(line.text()).text() == line.text(),
{
    match line {
        LineView::Comment { message } => {},
        LineView::Merge { commit, label } => {
            let keyword = Command::Merge.keyword();
            let parts = tokens(label);
            lemma_command_words(Command::Merge);
            lemma_commit_flag_word();
            lemma_tokens_are_words(label);
            match commit {
                Some(c) => {
                    let head = seq![keyword, "-c"@, c];
                    let words = head + parts;
                    lemma_join_splice(head, parts, ' ');
                    assert(head.push(label) == seq![keyword] + line.arguments());
                    assert(all_words(words)) by {
                        assert forall|i: int| 0 <= i < words.len() implies is_word(
                            #[trigger] words[i],
                        ) by {
                            if i >= 3 {
                                assert(words[i] == parts[i - 3]);
                            }
                        }
                    }
                    lemma_read_joined(words);
                    let args = words.skip(1);
                    assert(args[0] == "-c"@);
                    lemma_flag_index_is(args, 0);
                    assert(args.take(0) + args.skip(2) == parts);
                    assert(args[1] == c);
                },
                None => {
                    let head = seq![keyword];
                    let words = head + parts;
                    lemma_join_splice(head, parts, ' ');
                    assert(head.push(label) == seq![keyword] + line.arguments());
                    assert(all_words(words)) by {
                        assert forall|i: int| 0 <= i < words.len() implies is_word(
                            #[trigger] words[i],
                        ) by {
                            if i >= 1 {
                                assert(words[i] == parts[i - 1]);
                            }
                        }
                    }
                    lemma_read_joined(words);
                    assert(words.skip(1) == parts);
                },
            }
        },
        _ => {
            let command = line.command().unwrap();
            let args = line.arguments();
            let words = seq![command.keyword()] + args;
            lemma_command_words(command);
            assert(all_words(words)) by {
                assert forall|i: int| 0 <= i < words.len() implies is_word(#[trigger] words[i]) by {
                    if i >= 1 {
                        assert(words[i] == args[i - 1]);
                    }
                }
            }
            lemma_read_joined(words);
            assert(words.skip(1) == args);
            assert(build(command, args) == Some(line)) by {
                match line {
                    LineView::Exec { command } => {},
                    LineView::UpdateRef { refname } => {},
                    LineView::Pick { commit, rest } => {
                        assert(args.skip(1) == rest);
                    },
                    LineView::Edit { commit, rest } => {
                        assert(args.skip(1) == rest);
                    },
                    LineView::Squash { commit, rest } => {
                        assert(args.skip(1) == rest);
                    },
                    LineView::Fixup { commit, rest } => {
                        assert(args.skip(1) == rest);
                    },
                    LineView::Drop { commit, rest } => {
                        assert(args.skip(1) == rest);
                    },
                    LineView::Label { label, rest } => {
                        assert(args.skip(1) == rest);
                    },
                    LineView::Reset { label, rest } => {
                        assert(args.skip(1) == rest);
                    },
                    _ => {},
                }
            }
        },
    }
}

/// Writing a line that was read and reading it again changes nothing: whatever the text,
/// the line that it stands for is the line that its canonical text stands for.
pub proof fn lemma_reading_settles(text: Seq<char>)
    ensures
        parse_line(parse_line(text).text()) == parse_line(text),
{
    lemma_parse_line_canonical(text);
    lemma_canonical_round_trip(parse_line(text));
}

/// White space, a command word and then `tail`, which is empty or starts with white space,
/// is read as that word and the tokens of `tail`.
proof fn lemma_read_command(lead: Seq<char>, word: Seq<char>, tail: Seq<char>)
    requires
        forall|i: int| 0 <= i < lead.len() ==> is_space(#[trigger] lead[i]),
        is_word(word),
        word[0] != '#',
        tail.len() == 0 || is_space(tail[0]),
    ensures
        parse_line(lead + word + tail) == match structured(seq![word] + tokens(tail)) {
            Some(parsed) => parsed,
            None => LineView::Comment { message: trim(lead + word + tail) },
        },
{
    let s = word + tail;
    let whole = lead + word + tail;
    assert(whole == lead + s);
    assert(s[0] == word[0]);
    assert(run_len(whole, true) == lead.len()) by {
        assert forall|i: int| 0 <= i < lead.len() implies is_space(#[trigger] whole[i]) by {
            assert(whole[i] == lead[i]);
        }
        assert(whole[lead.len() as int] == s[0]);
        lemma_run_len_is(whole, true, lead.len() as int);
    }
    assert(whole.skip(lead.len() as int) == s);
    lemma_trailing_spaces(s);
    assert(trim(whole).len() > 0 && trim(whole)[0] == word[0]) by {
        if trailing_spaces(s) >= s.len() {
            assert(is_space(s[0]));
        }
    }
    lemma_tokens_of_trim(whole);
    lemma_tokens_skip_spaces(whole);
    lemma_tokens_of_word(word);
    if tail.len() == 0 {
        assert(s == word);
        assert(tokens(tail) == Seq::<Seq<char>>::empty());
        assert(seq![word] + tokens(tail) == seq![word]);
    } else {
        let after = tail.drop_first();
        lemma_tokens_concat(word, tail[0], after);
        assert(word.push(tail[0]) + after == s);
    }
}

/// A line whose first word is the alias of a command is read as the same line with the
/// keyword in its place: where one is a command line, both are, with the same command and
/// the same fields, and so the same canonical text. Where they are no command line, both
/// are comments, each of its own text.
///
/// The line is white space `lead`, then the word, then `tail`, which is empty or starts
/// with white space.
pub proof fn lemma_alias_reads_as_keyword(command: Command, lead: Seq<char>, tail: Seq<char>)
    requires
        forall|i: int| 0 <= i < lead.len() ==> is_space(#[trigger] lead[i]),
        tail.len() == 0 || is_space(tail[0]),
    ensures
        ({
            let short = parse_line(lead + command.alias() + tail);
            let long = parse_line(lead + command.keyword() + tail);
            &&& short is Comment <==> long is Comment
            &&& !(long is Comment) ==> short == long && short.text() == long.text()
                && short.command() == Some(command)
        }),
{
    lemma_command_words(command);
    lemma_read_command(lead, command.alias(), tail);
    lemma_read_command(lead, command.keyword(), tail);
    let args = tokens(tail);
    assert((seq![command.alias()] + args).skip(1) == args);
    assert((seq![command.keyword()] + args).skip(1) == args);
    lemma_built_command(command, args);
}

/// What `build` makes for a command is a line of that command.
pub proof fn lemma_built_command(command: Command, args: Seq<Seq<char>>)
    ensures
        build(command, args) matches Some(line) ==> line.command() == Some(command),
{
}

} // verus!
