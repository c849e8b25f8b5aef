//! The line model of a rebase plan: what a line of the todo file is, how text becomes a
//! line, and how a line becomes text again.

use crate::style::{Color, Style};
use crate::text::{
    all_words, chars_of, is_word, join, join_words, line_end, same_text, split_lines, split_words,
    string_of, tokens, trim, trim_range,
};
use vstd::prelude::*;
use vstd::string::StringExecFns;

verus! {

/// The commands of a rebase plan.
#[derive(Debug, Clone, Copy, PartialEq, Eq)]
pub enum Command {
    Pick,
    Edit,
    Squash,
    Fixup,
    Drop,
    Exec,
    Label,
    Reset,
    Merge,
    UpdateRef,
}

impl Command {
    /// The keyword that a line of this command starts with in canonical text.
    pub open spec fn keyword(self) -> Seq<char> {
        match self {
            Command::Pick => "pick"@,
            Command::Edit => "edit"@,
            Command::Squash => "squash"@,
            Command::Fixup => "fixup"@,
            Command::Drop => "drop"@,
            Command::Exec => "exec"@,
            Command::Label => "label"@,
            Command::Reset => "reset"@,
            Command::Merge => "merge"@,
            Command::UpdateRef => "update-ref"@,
        }
    }

    /// The one-letter form of the keyword.
    pub open spec fn alias(self) -> Seq<char> {
        match self {
            Command::Pick => "p"@,
            Command::Edit => "e"@,
            Command::Squash => "s"@,
            Command::Fixup => "f"@,
            Command::Drop => "d"@,
            Command::Exec => "x"@,
            Command::Label => "l"@,
            Command::Reset => "r"@,
            Command::Merge => "m"@,
            Command::UpdateRef => "u"@,
        }
    }

    /// Whether a line of this command is a commit or a label and the words after it: pick,
    /// edit, squash, fixup, drop, label and reset.
    pub open spec fn takes_target(self) -> bool {
        !(self is Exec || self is Merge || self is UpdateRef)
    }

    /// The keyword of this command.
    pub fn name(self) -> (word: &'static str)
        ensures
            word@ == self.keyword(),
    {
        match self {
            Command::Pick => "pick",
            Command::Edit => "edit",
            Command::Squash => "squash",
            Command::Fixup => "fixup",
            Command::Drop => "drop",
            Command::Exec => "exec",
            Command::Label => "label",
            Command::Reset => "reset",
            Command::Merge => "merge",
            Command::UpdateRef => "update-ref",
        }
    }
}

/// The command that `word` stands for, as keyword or as alias.
pub open spec fn command_of(word: Seq<char>) -> Option<Command> {
    if word == Command::Pick.keyword() || word == Command::Pick.alias() {
        Some(Command::Pick)
    } else if word == Command::Edit.keyword() || word == Command::Edit.alias() {
        Some(Command::Edit)
    } else if word == Command::Squash.keyword() || word == Command::Squash.alias() {
        Some(Command::Squash)
    } else if word == Command::Fixup.keyword() || word == Command::Fixup.alias() {
        Some(Command::Fixup)
    } else if word == Command::Drop.keyword() || word == Command::Drop.alias() {
        Some(Command::Drop)
    } else if word == Command::Exec.keyword() || word == Command::Exec.alias() {
        Some(Command::Exec)
    } else if word == Command::Label.keyword() || word == Command::Label.alias() {
        Some(Command::Label)
    } else if word == Command::Reset.keyword() || word == Command::Reset.alias() {
        Some(Command::Reset)
    } else if word == Command::Merge.keyword() || word == Command::Merge.alias() {
        Some(Command::Merge)
    } else if word == Command::UpdateRef.keyword() || word == Command::UpdateRef.alias() {
        Some(Command::UpdateRef)
    } else {
        None
    }
}

/// Whether `word` is the flag that introduces the commit of a merge: `-c` or `-C`.
pub open spec fn is_commit_flag(word: Seq<char>) -> bool {
    word == "-c"@ || word == "-C"@
}

/// Number of words of `args` before the first commit flag; `args.len()` if there is none.
pub open spec fn flag_index(args: Seq<Seq<char>>) -> nat
    decreases args.len(),
{
    if args.len() > 0 && !is_commit_flag(args[0]) {
        1 + flag_index(args.drop_first())
    } else {
        0
    }
}

/// What a line of the todo file is, over plain text.
#[allow(inconsistent_fields)]
pub enum LineView {
    Comment { message: Seq<char> },
    Pick { commit: Seq<char>, rest: Seq<Seq<char>> },
    Edit { commit: Seq<char>, rest: Seq<Seq<char>> },
    Squash { commit: Seq<char>, rest: Seq<Seq<char>> },
    Fixup { commit: Seq<char>, rest: Seq<Seq<char>> },
    Exec { command: Seq<Seq<char>> },
    Drop { commit: Seq<char>, rest: Seq<Seq<char>> },
    Label { label: Seq<char>, rest: Seq<Seq<char>> },
    Reset { label: Seq<char>, rest: Seq<Seq<char>> },
    Merge { commit: Option<Seq<char>>, label: Seq<char> },
    UpdateRef { refname: Seq<char> },
}

impl LineView {
    /// The line of a command that takes a commit or a label and keeps the words after it:
    /// pick, edit, squash, fixup, drop, label and reset.
    pub open spec fn with_target(
        command: Command,
        target: Seq<char>,
        rest: Seq<Seq<char>>,
    ) -> LineView
        recommends
            command.takes_target(),
    {
        match command {
            Command::Edit => LineView::Edit { commit: target, rest },
            Command::Squash => LineView::Squash { commit: target, rest },
            Command::Fixup => LineView::Fixup { commit: target, rest },
            Command::Drop => LineView::Drop { commit: target, rest },
            Command::Label => LineView::Label { label: target, rest },
            Command::Reset => LineView::Reset { label: target, rest },
            _ => LineView::Pick { commit: target, rest },
        }
    }

    /// The command of the line; a comment has none.
    pub open spec fn command(self) -> Option<Command> {
        match self {
            LineView::Comment { .. } => None,
            LineView::Pick { .. } => Some(Command::Pick),
            LineView::Edit { .. } => Some(Command::Edit),
            LineView::Squash { .. } => Some(Command::Squash),
            LineView::Fixup { .. } => Some(Command::Fixup),
            LineView::Exec { .. } => Some(Command::Exec),
            LineView::Drop { .. } => Some(Command::Drop),
            LineView::Label { .. } => Some(Command::Label),
            LineView::Reset { .. } => Some(Command::Reset),
            LineView::Merge { .. } => Some(Command::Merge),
            LineView::UpdateRef { .. } => Some(Command::UpdateRef),
        }
    }

    /// What follows the keyword in the canonical text of the line, part by part.
    pub open spec fn arguments(self) -> Seq<Seq<char>> {
        match self {
            LineView::Comment { .. } => Seq::empty(),
            LineView::Pick { commit, rest } => seq![commit] + rest,
            LineView::Edit { commit, rest } => seq![commit] + rest,
            LineView::Squash { commit, rest } => seq![commit] + rest,
            LineView::Fixup { commit, rest } => seq![commit] + rest,
            LineView::Exec { command } => command,
            LineView::Drop { commit, rest } => seq![commit] + rest,
            LineView::Label { label, rest } => seq![label] + rest,
            LineView::Reset { label, rest } => seq![label] + rest,
            LineView::Merge { commit, label } => match commit {
                Some(c) => seq!["-c"@, c, label],
                None => seq![label],
            },
            LineView::UpdateRef { refname } => seq![refname],
        }
    }

    /// The canonical text of the line: a comment is its message; any other line is its
    /// keyword and its arguments with one space between each two.
    pub open spec fn text(self) -> Seq<char> {
        match self {
            LineView::Comment { message } => message,
            _ => join(seq![self.command().unwrap().keyword()] + self.arguments(), ' '),
        }
    }

    /// The commit that the line names: that of a pick, edit, squash, fixup or drop.
    pub open spec fn commit(self) -> Option<Seq<char>> {
        match self {
            LineView::Pick { commit, .. } => Some(commit),
            LineView::Edit { commit, .. } => Some(commit),
            LineView::Squash { commit, .. } => Some(commit),
            LineView::Fixup { commit, .. } => Some(commit),
            LineView::Drop { commit, .. } => Some(commit),
            _ => None,
        }
    }

    /// The words that trail the commit or label of the line, where its command takes such.
    pub open spec fn rest(self) -> Option<Seq<Seq<char>>> {
        match self {
            LineView::Pick { rest, .. } => Some(rest),
            LineView::Edit { rest, .. } => Some(rest),
            LineView::Squash { rest, .. } => Some(rest),
            LineView::Fixup { rest, .. } => Some(rest),
            LineView::Drop { rest, .. } => Some(rest),
            LineView::Label { rest, .. } => Some(rest),
            LineView::Reset { rest, .. } => Some(rest),
            _ => None,
        }
    }

    /// The colour of the line: edit, squash, fixup and exec each have one of their own, all
    /// other lines are white.
    pub open spec fn color(self) -> Color {
        match self {
            LineView::Edit { .. } => Color::Blue,
            LineView::Squash { .. } => Color::Yellow,
            LineView::Fixup { .. } => Color::LightYellow,
            LineView::Exec { .. } => Color::Red,
            _ => Color::White,
        }
    }

    /// The style of the line: its colour; a comment is dimmed, a drop dimmed and crossed
    /// out.
    pub open spec fn style(self) -> Style {
        Style {
            fg: Some(self.color()),
            dim: self is Comment || self is Drop,
            crossed_out: self is Drop,
        }
    }

    /// The lines that parsing yields. In a command each field is one word, an exec has at
    /// least one word, and the label of a merge is one or more words with single spaces
    /// between them, none of them a commit flag unless a commit is given. A comment is
    /// trimmed text that is empty, starts with `#`, or is no command.
    pub open spec fn canonical(self) -> bool {
        match self {
            LineView::Comment { message } => {
                &&& trim(message) == message
                &&& (message.len() == 0 || message[0] == '#' || structured(tokens(message))
                    is None)
            },
            LineView::Merge { commit, label } => {
                let parts = tokens(label);
                &&& parts.len() > 0
                &&& join(parts, ' ') == label
                &&& match commit {
                    Some(c) => is_word(c),
                    None => flag_index(parts) == parts.len(),
                }
            },
            _ => self.arguments().len() > 0 && all_words(self.arguments()),
        }
    }
}

/// The command line that the arguments `args` of `command` make, if they fit it.
///
/// A command with a commit or a label takes that word and keeps all further words. An exec
/// takes all words and needs one. An update-ref takes exactly one word. A merge takes a
/// label of one or more words; where a commit flag occurs, the first one must be followed
/// by the commit and by at least one more word, and those two words are not part of the
/// label.
pub open spec fn build(command: Command, args: Seq<Seq<char>>) -> Option<LineView> {
    match command {
        Command::Exec => if args.len() >= 1 {
            Some(LineView::Exec { command: args })
        } else {
            None
        },
        Command::Merge => {
            let i = flag_index(args) as int;
            if i == args.len() {
                if args.len() >= 1 {
                    Some(LineView::Merge { commit: None, label: join(args, ' ') })
                } else {
                    None
                }
            } else if i + 2 < args.len() {
                Some(
                    LineView::Merge {
                        commit: Some(args[i + 1]),
                        label: join(args.take(i) + args.skip(i + 2), ' '),
                    },
                )
            } else {
                None
            }
        },
        Command::UpdateRef => if args.len() == 1 {
            Some(LineView::UpdateRef { refname: args[0] })
        } else {
            None
        },
        _ => if args.len() >= 1 {
            Some(LineView::with_target(command, args[0], args.skip(1)))
        } else {
            None
        },
    }
}

/// The command line that `words` spell: the first word names the command, the others are
/// its arguments. `None` where the first word is no command or the arguments do not fit.
pub open spec fn structured(words: Seq<Seq<char>>) -> Option<LineView> {
    if words.len() == 0 {
        None
    } else {
        match command_of(words[0]) {
            Some(command) => build(command, words.skip(1)),
            None => None,
        }
    }
}

/// The line that the text `line` stands for. Surrounding white space does not count. Empty
/// text and text that starts with `#` are comments; so is all text that spells no command,
/// and the message of a comment is the trimmed text.
pub open spec fn parse_line(line: Seq<char>) -> LineView {
    let text = trim(line);
    if text.len() == 0 || text[0] == '#' {
        LineView::Comment { message: text }
    } else {
        match structured(tokens(text)) {
            Some(parsed) => parsed,
            None => LineView::Comment { message: text },
        }
    }
}

/// One line of a rebase plan.
#[derive(Debug, PartialEq, Eq)]
#[allow(inconsistent_fields)]
pub enum RebaseTodoLine {
    Comment { message: String },
    Pick { commit: String, rest: Vec<String> },
    Edit { commit: String, rest: Vec<String> },
    Squash { commit: String, rest: Vec<String> },
    Fixup { commit: String, rest: Vec<String> },
    Exec { command: Vec<String> },
    Drop { commit: String, rest: Vec<String> },
    Label { label: String, rest: Vec<String> },
    Reset { label: String, rest: Vec<String> },
    Merge { commit: Option<String>, label: String },
    UpdateRef { refname: String },
}

impl View for RebaseTodoLine {
    type V = LineView;

    open spec fn view(&self) -> LineView {
        match *self {
            RebaseTodoLine::Comment { message } => LineView::Comment { message: message@ },
            RebaseTodoLine::Pick { commit, rest } => LineView::Pick {
                commit: commit@,
                rest: rest.deep_view(),
            },
            RebaseTodoLine::Edit { commit, rest } => LineView::Edit {
                commit: commit@,
                rest: rest.deep_view(),
            },
            RebaseTodoLine::Squash { commit, rest } => LineView::Squash {
                commit: commit@,
                rest: rest.deep_view(),
            },
            RebaseTodoLine::Fixup { commit, rest } => LineView::Fixup {
                commit: commit@,
                rest: rest.deep_view(),
            },
            RebaseTodoLine::Exec { command } => LineView::Exec { command: command.deep_view() },
            RebaseTodoLine::Drop { commit, rest } => LineView::Drop {
                commit: commit@,
                rest: rest.deep_view(),
            },
            RebaseTodoLine::Label { label, rest } => LineView::Label {
                label: label@,
                rest: rest.deep_view(),
            },
            RebaseTodoLine::Reset { label, rest } => LineView::Reset {
                label: label@,
                rest: rest.deep_view(),
            },
            RebaseTodoLine::Merge { commit, label } => LineView::Merge {
                commit: match commit {
                    Some(c) => Some(c@),
                    None => None,
                },
                label: label@,
            },
            RebaseTodoLine::UpdateRef { refname } => LineView::UpdateRef { refname: refname@ },
        }
    }
}

/// A copy of `words`.
pub fn clone_words(words: &Vec<String>) -> (copy: Vec<String>)
    ensures
        copy.deep_view() == words.deep_view(),
{
    let mut copy: Vec<String> = Vec::new();
    let mut i: usize = 0;
    while i < words.len()
        invariant
            i <= words.len(),
            copy.len() == i,
            forall|k: int| 0 <= k < i ==> copy@[k]@ == words@[k]@,
        decreases words.len() - i,
    {
        copy.push(words[i].clone());
        i += 1;
    }
    assert(copy.deep_view() =~= words.deep_view());
    copy
}

impl Clone for RebaseTodoLine {
    fn clone(&self) -> (copy: Self)
        ensures
            copy@ == self@,
    {
        match self {
            RebaseTodoLine::Comment { message } => RebaseTodoLine::Comment {
                message: message.clone(),
            },
            RebaseTodoLine::Pick { commit, rest } => RebaseTodoLine::Pick {
                commit: commit.clone(),
                rest: clone_words(rest),
            },
            RebaseTodoLine::Edit { commit, rest } => RebaseTodoLine::Edit {
                commit: commit.clone(),
                rest: clone_words(rest),
            },
            RebaseTodoLine::Squash { commit, rest } => RebaseTodoLine::Squash {
                commit: commit.clone(),
                rest: clone_words(rest),
            },
            RebaseTodoLine::Fixup { commit, rest } => RebaseTodoLine::Fixup {
                commit: commit.clone(),
                rest: clone_words(rest),
            },
            RebaseTodoLine::Exec { command } => RebaseTodoLine::Exec {
                command: clone_words(command),
            },
            RebaseTodoLine::Drop { commit, rest } => RebaseTodoLine::Drop {
                commit: commit.clone(),
                rest: clone_words(rest),
            },
            RebaseTodoLine::Label { label, rest } => RebaseTodoLine::Label {
                label: label.clone(),
                rest: clone_words(rest),
            },
            RebaseTodoLine::Reset { label, rest } => RebaseTodoLine::Reset {
                label: label.clone(),
                rest: clone_words(rest),
            },
            RebaseTodoLine::Merge { commit, label } => RebaseTodoLine::Merge {
                commit: match commit {
                    Some(c) => Some(c.clone()),
                    None => None,
                },
                label: label.clone(),
            },
            RebaseTodoLine::UpdateRef { refname } => RebaseTodoLine::UpdateRef {
                refname: refname.clone(),
            },
        }
    }
}

/// The command that `word` stands for, as keyword or as alias.
pub fn command_for(word: &str) -> (command: Option<Command>)
    ensures
        command == command_of(word@),
{
    if same_text(word, "pick") || same_text(word, "p") {
        Some(Command::Pick)
    } else if same_text(word, "edit") || same_text(word, "e") {
        Some(Command::Edit)
    } else if same_text(word, "squash") || same_text(word, "s") {
        Some(Command::Squash)
    } else if same_text(word, "fixup") || same_text(word, "f") {
        Some(Command::Fixup)
    } else if same_text(word, "drop") || same_text(word, "d") {
        Some(Command::Drop)
    } else if same_text(word, "exec") || same_text(word, "x") {
        Some(Command::Exec)
    } else if same_text(word, "label") || same_text(word, "l") {
        Some(Command::Label)
    } else if same_text(word, "reset") || same_text(word, "r") {
        Some(Command::Reset)
    } else if same_text(word, "merge") || same_text(word, "m") {
        Some(Command::Merge)
    } else if same_text(word, "update-ref") || same_text(word, "u") {
        Some(Command::UpdateRef)
    } else {
        None
    }
}


/// `flag_index` counts the words before the first commit flag.
pub proof fn lemma_flag_index(args: Seq<Seq<char>>)
    ensures
        flag_index(args) <= args.len(),
        forall|i: int| 0 <= i < flag_index(args) ==> !is_commit_flag(#[trigger] args[i]),
        flag_index(args) < args.len() ==> is_commit_flag(args[flag_index(args) as int]),
    decreases args.len(),
{
    if args.len() > 0 && !is_commit_flag(args[0]) {
        let t = args.drop_first();
        lemma_flag_index(t);
        assert forall|i: int| 0 <= i < flag_index(args) implies !is_commit_flag(
            #[trigger] args[i],
        ) by {
            if i > 0 {
                assert(args[i] == t[i - 1]);
            }
        }
        if flag_index(args) < args.len() {
            assert(args[flag_index(args) as int] == t[flag_index(t) as int]);
        }
    }
}

/// A prefix of `n` words without a commit flag that ends `args` or is followed by one is
/// what `flag_index` counts.
pub proof fn lemma_flag_index_is(args: Seq<Seq<char>>, n: int)
    requires
        0 <= n <= args.len(),
        forall|i: int| 0 <= i < n ==> !is_commit_flag(#[trigger] args[i]),
        n < args.len() ==> is_commit_flag(args[n]),
    ensures
        flag_index(args) == n,
    decreases n,
{
    if n > 0 {
        let t = args.drop_first();
        assert forall|i: int| 0 <= i < n - 1 implies !is_commit_flag(#[trigger] t[i]) by {
            assert(t[i] == args[i + 1]);
        }
        lemma_flag_index_is(t, n - 1);
    }
}

/// Appends a space and `word` to `text`, which holds the parts `head` joined by spaces.
fn append_word(text: &mut String, word: &str, Ghost(head): Ghost<Seq<Seq<char>>>)
    requires
        head.len() > 0,
        old(text)@ == join(head, ' '),
    ensures
        final(text)@ == join(head.push(word@), ' '),
{
    text.push(' ');
    text.append(word);
    proof {
        assert(head.push(word@).drop_last() == head);
    }
}

/// Appends a space and the word for each word of `words` to `text`, which holds the parts
/// `head` joined by spaces.
fn append_words(text: &mut String, words: &Vec<String>, Ghost(head): Ghost<Seq<Seq<char>>>)
    requires
        head.len() > 0,
        old(text)@ == join(head, ' '),
    ensures
        final(text)@ == join(head + words.deep_view(), ' '),
{
    let mut i: usize = 0;
    proof {
        assert(head + words.deep_view().take(0) == head);
    }
    while i < words.len()
        invariant
            i <= words.len(),
            head.len() > 0,
            text@ == join(head + words.deep_view().take(i as int), ' '),
        decreases words.len() - i,
    {
        append_word(text, words[i].as_str(), Ghost(head + words.deep_view().take(i as int)));
        proof {
            assert((head + words.deep_view().take(i as int)).push(words@[i as int]@) == head
                + words.deep_view().take(i + 1));
        }
        i += 1;
    }
    proof {
        assert(words.deep_view().take(words.len() as int) == words.deep_view());
    }
}

/// The canonical text of a command with one word and the words after it.
fn target_text(command: Command, target: &String, rest: &Vec<String>) -> (text: String)
    ensures
        text@ == join(seq![command.keyword()] + (seq![target@] + rest.deep_view()), ' '),
{
    let ghost keyword = seq![command.keyword()];
    let ghost head = seq![command.keyword(), target@];
    let mut text = String::from_str(command.name());
    append_word(&mut text, target.as_str(), Ghost(keyword));
    proof {
        assert(keyword.push(target@) == head);
    }
    append_words(&mut text, rest, Ghost(head));
    proof {
        assert(seq![command.keyword(), target@] + rest.deep_view() == seq![command.keyword()] + (
            seq![target@] + rest.deep_view()));
    }
    text
}

/// The index of the first commit flag among `args`, or their number.
fn find_flag(args: &Vec<String>) -> (index: usize)
    ensures
        index == flag_index(args.deep_view()),
        index <= args.len(),
{
    let mut i: usize = 0;
    while i < args.len() && !(same_text(args[i].as_str(), "-c") || same_text(
        args[i].as_str(),
        "-C",
    ))
        invariant
            i <= args.len(),
            forall|k: int| 0 <= k < i ==> !is_commit_flag(#[trigger] args.deep_view()[k]),
        decreases args.len() - i,
    {
        i += 1;
    }
    proof {
        lemma_flag_index_is(args.deep_view(), i as int);
    }
    i
}

/// The merge line that the arguments make, if they fit.
fn build_merge(args: Vec<String>) -> (line: Option<RebaseTodoLine>)
    ensures
        match line {
            Some(l) => build(Command::Merge, args.deep_view()) == Some(l@),
            None => build(Command::Merge, args.deep_view()) is None,
        },
{
    let ghost all = args.deep_view();
    let mut args = args;
    let flag = find_flag(&args);
    if flag == args.len() {
        if args.len() >= 1 {
            Some(RebaseTodoLine::Merge { commit: None, label: join_words(&args, ' ') })
        } else {
            None
        }
    } else if args.len() - flag > 2 {
        let commit = args.remove(flag + 1);
        let _ = args.remove(flag);
        proof {
            assert(args.deep_view() =~= all.take(flag as int) + all.skip(flag + 2));
        }
        Some(RebaseTodoLine::Merge { commit: Some(commit), label: join_words(&args, ' ') })
    } else {
        None
    }
}

/// The command line that `words` spell, if they spell one.
fn build_line(words: Vec<String>) -> (line: Option<RebaseTodoLine>)
    ensures
        match line {
            Some(l) => structured(words.deep_view()) == Some(l@),
            None => structured(words.deep_view()) is None,
        },
{
    let ghost all = words.deep_view();
    let mut args = words;
    if args.len() == 0 {
        return None;
    }
    let command = match command_for(args[0].as_str()) {
        Some(command) => command,
        None => {
            return None;
        },
    };
    let _ = args.remove(0);
    proof {
        assert(args.deep_view() =~= all.skip(1));
    }
    match command {
        Command::Exec => {
            if args.len() >= 1 {
                Some(RebaseTodoLine::Exec { command: args })
            } else {
                None
            }
        },
        Command::Merge => build_merge(args),
        Command::UpdateRef => {
            if args.len() == 1 {
                let refname = args.remove(0);
                Some(RebaseTodoLine::UpdateRef { refname })
            } else {
                None
            }
        },
        _ => {
            if args.len() >= 1 {
                let target = args.remove(0);
                proof {
                    assert(args.deep_view() =~= all.skip(1).skip(1));
                }
                Some(RebaseTodoLine::with_target(command, target, args))
            } else {
                None
            }
        },
    }
}

/// The line that `chars[from..to]` stands for.
pub fn parse_chars(chars: &[char], from: usize, to: usize) -> (parsed: RebaseTodoLine)
    requires
        from <= to <= chars@.len(),
    ensures
        parsed@ == parse_line(chars@.subrange(from as int, to as int)),
{
    let (start, end) = trim_range(chars, from, to);
    if start == end || chars[start] == '#' {
        return RebaseTodoLine::Comment { message: string_of(chars, start, end) };
    }
    let words = split_words(chars, start, end);
    match build_line(words) {
        Some(line) => line,
        None => RebaseTodoLine::Comment { message: string_of(chars, start, end) },
    }
}

impl RebaseTodoLine {
    /// The line of a command that takes a commit or a label and keeps the words after it.
    fn with_target(command: Command, target: String, rest: Vec<String>) -> (line: Self)
        requires
            command.takes_target(),
        ensures
            line@ == LineView::with_target(command, target@, rest.deep_view()),
    {
        match command {
            Command::Edit => RebaseTodoLine::Edit { commit: target, rest },
            Command::Squash => RebaseTodoLine::Squash { commit: target, rest },
            Command::Fixup => RebaseTodoLine::Fixup { commit: target, rest },
            Command::Drop => RebaseTodoLine::Drop { commit: target, rest },
            Command::Label => RebaseTodoLine::Label { label: target, rest },
            Command::Reset => RebaseTodoLine::Reset { label: target, rest },
            _ => RebaseTodoLine::Pick { commit: target, rest },
        }
    }

    /// Reads one line of a todo file. Reading never fails: what is no command is a comment
    /// that holds the trimmed text.
    pub fn parse(line: &str) -> (parsed: Self)
        ensures
            parsed@ == parse_line(line@),
            parsed@.canonical(),
            trim(line@).len() == 0 || trim(line@)[0] == '#' ==> parsed@ == (LineView::Comment {
                message: trim(line@),
            }),
            parsed@ is Comment ==> parsed@.text() == trim(line@),
    {
        let chars = chars_of(line);
        let parsed = parse_chars(chars.as_slice(), 0, chars.len());
        proof {
            assert(chars@.subrange(0, chars@.len() as int) == chars@);
            lemma_parse_line_canonical(line@);
        }
        parsed
    }

    /// The canonical text of the line.
    pub fn to_string(&self) -> (text: String)
        ensures
            text@ == self@.text(),
    {
        match self {
            RebaseTodoLine::Comment { message } => message.clone(),
            RebaseTodoLine::Pick { commit, rest } => target_text(Command::Pick, commit, rest),
            RebaseTodoLine::Edit { commit, rest } => target_text(Command::Edit, commit, rest),
            RebaseTodoLine::Squash { commit, rest } => target_text(Command::Squash, commit, rest),
            RebaseTodoLine::Fixup { commit, rest } => target_text(Command::Fixup, commit, rest),
            RebaseTodoLine::Exec { command } => {
                let ghost keyword = seq![Command::Exec.keyword()];
                let mut text = String::from_str(Command::Exec.name());
                append_words(&mut text, command, Ghost(keyword));
                text
            },
            RebaseTodoLine::Drop { commit, rest } => target_text(Command::Drop, commit, rest),
            RebaseTodoLine::Label { label, rest } => target_text(Command::Label, label, rest),
            RebaseTodoLine::Reset { label, rest } => target_text(Command::Reset, label, rest),
            RebaseTodoLine::Merge { commit, label } => {
                let ghost keyword = seq![Command::Merge.keyword()];
                let mut text = String::from_str(Command::Merge.name());
                match commit {
                    Some(c) => {
                        let ghost flagged = keyword.push("-c"@);
                        let ghost committed = flagged.push(c@);
                        append_word(&mut text, "-c", Ghost(keyword));
                        append_word(&mut text, c.as_str(), Ghost(flagged));
                        append_word(&mut text, label.as_str(), Ghost(committed));
                        proof {
                            assert(committed.push(label@) == keyword + seq!["-c"@, c@, label@]);
                        }
                    },
                    None => {
                        append_word(&mut text, label.as_str(), Ghost(keyword));
                        proof {
                            assert(keyword.push(label@) == keyword + seq![label@]);
                        }
                    },
                }
                text
            },
            RebaseTodoLine::UpdateRef { refname } => {
                let ghost keyword = seq![Command::UpdateRef.keyword()];
                let mut text = String::from_str(Command::UpdateRef.name());
                append_word(&mut text, refname.as_str(), Ghost(keyword));
                proof {
                    assert(keyword.push(refname@) == keyword + seq![refname@]);
                }
                text
            },
        }
    }

    /// Whether the line is a comment: a line that the cursor passes over.
    pub fn is_comment(&self) -> (comment: bool)
        ensures
            comment == (self@ is Comment),
    {
        match self {
            RebaseTodoLine::Comment { .. } => true,
            _ => false,
        }
    }

    /// The commit that the line names: that of a pick, edit, squash, fixup or drop.
    pub fn get_commit(&self) -> (commit: Option<&String>)
        ensures
            match commit {
                Some(c) => self@.commit() == Some(c@),
                None => self@.commit() is None,
            },
    {
        match self {
            RebaseTodoLine::Pick { commit, .. } => Some(commit),
            RebaseTodoLine::Edit { commit, .. } => Some(commit),
            RebaseTodoLine::Squash { commit, .. } => Some(commit),
            RebaseTodoLine::Fixup { commit, .. } => Some(commit),
            RebaseTodoLine::Drop { commit, .. } => Some(commit),
            _ => None,
        }
    }

    /// The words that trail the commit or label of the line, where its command takes such.
    pub fn get_rest(&self) -> (rest: Option<&Vec<String>>)
        ensures
            match rest {
                Some(r) => self@.rest() == Some(r.deep_view()),
                None => self@.rest() is None,
            },
    {
        match self {
            RebaseTodoLine::Pick { rest, .. } => Some(rest),
            RebaseTodoLine::Edit { rest, .. } => Some(rest),
            RebaseTodoLine::Squash { rest, .. } => Some(rest),
            RebaseTodoLine::Fixup { rest, .. } => Some(rest),
            RebaseTodoLine::Drop { rest, .. } => Some(rest),
            RebaseTodoLine::Label { rest, .. } => Some(rest),
            RebaseTodoLine::Reset { rest, .. } => Some(rest),
            _ => None,
        }
    }

    /// The colour that the line is shown in.
    pub fn get_color(&self) -> (color: Color)
        ensures
            color == self@.color(),
    {
        match self {
            RebaseTodoLine::Edit { .. } => Color::Blue,
            RebaseTodoLine::Squash { .. } => Color::Yellow,
            RebaseTodoLine::Fixup { .. } => Color::LightYellow,
            RebaseTodoLine::Exec { .. } => Color::Red,
            _ => Color::White,
        }
    }

    /// The style that the line is shown in.
    pub fn get_style(&self) -> (style: Style)
        ensures
            style == self@.style(),
    {
        let color = self.get_color();
        match self {
            RebaseTodoLine::Comment { .. } => Style {
                fg: Some(color),
                dim: true,
                crossed_out: false,
            },
            RebaseTodoLine::Drop { .. } => Style { fg: Some(color), dim: true, crossed_out: true },
            _ => Style { fg: Some(color), dim: false, crossed_out: false },
        }
    }
}

/// Parsing yields canonical lines.
pub proof fn lemma_parse_line_canonical(line: Seq<char>)
    ensures
        parse_line(line).canonical(),
        parse_line(line) is Comment ==> parse_line(line).text() == trim(line),
{
    let text = trim(line);
    crate::text::lemma_trim_ends(line);
    if text.len() == 0 || text[0] == '#' {
    } else {
        let words = tokens(text);
        crate::text::lemma_tokens_are_words(text);
        match structured(words) {
            None => {},
            Some(parsed) => {
                let command = command_of(words[0]).unwrap();
                let args = words.skip(1);
                assert(all_words(args)) by {
                    assert forall|i: int| 0 <= i < args.len() implies is_word(
                        #[trigger] args[i],
                    ) by {
                        assert(args[i] == words[i + 1]);
                    }
                }
                match command {
                    Command::Merge => {
                        lemma_flag_index(args);
                        let i = flag_index(args) as int;
                        let parts = if i == args.len() {
                            args
                        } else {
                            args.take(i) + args.skip(i + 2)
                        };
                        assert(all_words(parts)) by {
                            assert forall|k: int| 0 <= k < parts.len() implies is_word(
                                #[trigger] parts[k],
                            ) by {
                                if i == args.len() {
                                } else if k < i {
                                    assert(parts[k] == args[k]);
                                } else {
                                    assert(parts[k] == args[k + 2]);
                                }
                            }
                        }
                        crate::text::lemma_tokens_of_join(parts, ' ');
                        if i < args.len() {
                            assert(is_word(args[i + 1]));
                        }
                    },
                    Command::Exec => {},
                    Command::UpdateRef => {
                        assert(parsed.arguments() =~= args);
                    },
                    _ => {
                        assert(parsed.arguments() =~= args);
                    },
                }
            },
        }
    }
}


/// The views of `lines`, in order.
pub open spec fn line_views(lines: Seq<RebaseTodoLine>) -> Seq<LineView> {
    lines.map_values(|line: RebaseTodoLine| line@)
}

/// The lines that the text of a todo file stands for: each line of the text, read by
/// itself.
pub open spec fn parse_document(content: Seq<char>) -> Seq<LineView> {
    split_lines(content).map_values(|line: Seq<char>| parse_line(line))
}

/// The text of a todo file: the canonical texts of its lines with a line feed between each
/// two, and none at the end.
pub open spec fn document_text(lines: Seq<LineView>) -> Seq<char> {
    join(lines.map_values(|line: LineView| line.text()), '\n')
}

/// `<[T]>::swap` exchanges the elements at two indices, and leaves the slice as it is where
/// the two are the same. It panics on an index out of bounds.
pub assume_specification<T>[ <[T]>::swap ](s: &mut [T], a: usize, b: usize)
    requires
        a < old(s)@.len(),
        b < old(s)@.len(),
    ensures
        final(s)@ == old(s)@.update(a as int, old(s)@[b as int]).update(
            b as int,
            old(s)@[a as int],
        ),
;

/// The lines of a rebase plan, in the order of the file.
#[derive(Debug)]
pub struct RebaseTodo {
    lines: Vec<RebaseTodoLine>,
}

impl View for RebaseTodo {
    type V = Seq<LineView>;

    closed spec fn view(&self) -> Seq<LineView> {
        line_views(self.lines@)
    }
}

impl RebaseTodo {
    /// The plan that holds `lines`.
    pub fn new(lines: Vec<RebaseTodoLine>) -> (todo: Self)
        ensures
            todo@ == line_views(lines@),
    {
        RebaseTodo { lines }
    }

    /// Reads the text of a todo file, line by line.
    pub fn parse(content: &str) -> (todo: Self)
        ensures
            todo@ == parse_document(content@),
    {
        let chars = chars_of(content);
        let n = chars.len();
        let mut lines: Vec<RebaseTodoLine> = Vec::new();
        let mut i: usize = 0;
        proof {
            assert(chars@.subrange(0, n as int) == chars@);
            assert(line_views(lines@) + parse_document(chars@) == parse_document(chars@));
        }
        while i < n
            invariant
                i <= n == chars@.len(),
                parse_document(chars@) == line_views(lines@) + parse_document(
                    chars@.subrange(i as int, n as int),
                ),
            decreases n - i,
        {
            let ghost tail = chars@.subrange(i as int, n as int);
            let ghost before = line_views(lines@);
            let end = line_end(chars.as_slice(), i, n);
            let line = parse_chars(chars.as_slice(), i, end);
            lines.push(line);
            proof {
                assert(tail.take(end - i) == chars@.subrange(i as int, end as int));
                assert(line_views(lines@) == before.push(line@));
                if end < n {
                    let after = chars@.subrange(end + 1, n as int);
                    assert(tail.skip(end - i + 1) == after);
                    assert(parse_document(tail) == seq![line@] + parse_document(after));
                    assert(before + (seq![line@] + parse_document(after)) == before.push(line@)
                        + parse_document(after));
                } else {
                    let after = chars@.subrange(n as int, n as int);
                    assert(tail.take(end - i) == tail);
                    assert(parse_document(tail) == seq![line@]);
                    assert(parse_document(after) == Seq::<LineView>::empty());
                    assert(before + seq![line@] == before.push(line@) + parse_document(after));
                }
            }
            i = if end < n {
                end + 1
            } else {
                n
            };
        }
        proof {
            assert(parse_document(chars@.subrange(n as int, n as int)) == Seq::<LineView>::empty());
            assert(line_views(lines@) + Seq::<LineView>::empty() == line_views(lines@));
        }
        RebaseTodo { lines }
    }

    /// The lines, in order.
    pub fn lines(&self) -> (lines: &Vec<RebaseTodoLine>)
        ensures
            line_views(lines@) == self@,
    {
        &self.lines
    }

    /// The number of lines.
    pub fn len(&self) -> (len: usize)
        ensures
            len == self@.len(),
    {
        self.lines.len()
    }

    /// The line at `index`, if there is one.
    pub fn get(&self, index: usize) -> (line: Option<&RebaseTodoLine>)
        ensures
            match line {
                Some(l) => index < self@.len() && l@ == self@[index as int],
                None => index >= self@.len(),
            },
    {
        if index < self.lines.len() {
            Some(&self.lines[index])
        } else {
            None
        }
    }

    /// Puts `line` in the place of the line at `index`.
    pub fn set(&mut self, index: usize, line: RebaseTodoLine)
        requires
            index < old(self)@.len(),
        ensures
            final(self)@ == old(self)@.update(index as int, line@),
    {
        self.lines[index] = line;
        proof {
            assert(line_views(self.lines@) == line_views(old(self).lines@).update(
                index as int,
                line@,
            ));
        }
    }

    /// Exchanges the lines at `a` and `b`.
    pub fn swap(&mut self, a: usize, b: usize)
        requires
            a < old(self)@.len(),
            b < old(self)@.len(),
        ensures
            final(self)@ == old(self)@.update(a as int, old(self)@[b as int]).update(
                b as int,
                old(self)@[a as int],
            ),
    {
        self.lines.swap(a, b);
        proof {
            assert(line_views(self.lines@) == line_views(old(self).lines@).update(
                a as int,
                old(self)@[b as int],
            ).update(b as int, old(self)@[a as int]));
        }
    }

    /// The text of the file: the canonical text of each line, joined by line feeds.
    pub fn to_string(&self) -> (text: String)
        ensures
            text@ == document_text(self@),
    {
        let mut texts: Vec<String> = Vec::new();
        let mut i: usize = 0;
        let ghost all = self@.map_values(|line: LineView| line.text());
        while i < self.lines.len()
            invariant
                i <= self.lines.len(),
                all == self@.map_values(|line: LineView| line.text()),
                texts.deep_view() == all.take(i as int),
            decreases self.lines.len() - i,
        {
            let ghost before = texts.deep_view();
            let text = self.lines[i].to_string();
            texts.push(text);
            proof {
                assert(texts.deep_view() == before.push(text@));
                assert(all.take(i + 1) == all.take(i as int).push(all[i as int]));
            }
            i += 1;
        }
        proof {
            assert(all.take(self.lines.len() as int) == all);
        }
        join_words(&texts, '\n')
    }
}

} // verus!
