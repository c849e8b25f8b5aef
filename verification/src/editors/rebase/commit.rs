//! What is shown of the commit that the line under the cursor names.

use crate::editors::rebase::editor::RebaseEditor;
use crate::style::{Color, Style};
use vstd::prelude::*;
use vstd::string::StringExecFns;
use vstd::utf8::{decode_utf8, valid_utf8};

verus! {

/// The error of `core::str::from_utf8`.
#[verifier::external_type_specification]
#[verifier::external_body]
pub struct ExUtf8Error(core::str::Utf8Error);

/// `core::str::from_utf8` reads the bytes as text where they are valid UTF-8, and gives an
/// error where they are not.
pub assume_specification<'a>[ core::str::from_utf8 ](v: &'a [u8]) -> (r: Result<
    &'a str,
    core::str::Utf8Error,
>)
    ensures
        r is Ok <==> valid_utf8(v@),
        r matches Ok(s) ==> s@ == decode_utf8(v@),
;

/// The text that chrono shows for the time `seconds` after the Unix epoch, in UTC; `None`
/// where chrono has no date for that time.
pub uninterp spec fn utc_text(seconds: i64) -> Option<Seq<char>>;

/// `chrono::DateTime::from_timestamp` with no nanoseconds, and the text that `Display` gives
/// its result. The time is in UTC, so the text depends on `seconds` alone. The epoch
/// itself is in range.
#[verifier::external_body]
fn utc_time_text(seconds: i64) -> (text: Option<String>)
    ensures
        match text {
            Some(t) => utc_text(seconds) == Some(t@),
            None => utc_text(seconds) is None,
        },
        seconds == 0 ==> text is Some,
{
    match chrono::DateTime::from_timestamp(seconds, 0) {
        Some(time) => Some(time.to_string()),
        None => None,
    }
}

/// A line of text and the style it is shown in.
#[derive(Debug, PartialEq, Eq)]
pub struct StyledLine {
    pub text: String,
    pub style: Style,
}

impl View for StyledLine {
    type V = (Seq<char>, Style);

    open spec fn view(&self) -> (Seq<char>, Style) {
        (self.text@, self.style)
    }
}

/// The views of `lines`, in order.
pub open spec fn styled_views(lines: Seq<StyledLine>) -> Seq<(Seq<char>, Style)> {
    lines.map_values(|line: StyledLine| line@)
}

/// What is known of a commit: its author, its time in seconds after the Unix epoch, its
/// message, and its changes against its first parent as lines of a patch. A name, an
/// address or a message that is no valid text is absent.
#[derive(Debug, PartialEq, Eq)]
pub struct CommitInfo {
    pub author_name: Option<String>,
    pub author_email: Option<String>,
    pub seconds: i64,
    pub message: Option<String>,
    pub diff: Vec<StyledLine>,
}

/// The text of `value`, or `default` where it is absent.
pub open spec fn text_or(value: Option<String>, default: Seq<char>) -> Seq<char> {
    match value {
        Some(text) => text@,
        None => default,
    }
}

/// The style of a line of a patch by its origin: an added line is green, a removed line
/// red, any other line plain.
pub open spec fn diff_style(origin: char) -> Style {
    if origin == '+' {
        Style::colored(Color::Green)
    } else if origin == '-' {
        Style::colored(Color::Red)
    } else {
        Style::plain()
    }
}

/// The text of the date line of a commit: the time in UTC, and the epoch where the time is
/// out of range.
pub open spec fn date_text(seconds: i64) -> Seq<char> {
    match utc_text(seconds) {
        Some(text) => text,
        None => utc_text(0).unwrap(),
    }
}

/// The lines that show a commit whose date reads `date`: the author, the date, an empty
/// line, the message, another empty line, and then the lines of the patch. The author ends
/// with a line feed, the date and the message with two.
pub open spec fn commit_lines(commit: &CommitInfo, date: Seq<char>) -> Seq<(Seq<char>, Style)> {
    seq![
        (
            "Author: "@ + text_or(commit.author_name, "Unknown"@) + " <"@ + text_or(
                commit.author_email,
                "unknown"@,
            ) + ">\n"@,
            Style::plain(),
        ),
        ("Date:   "@ + date + "\n\n"@, Style::plain()),
        (Seq::empty(), Style::plain()),
        (text_or(commit.message, "No commit message"@) + "\n\n"@, Style::plain()),
        (Seq::empty(), Style::plain()),
    ] + styled_views(commit.diff@)
}

/// A line of plain style.
fn plain_line(text: String) -> (line: StyledLine)
    ensures
        line@ == (text@, Style::plain()),
{
    StyledLine { text, style: Style { fg: None, dim: false, crossed_out: false } }
}

/// One line of a patch: the content as text, or no text where the content is no valid
/// UTF-8, in the style of its origin.
pub fn diff_line(origin: char, content: &[u8]) -> (line: StyledLine)
    ensures
        line.style == diff_style(origin),
        line.text@ == if valid_utf8(content@) {
            decode_utf8(content@)
        } else {
            Seq::empty()
        },
{
    let text = match core::str::from_utf8(content) {
        Ok(text) => String::from_str(text),
        Err(_) => String::new(),
    };
    let style = if origin == '+' {
        Style { fg: Some(Color::Green), dim: false, crossed_out: false }
    } else if origin == '-' {
        Style { fg: Some(Color::Red), dim: false, crossed_out: false }
    } else {
        Style { fg: None, dim: false, crossed_out: false }
    };
    StyledLine { text, style }
}

/// The lines that show `commit`, with `date` as the text of its time.
pub fn format_commit_dated(commit: &CommitInfo, date: &str) -> (lines: Vec<StyledLine>)
    ensures
        styled_views(lines@) == commit_lines(commit, date@),
{
    let mut author = String::from_str("Author: ");
    match &commit.author_name {
        Some(name) => author.append(name.as_str()),
        None => author.append("Unknown"),
    }
    author.append(" <");
    match &commit.author_email {
        Some(email) => author.append(email.as_str()),
        None => author.append("unknown"),
    }
    author.append(">\n");
    let mut dated = String::from_str("Date:   ");
    dated.append(date);
    dated.append("\n\n");
    let mut message = match &commit.message {
        Some(message) => message.clone(),
        None => String::from_str("No commit message"),
    };
    message.append("\n\n");
    let mut lines: Vec<StyledLine> = Vec::new();
    lines.push(plain_line(author));
    lines.push(plain_line(dated));
    lines.push(plain_line(String::new()));
    lines.push(plain_line(message));
    lines.push(plain_line(String::new()));
    let ghost head = styled_views(lines@);
    let mut i: usize = 0;
    while i < commit.diff.len()
        invariant
            i <= commit.diff.len(),
            lines.len() == 5 + i,
            styled_views(lines@) == head + styled_views(commit.diff@).take(i as int),
        decreases commit.diff.len() - i,
    {
        let ghost before = styled_views(lines@);
        let line = &commit.diff[i];
        let copy = StyledLine { text: line.text.clone(), style: line.style };
        lines.push(copy);
        proof {
            assert(styled_views(lines@) == before.push(copy@));
            assert(styled_views(commit.diff@).take(i + 1) == styled_views(commit.diff@).take(
                i as int,
            ).push(line@));
        }
        i += 1;
    }
    proof {
        assert(styled_views(commit.diff@).take(commit.diff.len() as int) == styled_views(
            commit.diff@,
        ));
    }
    lines
}

impl RebaseEditor {
    /// The lines that show `commit`: its author, its time in UTC, its message and its
    /// changes.
    pub fn format_commit(&self, commit: &CommitInfo) -> (lines: Vec<StyledLine>)
        ensures
            styled_views(lines@) == commit_lines(commit, date_text(commit.seconds)),
    {
        let date = match utc_time_text(commit.seconds) {
            Some(date) => date,
            None => utc_time_text(0).unwrap(),
        };
        format_commit_dated(commit, date.as_str())
    }

    /// What the commit panel shows: the lines of `commit`, or one line that says that there
    /// is none.
    pub fn render_commit_info(&self, commit: Option<&CommitInfo>) -> (lines: Vec<StyledLine>)
        ensures
            styled_views(lines@) == match commit {
                Some(c) => commit_lines(c, date_text(c.seconds)),
                None => seq![("No commit selected"@, Style::plain())],
            },
    {
        match commit {
            Some(c) => self.format_commit(c),
            None => {
                let mut lines: Vec<StyledLine> = Vec::new();
                lines.push(plain_line(String::from_str("No commit selected")));
                lines
            },
        }
    }

    /// The commit that the line under the cursor names: what the host is to look up.
    pub fn current_commit(&self) -> (commit: Option<&String>)
        requires
            self@.well_formed(),
        ensures
            match commit {
                Some(c) => self@.current() matches Some(line) && line.commit() == Some(c@),
                None => self@.current() matches Some(line) ==> line.commit() is None,
            },
    {
        match self.get_current_line() {
            Some(line) => line.get_commit(),
            None => None,
        }
    }
}

} // verus!
