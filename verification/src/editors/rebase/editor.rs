//! The document under the cursor: how the cursor moves, how lines change places, and what
//! each key of a session does.

use crate::editors::rebase::todo::{
    clone_words, document_text, line_views, parse_document, LineView, RebaseTodo, RebaseTodoLine,
};
use crate::style::Style;
use crate::text::{has_run, same_text};
use vstd::prelude::*;

verus! {

/// The index that lies `dist` steps from `from` on a ring of `len` indices, forwards or
/// backwards, for `0 <= from < len` and `0 <= dist <= len`.
pub open spec fn ring_step(len: int, from: int, dist: int, forward: bool) -> int {
    if forward {
        if from + dist < len {
            from + dist
        } else {
            from + dist - len
        }
    } else {
        if from >= dist {
            from - dist
        } else {
            from - dist + len
        }
    }
}

/// The number of steps in `1..=len` that lead from `from` to `to` on a ring of `len`
/// indices. A full round leads from an index to itself.
pub open spec fn ring_distance(len: int, from: int, to: int, forward: bool) -> int {
    if forward {
        if to > from {
            to - from
        } else {
            to - from + len
        }
    } else {
        if to < from {
            from - to
        } else {
            from - to + len
        }
    }
}

/// The least distance from `from`, not less than `dist` and not more than a full round, at
/// which a line lies that is no comment.
pub open spec fn nearest(lines: Seq<LineView>, from: int, forward: bool, dist: int) -> Option<int>
    decreases lines.len() + 1 - dist,
{
    if dist < 1 || dist > lines.len() {
        None
    } else if !(lines[ring_step(lines.len() as int, from, dist, forward)] is Comment) {
        Some(dist)
    } else {
        nearest(lines, from, forward, dist + 1)
    }
}

/// The number of comments at the start of `lines`.
pub open spec fn leading_comments(lines: Seq<LineView>) -> nat
    decreases lines.len(),
{
    if lines.len() > 0 && lines[0] is Comment {
        1 + leading_comments(lines.drop_first())
    } else {
        0
    }
}

/// A document and its cursor, over plain text.
pub struct EditorView {
    /// The lines, in the order of the file.
    pub lines: Seq<LineView>,
    /// The index of the line under the cursor; 0 in an empty document.
    pub selected: int,
    /// Whether the session has ended.
    pub finished: bool,
}

impl EditorView {
    /// The cursor is on a line of the document, or the document is empty.
    pub open spec fn well_formed(self) -> bool {
        if self.lines.len() == 0 {
            self.selected == 0
        } else {
            0 <= self.selected < self.lines.len()
        }
    }

    /// The document as a session finds it: the cursor on the first line that is no comment,
    /// or on the first line where all are comments.
    pub open spec fn start(lines: Seq<LineView>) -> EditorView {
        let first = leading_comments(lines) as int;
        EditorView { lines, selected: if first < lines.len() { first } else { 0 }, finished: false }
    }

    /// The index of the line under the cursor; an empty document has none.
    pub open spec fn selection(self) -> Option<int> {
        if self.lines.len() == 0 {
            None
        } else {
            Some(self.selected)
        }
    }

    /// The line under the cursor.
    pub open spec fn current(self) -> Option<LineView> {
        if self.lines.len() == 0 {
            None
        } else {
            Some(self.lines[self.selected])
        }
    }

    /// Whether some line is no comment.
    pub open spec fn has_actionable(self) -> bool {
        exists|i: int| 0 <= i < self.lines.len() && !(#[trigger] self.lines[i] is Comment)
    }

    /// The nearest line in the given direction that is no comment. The search goes round
    /// the ends of the document and ends on the line under the cursor itself.
    pub open spec fn target(self, forward: bool) -> Option<int> {
        match nearest(self.lines, self.selected, forward, 1) {
            Some(dist) => Some(ring_step(self.lines.len() as int, self.selected, dist, forward)),
            None => None,
        }
    }

    /// The document after the cursor has moved in the given direction.
    pub open spec fn moved(self, forward: bool) -> EditorView {
        match self.target(forward) {
            Some(target) => EditorView { selected: target, ..self },
            None => self,
        }
    }

    /// The document after the line under the cursor has changed places with the nearest
    /// line in the given direction that is no comment. The cursor goes with its line.
    pub open spec fn swapped(self, forward: bool) -> EditorView {
        match self.target(forward) {
            Some(target) => EditorView {
                lines: self.lines.update(self.selected, self.lines[target]).update(
                    target,
                    self.lines[self.selected],
                ),
                selected: target,
                ..self
            },
            None => self,
        }
    }

    /// The document with `line` in the place of the line under the cursor.
    pub open spec fn replaced(self, line: LineView) -> EditorView {
        if self.lines.len() == 0 {
            self
        } else {
            EditorView { lines: self.lines.update(self.selected, line), ..self }
        }
    }

    /// The line that an action key makes of the line under the cursor: the command of the
    /// key with the commit and the trailing words of that line. `None` where the key is no
    /// action key or the line names no commit.
    ///
    /// Each action key is the alias of its command in the file, and so `r` is reset: the
    /// line model has no command of its own for rewording a commit. The reset takes the
    /// commit as its label. It names no commit, so no action key changes it again.
    pub open spec fn retargeted(self, key: char) -> Option<LineView> {
        match self.current() {
            Some(line) => match (line.commit(), line.rest()) {
                (Some(commit), Some(rest)) => if key == 'p' {
                    Some(LineView::Pick { commit, rest })
                } else if key == 'e' {
                    Some(LineView::Edit { commit, rest })
                } else if key == 'r' {
                    Some(LineView::Reset { label: commit, rest })
                } else if key == 's' {
                    Some(LineView::Squash { commit, rest })
                } else if key == 'f' {
                    Some(LineView::Fixup { commit, rest })
                } else if key == 'd' {
                    Some(LineView::Drop { commit, rest })
                } else {
                    None
                },
                _ => None,
            },
            None => None,
        }
    }

    /// The document after a key. A session that has ended takes no key. The arrows move the
    /// cursor, with shift they move the line; an action key changes the command of the line
    /// under the cursor; `q` and `a` end the session; no other key does anything.
    pub open spec fn after_key(self, key: Key) -> EditorView {
        if self.finished {
            self
        } else {
            match key {
                Key::Up => self.moved(false),
                Key::Down => self.moved(true),
                Key::ShiftUp => self.swapped(false),
                Key::ShiftDown => self.swapped(true),
                Key::Char(c) => if c == 'q' || c == 'a' {
                    EditorView { finished: true, ..self }
                } else {
                    match self.retargeted(c) {
                        Some(line) => self.replaced(line),
                        None => self,
                    }
                },
                Key::Other => self,
            }
        }
    }

    /// The text of the document as it is written back.
    pub open spec fn text(self) -> Seq<char> {
        document_text(self.lines)
    }
}

/// The line of help of a session: every key that `EditorView::after_key` takes, with what
/// it does.
pub open spec fn instructions() -> Seq<char> {
    "↑/↓ Move  p pick  e edit  r reset  s squash  f fixup  d drop  q quit and save  a abort"@
}

/// What a session reads from the keyboard.
#[derive(Debug, Clone, Copy, PartialEq, Eq)]
pub enum Key {
    /// The arrow up.
    Up,
    /// The arrow down.
    Down,
    /// The arrow up with shift held, and no other modifier.
    ShiftUp,
    /// The arrow down with shift held, and no other modifier.
    ShiftDown,
    /// A character key.
    Char(char),
    /// Any other event.
    Other,
}

/// What the host of a session is to do after a key.
#[derive(Debug, PartialEq, Eq)]
pub enum Action {
    /// Nothing is to be written: show the document and read the next key.
    Continue,
    /// The session ends: this text replaces the content of the file.
    Write(String),
    /// The session had ended before the key.
    Done,
}

/// One row of the list of lines as it is shown.
#[derive(Debug, PartialEq, Eq)]
pub struct TodoRow {
    /// The canonical text of the line.
    pub text: String,
    /// The style of the line.
    pub style: Style,
    /// Whether the cursor is on the line.
    pub selected: bool,
}

/// `nearest` finds a line that is no comment and passes only comments on its way; where it
/// finds none, all lines from `dist` to a full round are comments.
pub proof fn lemma_nearest(lines: Seq<LineView>, from: int, forward: bool, dist: int)
    requires
        1 <= dist,
    ensures
        match nearest(lines, from, forward, dist) {
            Some(d) => {
                &&& dist <= d <= lines.len()
                &&& !(lines[ring_step(lines.len() as int, from, d, forward)] is Comment)
                &&& forall|k: int|
                    dist <= k < d ==> lines[#[trigger] ring_step(
                        lines.len() as int,
                        from,
                        k,
                        forward,
                    )] is Comment
            },
            None => forall|k: int|
                dist <= k <= lines.len() ==> lines[#[trigger] ring_step(
                    lines.len() as int,
                    from,
                    k,
                    forward,
                )] is Comment,
        },
    decreases lines.len() + 1 - dist,
{
    if dist <= lines.len() && lines[ring_step(lines.len() as int, from, dist, forward)] is Comment {
        lemma_nearest(lines, from, forward, dist + 1);
    }
}

/// The first line after only comments that is no comment is the one that `nearest` finds.
pub proof fn lemma_nearest_is(lines: Seq<LineView>, from: int, forward: bool, dist: int, d: int)
    requires
        1 <= dist <= d <= lines.len(),
        !(lines[ring_step(lines.len() as int, from, d, forward)] is Comment),
        forall|k: int|
            dist <= k < d ==> lines[#[trigger] ring_step(lines.len() as int, from, k, forward)]
                is Comment,
    ensures
        nearest(lines, from, forward, dist) == Some(d),
    decreases d - dist,
{
    if dist < d {
        assert(lines[ring_step(lines.len() as int, from, dist, forward)] is Comment);
        lemma_nearest_is(lines, from, forward, dist + 1, d);
    }
}

/// Where all lines up to a full round are comments, `nearest` finds none.
pub proof fn lemma_nearest_none(lines: Seq<LineView>, from: int, forward: bool, dist: int)
    requires
        1 <= dist,
        forall|k: int|
            dist <= k <= lines.len() ==> lines[#[trigger] ring_step(
                lines.len() as int,
                from,
                k,
                forward,
            )] is Comment,
    ensures
        nearest(lines, from, forward, dist) is None,
    decreases lines.len() + 1 - dist,
{
    if dist <= lines.len() {
        assert(lines[ring_step(lines.len() as int, from, dist, forward)] is Comment);
        lemma_nearest_none(lines, from, forward, dist + 1);
    }
}

/// The search for a target finds a line that is no comment exactly where the document has
/// one; what it finds is a line of the document.
pub proof fn lemma_target(editor: EditorView, forward: bool)
    requires
        editor.well_formed(),
    ensures
        editor.target(forward) is Some <==> editor.has_actionable(),
        editor.target(forward) matches Some(t) ==> 0 <= t < editor.lines.len() && !(
        editor.lines[t] is Comment),
{
    let len = editor.lines.len() as int;
    let from = editor.selected;
    lemma_nearest(editor.lines, from, forward, 1);
    match nearest(editor.lines, from, forward, 1) {
        Some(d) => {
            let t = ring_step(len, from, d, forward);
            assert(0 <= t < len && !(editor.lines[t] is Comment));
        },
        None => {
            assert forall|i: int| 0 <= i < len implies editor.lines[i] is Comment by {
                let k = ring_distance(len, from, i, forward);
                assert(ring_step(len, from, k, forward) == i);
            }
        },
    }
}

/// Moving a line one way and then the other way restores the document: the order of the
/// lines and the place of the cursor.
pub proof fn lemma_swap_inverse(editor: EditorView, forward: bool)
    requires
        editor.well_formed(),
    ensures
        editor.swapped(forward).swapped(!forward) == editor,
        editor.swapped(forward).well_formed(),
{
    let len = editor.lines.len() as int;
    let from = editor.selected;
    let lines = editor.lines;
    lemma_nearest(lines, from, forward, 1);
    lemma_target(editor, forward);
    match nearest(lines, from, forward, 1) {
        Some(d) => {
            let t = ring_step(len, from, d, forward);
            let there = editor.swapped(forward);
            assert(there.selected == t);
            let back = !forward;
            assert(ring_step(len, t, d, back) == from);
            assert forall|k: int| 1 <= k < d implies there.lines[#[trigger] ring_step(
                len,
                t,
                k,
                back,
            )] is Comment by {
                let i = ring_step(len, t, k, back);
                assert(i == ring_step(len, from, d - k, forward));
                assert(i != from && i != t);
            }
            lemma_nearest_is(there.lines, t, back, 1, d);
            assert(there.swapped(back).lines =~= lines);
        },
        None => {
            lemma_target(editor, !forward);
        },
    }
}

/// Where no line but the one under the cursor is a command, neither moving the cursor nor
/// moving the line changes anything.
pub proof fn lemma_lone_line_stays(editor: EditorView, forward: bool)
    requires
        editor.well_formed(),
        forall|i: int|
            0 <= i < editor.lines.len() && i != editor.selected ==> #[trigger] editor.lines[i]
                is Comment,
    ensures
        editor.moved(forward) == editor,
        editor.swapped(forward) == editor,
{
    lemma_target(editor, forward);
    match editor.target(forward) {
        Some(t) => {
            assert(t == editor.selected);
            assert(editor.swapped(forward).lines =~= editor.lines);
        },
        None => {},
    }
}

/// Every key leaves the cursor on a line of the document and the number of lines as it
/// was, and a session that has ended stays as it is.
pub proof fn lemma_key_keeps_document(editor: EditorView, key: Key)
    requires
        editor.well_formed(),
    ensures
        editor.after_key(key).well_formed(),
        editor.after_key(key).lines.len() == editor.lines.len(),
        editor.finished ==> editor.after_key(key) == editor,
{
    lemma_target(editor, true);
    lemma_target(editor, false);
}

/// `leading_comments` counts the comments before the first line that is none.
pub proof fn lemma_leading_comments_is(lines: Seq<LineView>, n: int)
    requires
        0 <= n <= lines.len(),
        forall|i: int| 0 <= i < n ==> #[trigger] lines[i] is Comment,
        n < lines.len() ==> !(lines[n] is Comment),
    ensures
        leading_comments(lines) == n,
    decreases n,
{
    if n > 0 {
        let t = lines.drop_first();
        assert forall|i: int| 0 <= i < n - 1 implies #[trigger] t[i] is Comment by {
            assert(t[i] == lines[i + 1]);
        }
        lemma_leading_comments_is(t, n - 1);
    }
}

/// A rebase plan under edit: its lines, the cursor, and whether the session has ended.
#[derive(Debug)]
pub struct RebaseEditor {
    todo: RebaseTodo,
    selected: usize,
    finished: bool,
}

impl View for RebaseEditor {
    type V = EditorView;

    closed spec fn view(&self) -> EditorView {
        EditorView {
            lines: self.todo@,
            selected: self.selected as int,
            finished: self.finished,
        }
    }
}

impl RebaseEditor {
    /// Opens the text of a todo file for editing. The cursor starts on the first line that
    /// is no comment.
    pub fn new(content: &str) -> (editor: Self)
        ensures
            editor@ == EditorView::start(parse_document(content@)),
            editor@.well_formed(),
    {
        Self::from_todo(RebaseTodo::parse(content))
    }

    /// Opens a plan for editing. The cursor starts on the first line that is no comment.
    pub fn from_todo(todo: RebaseTodo) -> (editor: Self)
        ensures
            editor@ == EditorView::start(todo@),
            editor@.well_formed(),
    {
        let lines = todo.lines();
        let mut first: usize = 0;
        while first < lines.len() && lines[first].is_comment()
            invariant
                first <= lines.len(),
                line_views(lines@) == todo@,
                forall|i: int| 0 <= i < first ==> #[trigger] todo@[i] is Comment,
            decreases lines.len() - first,
        {
            first += 1;
        }
        proof {
            lemma_leading_comments_is(todo@, first as int);
        }
        let selected = if first < lines.len() {
            first
        } else {
            0
        };
        RebaseEditor { todo, selected, finished: false }
    }

    /// The lines of the document.
    pub fn todo(&self) -> (todo: &RebaseTodo)
        ensures
            todo@ == self@.lines,
    {
        &self.todo
    }

    /// The index of the line under the cursor; `None` in an empty document.
    pub fn selected(&self) -> (index: Option<usize>)
        ensures
            match index {
                Some(i) => self@.selection() == Some(i as int),
                None => self@.selection() is None,
            },
    {
        if self.todo.len() == 0 {
            None
        } else {
            Some(self.selected)
        }
    }

    /// Whether the session has ended.
    pub fn is_finished(&self) -> (finished: bool)
        ensures
            finished == self@.finished,
    {
        self.finished
    }

    /// The nearest line in the given direction that is no comment.
    fn seek(&self, forward: bool) -> (found: Option<usize>)
        requires
            self@.well_formed(),
        ensures
            match found {
                Some(t) => self@.target(forward) == Some(t as int) && t < self@.lines.len(),
                None => self@.target(forward) is None,
            },
    {
        let lines = self.todo.lines();
        let len = lines.len();
        let mut index = self.selected;
        let mut dist: usize = 0;
        while dist < len
            invariant
                dist <= len == lines.len(),
                line_views(lines@) == self@.lines,
                index < len || len == 0,
                index == ring_step(len as int, self@.selected, dist as int, forward),
                self@.well_formed(),
                forall|k: int|
                    1 <= k <= dist ==> self@.lines[#[trigger] ring_step(
                        len as int,
                        self@.selected,
                        k,
                        forward,
                    )] is Comment,
            decreases len - dist,
        {
            dist += 1;
            index = if forward {
                if index + 1 == len {
                    0
                } else {
                    index + 1
                }
            } else {
                if index == 0 {
                    len - 1
                } else {
                    index - 1
                }
            };
            if !lines[index].is_comment() {
                proof {
                    lemma_nearest_is(self@.lines, self@.selected, forward, 1, dist as int);
                }
                return Some(index);
            }
        }
        proof {
            lemma_nearest_none(self@.lines, self@.selected, forward, 1);
        }
        None
    }

    /// Moves the cursor to the nearest line in the given direction that is no comment.
    fn move_cursor(&mut self, forward: bool)
        requires
            old(self)@.well_formed(),
        ensures
            final(self)@ == old(self)@.moved(forward),
            final(self)@.well_formed(),
            old(self)@.has_actionable() ==> !(final(self)@.lines[final(self)@.selected]
                is Comment),
            !old(self)@.has_actionable() ==> final(self)@ == old(self)@,
            final(self)@.lines == old(self)@.lines,
    {
        proof {
            lemma_target(self@, forward);
        }
        match self.seek(forward) {
            Some(target) => {
                self.selected = target;
            },
            None => {},
        }
    }

    /// Exchanges the line under the cursor with the nearest line in the given direction
    /// that is no comment, and takes the cursor along.
    fn swap(&mut self, forward: bool)
        requires
            old(self)@.well_formed(),
        ensures
            final(self)@ == old(self)@.swapped(forward),
            final(self)@.well_formed(),
            old(self)@.has_actionable() ==> !(final(self)@.lines[old(self)@.selected]
                is Comment),
            !old(self)@.has_actionable() ==> final(self)@ == old(self)@,
            final(self)@.current() == old(self)@.current(),
            old(self)@.current() matches Some(line) && !(line is Comment) ==> !(
            final(self)@.lines[final(self)@.selected] is Comment),
    {
        proof {
            lemma_target(self@, forward);
        }
        match self.seek(forward) {
            Some(target) => {
                self.todo.swap(self.selected, target);
                self.selected = target;
            },
            None => {},
        }
    }

    /// Moves the cursor down to the next line that is no comment, from the last line on to
    /// the first. Where all lines are comments the cursor stays.
    pub fn move_cursor_down(&mut self)
        requires
            old(self)@.well_formed(),
        ensures
            final(self)@ == old(self)@.moved(true),
            final(self)@.well_formed(),
            old(self)@.has_actionable() ==> !(final(self)@.lines[final(self)@.selected]
                is Comment),
            !old(self)@.has_actionable() ==> final(self)@ == old(self)@,
            final(self)@.lines == old(self)@.lines,
    {
        self.move_cursor(true)
    }

    /// Moves the cursor up to the previous line that is no comment, from the first line on
    /// to the last. Where all lines are comments the cursor stays.
    pub fn move_cursor_up(&mut self)
        requires
            old(self)@.well_formed(),
        ensures
            final(self)@ == old(self)@.moved(false),
            final(self)@.well_formed(),
            old(self)@.has_actionable() ==> !(final(self)@.lines[final(self)@.selected]
                is Comment),
            !old(self)@.has_actionable() ==> final(self)@ == old(self)@,
            final(self)@.lines == old(self)@.lines,
    {
        self.move_cursor(false)
    }

    /// Moves the line under the cursor down: it changes places with the next line that is no
    /// comment, and the cursor goes with it. The line that comes into its place is never a
    /// comment. Where all lines are comments nothing changes.
    pub fn swap_down(&mut self)
        requires
            old(self)@.well_formed(),
        ensures
            final(self)@ == old(self)@.swapped(true),
            final(self)@.well_formed(),
            old(self)@.has_actionable() ==> !(final(self)@.lines[old(self)@.selected]
                is Comment),
            !old(self)@.has_actionable() ==> final(self)@ == old(self)@,
            final(self)@.current() == old(self)@.current(),
            old(self)@.current() matches Some(line) && !(line is Comment) ==> !(
            final(self)@.lines[final(self)@.selected] is Comment),
    {
        self.swap(true)
    }

    /// Moves the line under the cursor up: it changes places with the previous line that is
    /// no comment, and the cursor goes with it. The line that comes into its place is never
    /// a comment. Where all lines are comments nothing changes.
    pub fn swap_up(&mut self)
        requires
            old(self)@.well_formed(),
        ensures
            final(self)@ == old(self)@.swapped(false),
            final(self)@.well_formed(),
            old(self)@.has_actionable() ==> !(final(self)@.lines[old(self)@.selected]
                is Comment),
            !old(self)@.has_actionable() ==> final(self)@ == old(self)@,
            final(self)@.current() == old(self)@.current(),
            old(self)@.current() matches Some(line) && !(line is Comment) ==> !(
            final(self)@.lines[final(self)@.selected] is Comment),
    {
        self.swap(false)
    }

    /// Puts `line` in the place of the line under the cursor, whatever the two are. An empty
    /// document has no such place and stays empty.
    pub fn set_current_line(&mut self, line: RebaseTodoLine)
        requires
            old(self)@.well_formed(),
        ensures
            final(self)@ == old(self)@.replaced(line@),
            final(self)@.well_formed(),
    {
        if self.todo.len() > 0 {
            self.todo.set(self.selected, line);
        }
    }

    /// The line under the cursor; `None` only in an empty document.
    pub fn get_current_line(&self) -> (line: Option<&RebaseTodoLine>)
        requires
            self@.well_formed(),
        ensures
            match line {
                Some(l) => self@.current() == Some(l@),
                None => self@.current() is None,
            },
            line is None <==> self@.lines.len() == 0,
    {
        self.todo.get(self.selected)
    }

    /// The text that a save writes: the canonical text of each line, joined by line feeds.
    pub fn save(&self) -> (content: String)
        ensures
            content@ == self@.text(),
    {
        self.todo.to_string()
    }

    /// The text that an abort writes: none, whatever the document holds.
    pub fn save_empty(&self) -> (content: String)
        ensures
            content@.len() == 0,
    {
        String::new()
    }

    /// The rows of the list of lines: for each line its text, its style, and whether the
    /// cursor is on it.
    pub fn render_todo_list(&self) -> (rows: Vec<TodoRow>)
        ensures
            rows.len() == self@.lines.len(),
            forall|i: int|
                0 <= i < rows.len() ==> {
                    &&& (#[trigger] rows[i]).text@ == self@.lines[i].text()
                    &&& rows[i].style == self@.lines[i].style()
                    &&& rows[i].selected == (i == self@.selected)
                },
    {
        let lines = self.todo.lines();
        let mut rows: Vec<TodoRow> = Vec::new();
        let mut i: usize = 0;
        while i < lines.len()
            invariant
                i <= lines.len(),
                line_views(lines@) == self@.lines,
                rows.len() == i,
                forall|k: int|
                    0 <= k < i ==> {
                        &&& (#[trigger] rows[k]).text@ == self@.lines[k].text()
                        &&& rows[k].style == self@.lines[k].style()
                        &&& rows[k].selected == (k == self@.selected)
                    },
            decreases lines.len() - i,
        {
            let line = &lines[i];
            rows.push(
                TodoRow {
                    text: line.to_string(),
                    style: line.get_style(),
                    selected: i == self.selected,
                },
            );
            i += 1;
        }
        rows
    }

    /// The line of help that names the keys of a session and what they do.
    pub fn render_instructions(&self) -> (text: &'static str)
        ensures
            text@ == instructions(),
    {
        "↑/↓ Move  p pick  e edit  r reset  s squash  f fixup  d drop  q quit and save  a abort"
    }

    /// The line that an action key makes of the line under the cursor.
    fn retarget(&self, key: char) -> (line: Option<RebaseTodoLine>)
        requires
            self@.well_formed(),
        ensures
            match line {
                Some(l) => self@.retargeted(key) == Some(l@),
                None => self@.retargeted(key) is None,
            },
    {
        let current = match self.get_current_line() {
            Some(current) => current,
            None => {
                return None;
            },
        };
        let commit = match current.get_commit() {
            Some(commit) => commit,
            None => {
                return None;
            },
        };
        let rest = match current.get_rest() {
            Some(rest) => rest,
            None => {
                return None;
            },
        };
        if key == 'p' {
            Some(RebaseTodoLine::Pick { commit: commit.clone(), rest: clone_words(rest) })
        } else if key == 'e' {
            Some(RebaseTodoLine::Edit { commit: commit.clone(), rest: clone_words(rest) })
        } else if key == 'r' {
            Some(RebaseTodoLine::Reset { label: commit.clone(), rest: clone_words(rest) })
        } else if key == 's' {
            Some(RebaseTodoLine::Squash { commit: commit.clone(), rest: clone_words(rest) })
        } else if key == 'f' {
            Some(RebaseTodoLine::Fixup { commit: commit.clone(), rest: clone_words(rest) })
        } else if key == 'd' {
            Some(RebaseTodoLine::Drop { commit: commit.clone(), rest: clone_words(rest) })
        } else {
            None
        }
    }

    /// Takes one key of the session and says what the host is to do.
    ///
    /// `q` ends the session with the text of the document to write, `a` ends it with empty
    /// text to write. Both are `Action::Write`. After that every key is answered with
    /// `Action::Done` and changes nothing. Every other key is answered with
    /// `Action::Continue`.
    pub fn handle_key(&mut self, key: Key) -> (action: Action)
        requires
            old(self)@.well_formed(),
        ensures
            final(self)@ == old(self)@.after_key(key),
            final(self)@.well_formed(),
            match action {
                Action::Write(content) => {
                    &&& !old(self)@.finished
                    &&& key == Key::Char('q') && content@ == old(self)@.text() || key == Key::Char(
                        'a',
                    ) && content@.len() == 0
                },
                Action::Done => old(self)@.finished,
                Action::Continue => !old(self)@.finished && key != Key::Char('q') && key
                    != Key::Char('a'),
            },
    {
        if self.finished {
            return Action::Done;
        }
        match key {
            Key::Up => {
                self.move_cursor_up();
                Action::Continue
            },
            Key::Down => {
                self.move_cursor_down();
                Action::Continue
            },
            Key::ShiftUp => {
                self.swap_up();
                Action::Continue
            },
            Key::ShiftDown => {
                self.swap_down();
                Action::Continue
            },
            Key::Char(c) => {
                if c == 'q' {
                    let content = self.save();
                    self.finished = true;
                    Action::Write(content)
                } else if c == 'a' {
                    let content = self.save_empty();
                    self.finished = true;
                    Action::Write(content)
                } else {
                    match self.retarget(c) {
                        Some(line) => {
                            self.set_current_line(line);
                        },
                        None => {},
                    }
                    Action::Continue
                }
            },
            Key::Other => Action::Continue,
        }
    }

    /// Whether `stem`, the name of a file without its extension, is that of a rebase plan.
    pub fn is_todo_stem(stem: Option<&str>) -> (is_todo: bool)
        ensures
            is_todo == (stem matches Some(s) && s@ == "git-rebase-todo"@),
    {
        match stem {
            Some(s) => same_text(s, "git-rebase-todo"),
            None => false,
        }
    }

    /// Whether the file at `path` is a rebase plan, by its name: whether the file name that
    /// the path ends in, without its extension, is `git-rebase-todo`.
    ///
    /// Where a path is cut into its components depends on the platform. On every platform
    /// the name is a part of the path, so a path that does not hold the text
    /// `git-rebase-todo` is no rebase plan. And on every platform a bare file name is its own
    /// last component, so for such a path the answer is that of its stem.
    pub fn should_run(path: &str) -> (run: bool)
        ensures
            run ==> has_run(path@, "git-rebase-todo"@),
            is_bare_name(path@) ==> run == (name_stem(path@) == "git-rebase-todo"@),
            is_bare_name(path@) && !path@.contains('.') ==> run == (path@ == "git-rebase-todo"@),
            path@ == "git-rebase-todo"@ ==> run,
    {
        proof {
            lemma_todo_name_is_bare();
            if !path@.contains('.') {
                lemma_stem_without_dot(path@);
            }
        }
        match file_stem(path) {
            Some(stem) => Self::is_todo_stem(Some(stem.as_str())),
            None => Self::is_todo_stem(None),
        }
    }
}

/// Whether `c` cuts a path into components or ends its prefix on some platform: `/`, `\`
/// or `:`.
pub open spec fn is_path_mark(c: char) -> bool {
    c == '/' || c == '\\' || c == ':'
}

/// Whether `path` is a bare file name: not empty, neither `.` nor `..`, and without a
/// character that cuts a path into components on any platform.
pub open spec fn is_bare_name(path: Seq<char>) -> bool {
    &&& path.len() > 0
    &&& path != seq!['.']
    &&& path != seq!['.', '.']
    &&& forall|i: int| 0 <= i < path.len() ==> !is_path_mark(#[trigger] path[i])
}

/// The index of the last `.` in `name`; -1 where it has none.
pub open spec fn last_dot(name: Seq<char>) -> int
    decreases name.len(),
{
    if name.len() == 0 {
        -1
    } else if name.last() == '.' {
        name.len() - 1
    } else {
        last_dot(name.drop_last())
    }
}

/// The stem of a file name: the whole name where it has no `.` or only one at its start,
/// and what stands before its last `.` otherwise.
pub open spec fn name_stem(name: Seq<char>) -> Seq<char> {
    let dot = last_dot(name);
    if dot <= 0 {
        name
    } else {
        name.take(dot)
    }
}

/// The name of a rebase plan is a bare file name without a `.`.
pub proof fn lemma_todo_name_is_bare()
    ensures
        is_bare_name("git-rebase-todo"@),
        !"git-rebase-todo"@.contains('.'),
{
    reveal_strlit("git-rebase-todo");
    let name = "git-rebase-todo"@;
    assert(name.len() == 15);
    assert forall|i: int| 0 <= i < name.len() implies !is_path_mark(#[trigger] name[i])
        && name[i] != '.' by {
        if i < 4 {
        } else if i < 8 {
        } else if i < 12 {
        } else {
        }
    }
}

/// A name without a `.` is its own stem.
pub proof fn lemma_stem_without_dot(name: Seq<char>)
    requires
        !name.contains('.'),
    ensures
        last_dot(name) == -1,
        name_stem(name) == name,
    decreases name.len(),
{
    if name.len() > 0 {
        let front = name.drop_last();
        assert(name.last() == name[name.len() - 1]);
        assert(name.contains(name[name.len() - 1]));
        assert(!front.contains('.')) by {
            if front.contains('.') {
                let i = choose|i: int| 0 <= i < front.len() && front[i] == '.';
                assert(name[i] == '.');
                assert(name.contains('.'));
            }
        }
        lemma_stem_without_dot(front);
    }
}

/// `Path::file_stem`: the name of the file that `path` ends in, without its extension.
/// `None` where the path ends in no file name or the name is no valid Unicode.
///
/// The stem is a portion of the file name, and the file name is the last component of the
/// path: so the stem stands in the path as it is. What counts as a separator of components
/// depends on the platform, but on each a path without `/`, `\` and `:` that is not `.` or
/// `..` is one component, the file name. Of that name the stem is the whole where it has no
/// `.` or only one at its start, and what stands before its last `.` otherwise. No more is
/// claimed of the result.
#[verifier::external_body]
fn file_stem(path: &str) -> (stem: Option<String>)
    ensures
        match stem {
            Some(s) => has_run(path@, s@) && (is_bare_name(path@) ==> s@ == name_stem(path@)),
            None => !is_bare_name(path@),
        },
{
    match std::path::Path::new(path).file_stem() {
        Some(stem) => stem.to_str().map(String::from),
        None => None,
    }
}

} // verus!
