//! Characters, words and lines: the lexical layer under the todo grammar.
//!
//! Text is modelled as `Seq<char>`. The spec functions say what trimming, splitting into
//! words and splitting into lines mean; the executable functions compute them over a slice
//! of characters and are proved against those definitions.

use vstd::prelude::*;
use vstd::std_specs::iter::IteratorSpec;
use vstd::string::StringExecFns;

verus! {

/// `String::push` appends one character.
pub assume_specification[ String::push ](s: &mut String, ch: char)
    ensures
        final(s)@ == old(s)@.push(ch),
;

/// Whether `c` is a white-space character: one that Unicode marks `White_Space`.
pub open spec fn is_space(c: char) -> bool {
    let u = c as u32;
    ||| 0x09 <= u <= 0x0D
    ||| u == 0x20
    ||| u == 0x85
    ||| u == 0xA0
    ||| u == 0x1680
    ||| 0x2000 <= u <= 0x200A
    ||| u == 0x2028
    ||| u == 0x2029
    ||| u == 0x202F
    ||| u == 0x205F
    ||| u == 0x3000
}

/// A word is a non-empty run of characters, none of them white space.
pub open spec fn is_word(w: Seq<char>) -> bool {
    &&& w.len() > 0
    &&& forall|i: int| 0 <= i < w.len() ==> !is_space(#[trigger] w[i])
}

/// Whether every element of `ws` is a word.
pub open spec fn all_words(ws: Seq<Seq<char>>) -> bool {
    forall|i: int| 0 <= i < ws.len() ==> is_word(#[trigger] ws[i])
}

/// Length of the longest prefix of `s` in which every character `c` has
/// `is_space(c) == space`.
pub open spec fn run_len(s: Seq<char>, space: bool) -> nat
    decreases s.len(),
{
    if s.len() > 0 && is_space(s[0]) == space {
        1 + run_len(s.drop_first(), space)
    } else {
        0
    }
}

/// Number of white-space characters at the end of `s`.
pub open spec fn trailing_spaces(s: Seq<char>) -> nat
    decreases s.len(),
{
    if s.len() > 0 && is_space(s.last()) {
        1 + trailing_spaces(s.drop_last())
    } else {
        0
    }
}

/// `s` without its leading and trailing white space.
pub open spec fn trim(s: Seq<char>) -> Seq<char> {
    let t = s.skip(run_len(s, true) as int);
    t.take(t.len() - trailing_spaces(t))
}

/// The words of `s`: its maximal runs of characters that are not white space, in order.
pub open spec fn tokens(s: Seq<char>) -> Seq<Seq<char>>
    decreases s.len(),
{
    if s.len() == 0 {
        Seq::empty()
    } else if is_space(s[0]) {
        tokens(s.drop_first())
    } else {
        let n = run_len(s, false) as int;
        proof {
            lemma_run_len(s, false);
        }
        seq![s.take(n)] + tokens(s.skip(n))
    }
}

/// The elements of `parts` with `sep` between each two neighbours.
pub open spec fn join(parts: Seq<Seq<char>>, sep: char) -> Seq<char>
    decreases parts.len(),
{
    if parts.len() == 0 {
        Seq::empty()
    } else if parts.len() == 1 {
        parts[0]
    } else {
        join(parts.drop_last(), sep).push(sep) + parts.last()
    }
}

/// Whether the characters of `part` stand in `text`, one after the other and with nothing in
/// between.
pub open spec fn has_run(text: Seq<char>, part: Seq<char>) -> bool {
    exists|at: int|
        0 <= at && at + part.len() <= text.len() && #[trigger] text.subrange(
            at,
            at + part.len(),
        ) == part
}

/// Number of characters of `s` before its first line feed; `s.len()` if it has none.
pub open spec fn line_len(s: Seq<char>) -> nat
    decreases s.len(),
{
    if s.len() > 0 && s[0] != '\n' {
        1 + line_len(s.drop_first())
    } else {
        0
    }
}

/// The lines of `s`. Each line feed ends a line; text after the last line feed is a line of
/// its own unless it is empty. The line feeds themselves belong to no line.
pub open spec fn split_lines(s: Seq<char>) -> Seq<Seq<char>>
    decreases s.len(),
{
    if s.len() == 0 {
        Seq::empty()
    } else {
        let n = line_len(s) as int;
        if n < s.len() {
            seq![s.take(n)] + split_lines(s.skip(n + 1))
        } else {
            seq![s]
        }
    }
}

/// `run_len` counts exactly the characters of the run and stops at its end.
pub proof fn lemma_run_len(s: Seq<char>, space: bool)
    ensures
        run_len(s, space) <= s.len(),
        forall|i: int| 0 <= i < run_len(s, space) ==> is_space(#[trigger] s[i]) == space,
        run_len(s, space) < s.len() ==> is_space(s[run_len(s, space) as int]) != space,
    decreases s.len(),
{
    if s.len() > 0 && is_space(s[0]) == space {
        let t = s.drop_first();
        lemma_run_len(t, space);
        assert forall|i: int| 0 <= i < run_len(s, space) implies is_space(#[trigger] s[i])
            == space by {
            if i > 0 {
                assert(s[i] == t[i - 1]);
            }
        }
        if run_len(s, space) < s.len() {
            assert(s[run_len(s, space) as int] == t[run_len(t, space) as int]);
        }
    }
}

/// A prefix of `n` characters of one kind that ends `s` or is followed by a character of the
/// other kind is the run that `run_len` measures.
pub proof fn lemma_run_len_is(s: Seq<char>, space: bool, n: int)
    requires
        0 <= n <= s.len(),
        forall|i: int| 0 <= i < n ==> is_space(#[trigger] s[i]) == space,
        n < s.len() ==> is_space(s[n]) != space,
    ensures
        run_len(s, space) == n,
    decreases n,
{
    if n > 0 {
        let t = s.drop_first();
        assert forall|i: int| 0 <= i < n - 1 implies is_space(#[trigger] t[i]) == space by {
            assert(t[i] == s[i + 1]);
        }
        lemma_run_len_is(t, space, n - 1);
    }
}

/// `trailing_spaces` counts exactly the white space at the end.
pub proof fn lemma_trailing_spaces(s: Seq<char>)
    ensures
        trailing_spaces(s) <= s.len(),
        forall|i: int| s.len() - trailing_spaces(s) <= i < s.len() ==> is_space(#[trigger] s[i]),
        trailing_spaces(s) < s.len() ==> !is_space(s[s.len() - trailing_spaces(s) - 1]),
    decreases s.len(),
{
    if s.len() > 0 && is_space(s.last()) {
        let t = s.drop_last();
        lemma_trailing_spaces(t);
        assert forall|i: int| s.len() - trailing_spaces(s) <= i < s.len() implies is_space(
            #[trigger] s[i],
        ) by {
            if i < t.len() {
                assert(s[i] == t[i]);
            }
        }
        if trailing_spaces(s) < s.len() {
            assert(s[s.len() - trailing_spaces(s) - 1] == t[t.len() - trailing_spaces(t) - 1]);
        }
    }
}

/// A suffix of `n` white-space characters that starts `s` or follows a character that is
/// not white space is what `trailing_spaces` measures.
pub proof fn lemma_trailing_spaces_is(s: Seq<char>, n: int)
    requires
        0 <= n <= s.len(),
        forall|i: int| s.len() - n <= i < s.len() ==> is_space(#[trigger] s[i]),
        n < s.len() ==> !is_space(s[s.len() - n - 1]),
    ensures
        trailing_spaces(s) == n,
    decreases n,
{
    if n > 0 {
        lemma_trailing_spaces_is(s.drop_last(), n - 1);
    }
}

/// Trimming leaves text alone that neither starts nor ends with white space.
pub proof fn lemma_trim_fixed(s: Seq<char>)
    requires
        s.len() > 0 ==> !is_space(s[0]) && !is_space(s.last()),
    ensures
        trim(s) == s,
{
    lemma_run_len_is(s, true, 0);
    lemma_trailing_spaces_is(s, 0);
}

/// Trimmed text is empty, or starts and ends with a character that is not white space.
pub proof fn lemma_trim_ends(s: Seq<char>)
    ensures
        trim(s).len() > 0 ==> !is_space(trim(s)[0]) && !is_space(trim(s).last()),
        trim(trim(s)) == trim(s),
{
    lemma_run_len(s, true);
    let t = s.skip(run_len(s, true) as int);
    lemma_trailing_spaces(t);
    if trim(s).len() > 0 {
        assert(trim(s)[0] == t[0]);
        assert(trim(s).last() == t[t.len() - trailing_spaces(t) - 1]);
    }
    lemma_trim_fixed(trim(s));
}

/// A word is its own single token.
pub proof fn lemma_tokens_of_word(w: Seq<char>)
    requires
        is_word(w),
    ensures
        tokens(w) == seq![w],
{
    lemma_run_len_is(w, false, w.len() as int);
    assert(w.take(w.len() as int) == w);
    assert(tokens(w.skip(w.len() as int)) =~= Seq::empty());
    assert(tokens(w) =~= seq![w]);
}

/// A white-space character between two texts separates their tokens.
pub proof fn lemma_tokens_concat(a: Seq<char>, sep: char, b: Seq<char>)
    requires
        is_space(sep),
    ensures
        tokens(a.push(sep) + b) == tokens(a) + tokens(b),
    decreases a.len(),
{
    let s = a.push(sep) + b;
    if a.len() == 0 {
        assert(s.drop_first() == b);
        assert(tokens(a) + tokens(b) == tokens(b));
    } else if is_space(a[0]) {
        assert(s.drop_first() == a.drop_first().push(sep) + b);
        lemma_tokens_concat(a.drop_first(), sep, b);
    } else {
        lemma_run_len(a, false);
        let n = run_len(a, false) as int;
        assert(run_len(s, false) == n) by {
            assert forall|i: int| 0 <= i < n implies is_space(#[trigger] s[i]) == false by {
                assert(s[i] == a[i]);
            }
            if n < a.len() {
                assert(s[n] == a[n]);
            } else {
                assert(s[n] == sep);
            }
            lemma_run_len_is(s, false, n);
        }
        assert(s.take(n) == a.take(n));
        assert(s.skip(n) == a.skip(n).push(sep) + b);
        lemma_tokens_concat(a.skip(n), sep, b);
        assert(tokens(s) == seq![a.take(n)] + (tokens(a.skip(n)) + tokens(b)));
        assert(tokens(a) == seq![a.take(n)] + tokens(a.skip(n)));
        assert(seq![a.take(n)] + (tokens(a.skip(n)) + tokens(b)) =~= (seq![a.take(n)] + tokens(
            a.skip(n),
        )) + tokens(b));
    }
}

/// Every token is a word.
pub proof fn lemma_tokens_are_words(s: Seq<char>)
    ensures
        all_words(tokens(s)),
    decreases s.len(),
{
    if s.len() == 0 {
    } else if is_space(s[0]) {
        lemma_tokens_are_words(s.drop_first());
    } else {
        lemma_run_len(s, false);
        let n = run_len(s, false) as int;
        lemma_tokens_are_words(s.skip(n));
        let rest = tokens(s.skip(n));
        assert(is_word(s.take(n)));
        assert forall|i: int| 0 <= i < tokens(s).len() implies is_word(#[trigger] tokens(s)[i]) by {
            if i > 0 {
                assert(tokens(s)[i] == rest[i - 1]);
            }
        }
    }
}

/// Words joined by a white-space character start and end with a character that is not
/// white space.
pub proof fn lemma_join_ends(ws: Seq<Seq<char>>, sep: char)
    requires
        ws.len() > 0,
        is_word(ws[0]),
        is_word(ws.last()),
    ensures
        join(ws, sep).len() > 0,
        join(ws, sep)[0] == ws[0][0],
        join(ws, sep).last() == ws.last().last(),
    decreases ws.len(),
{
    if ws.len() > 1 {
        lemma_join_first(ws.drop_last(), sep);
    }
}

/// Joined text starts with its first part, where that part is not empty.
pub proof fn lemma_join_first(ws: Seq<Seq<char>>, sep: char)
    requires
        ws.len() > 0,
        ws[0].len() > 0,
    ensures
        join(ws, sep).len() > 0,
        join(ws, sep)[0] == ws[0][0],
    decreases ws.len(),
{
    if ws.len() > 1 {
        lemma_join_first(ws.drop_last(), sep);
    }
}

/// Splitting joined words gives the words back.
pub proof fn lemma_tokens_of_join(ws: Seq<Seq<char>>, sep: char)
    requires
        is_space(sep),
        all_words(ws),
    ensures
        tokens(join(ws, sep)) == ws,
    decreases ws.len(),
{
    if ws.len() == 0 {
    } else if ws.len() == 1 {
        lemma_tokens_of_word(ws[0]);
        assert(seq![ws[0]] =~= ws);
    } else {
        let front = ws.drop_last();
        lemma_tokens_of_join(front, sep);
        lemma_tokens_of_word(ws.last());
        lemma_tokens_concat(join(front, sep), sep, ws.last());
        assert(front + seq![ws.last()] =~= ws);
    }
}

/// Joining is associative: a part that is itself a join of several parts may be spliced in.
pub proof fn lemma_join_splice(a: Seq<Seq<char>>, b: Seq<Seq<char>>, sep: char)
    requires
        b.len() > 0,
    ensures
        join(a.push(join(b, sep)), sep) == join(a + b, sep),
    decreases b.len(),
{
    let whole = a + b;
    if b.len() == 1 {
        assert(a.push(join(b, sep)) =~= whole);
    } else {
        let front = b.drop_last();
        lemma_join_splice(a, front, sep);
        assert(whole.drop_last() =~= a + front);
        assert(whole.last() == b.last());
        let one = a.push(join(b, sep));
        assert(one.drop_last() =~= a);
        let two = a.push(join(front, sep));
        assert(two.drop_last() =~= a);
        if a.len() == 0 {
            assert(join(one, sep) == join(b, sep));
            assert(join(two, sep) == join(front, sep));
        } else {
            assert(join(one, sep) == join(a, sep).push(sep) + join(b, sep));
            assert(join(two, sep) == join(a, sep).push(sep) + join(front, sep));
            assert(join(a, sep).push(sep) + (join(front, sep).push(sep) + b.last()) =~= (join(
                a,
                sep,
            ).push(sep) + join(front, sep)).push(sep) + b.last());
        }
    }
}

/// A prefix of `n` characters without a line feed that ends `s` or is followed by a line
/// feed is the first line of `s`.
pub proof fn lemma_line_len_is(s: Seq<char>, n: int)
    requires
        0 <= n <= s.len(),
        forall|i: int| 0 <= i < n ==> #[trigger] s[i] != '\n',
        n < s.len() ==> s[n] == '\n',
    ensures
        line_len(s) == n,
    decreases n,
{
    if n > 0 {
        let t = s.drop_first();
        assert forall|i: int| 0 <= i < n - 1 implies #[trigger] t[i] != '\n' by {
            assert(t[i] == s[i + 1]);
        }
        lemma_line_len_is(t, n - 1);
    }
}

/// Tests a character for white space.
pub fn is_whitespace(c: char) -> (b: bool)
    ensures
        b == is_space(c),
{
    let u: u32 = c as u32;
    (0x09 <= u && u <= 0x0D) || u == 0x20 || u == 0x85 || u == 0xA0 || u == 0x1680 || (0x2000 <= u
        && u <= 0x200A) || u == 0x2028 || u == 0x2029 || u == 0x202F || u == 0x205F || u == 0x3000
}

/// The characters of `s`, in order.
pub fn chars_of(s: &str) -> (v: Vec<char>)
    ensures
        v@ == s@,
{
    let mut v: Vec<char> = Vec::new();
    for c in it: s.chars()
        invariant
            v@ == it.seq().take(it.index() as int),
            it.seq() == s@,
    {
        v.push(c);
    }
    v
}

/// The characters `chars[from..to]` as a string.
pub fn string_of(chars: &[char], from: usize, to: usize) -> (s: String)
    requires
        from <= to <= chars@.len(),
    ensures
        s@ == chars@.subrange(from as int, to as int),
{
    let mut s = String::new();
    let mut i: usize = from;
    while i < to
        invariant
            from <= i <= to <= chars@.len(),
            s@ == chars@.subrange(from as int, i as int),
        decreases to - i,
    {
        s.push(chars[i]);
        i += 1;
    }
    s
}

/// Whether `a` and `b` hold the same characters.
pub fn same_text(a: &str, b: &str) -> (same: bool)
    ensures
        same == (a@ == b@),
{
    let mut left = a.chars();
    let mut right = b.chars();
    let ghost mut k: int = 0;
    loop
        invariant
            0 <= k <= a@.len(),
            k <= b@.len(),
            left.remaining() == a@.skip(k),
            right.remaining() == b@.skip(k),
            a@.take(k) == b@.take(k),
        decreases a@.len() - k,
    {
        let x = left.next();
        let y = right.next();
        match (x, y) {
            (Some(c), Some(d)) => {
                if c != d {
                    assert(a@[k] != b@[k]);
                    return false;
                }
                proof {
                    assert(a@.take(k + 1) == a@.take(k).push(a@[k]));
                    assert(b@.take(k + 1) == b@.take(k).push(b@[k]));
                    assert(a@.skip(k).drop_first() == a@.skip(k + 1));
                    assert(b@.skip(k).drop_first() == b@.skip(k + 1));
                    k = k + 1;
                }
            },
            (None, None) => {
                assert(a@.take(k) == a@);
                assert(b@.take(k) == b@);
                return true;
            },
            _ => {
                assert(a@.len() != b@.len());
                return false;
            },
        }
    }
}

/// The end of the run that starts at `from`: the first index in `from..to` whose character
/// `c` has `is_space(c) != space`, or `to`.
pub fn skip_run(chars: &[char], from: usize, to: usize, space: bool) -> (end: usize)
    requires
        from <= to <= chars@.len(),
    ensures
        end == from + run_len(chars@.subrange(from as int, to as int), space),
        from <= end <= to,
{
    let ghost sub = chars@.subrange(from as int, to as int);
    let mut i: usize = from;
    while i < to && is_whitespace(chars[i]) == space
        invariant
            from <= i <= to <= chars@.len(),
            sub == chars@.subrange(from as int, to as int),
            forall|k: int| 0 <= k < i - from ==> is_space(#[trigger] sub[k]) == space,
        decreases to - i,
    {
        i += 1;
    }
    proof {
        if i < to {
            assert(sub[i - from] == chars@[i as int]);
        }
        lemma_run_len_is(sub, space, i - from);
    }
    i
}

/// The end of the line that starts at `from`: the index of the first line feed in
/// `from..to`, or `to`.
pub fn line_end(chars: &[char], from: usize, to: usize) -> (end: usize)
    requires
        from <= to <= chars@.len(),
    ensures
        end == from + line_len(chars@.subrange(from as int, to as int)),
        from <= end <= to,
{
    let ghost sub = chars@.subrange(from as int, to as int);
    let mut i: usize = from;
    while i < to && chars[i] != '\n'
        invariant
            from <= i <= to <= chars@.len(),
            sub == chars@.subrange(from as int, to as int),
            forall|k: int| 0 <= k < i - from ==> #[trigger] sub[k] != '\n',
        decreases to - i,
    {
        i += 1;
    }
    proof {
        if i < to {
            assert(sub[i - from] == chars@[i as int]);
        }
        lemma_line_len_is(sub, i - from);
    }
    i
}

/// The bounds of `chars[from..to]` without its leading and trailing white space.
pub fn trim_range(chars: &[char], from: usize, to: usize) -> (bounds: (usize, usize))
    requires
        from <= to <= chars@.len(),
    ensures
        from <= bounds.0 <= bounds.1 <= to,
        chars@.subrange(bounds.0 as int, bounds.1 as int) == trim(
            chars@.subrange(from as int, to as int),
        ),
{
    let start = skip_run(chars, from, to, true);
    let ghost rest = chars@.subrange(start as int, to as int);
    let mut end: usize = to;
    while end > start && is_whitespace(chars[end - 1])
        invariant
            start <= end <= to <= chars@.len(),
            rest == chars@.subrange(start as int, to as int),
            forall|k: int| end - start <= k < to - start ==> is_space(#[trigger] rest[k]),
        decreases end,
    {
        end -= 1;
    }
    proof {
        let sub = chars@.subrange(from as int, to as int);
        assert(sub.skip(start - from) == rest);
        if end > start {
            assert(rest[end - start - 1] == chars@[end - 1]);
        }
        lemma_trailing_spaces_is(rest, to - end);
        assert(rest.take(end - start) == chars@.subrange(start as int, end as int));
    }
    (start, end)
}

/// The words of `chars[from..to]`.
pub fn split_words(chars: &[char], from: usize, to: usize) -> (words: Vec<String>)
    requires
        from <= to <= chars@.len(),
    ensures
        words.deep_view() == tokens(chars@.subrange(from as int, to as int)),
{
    let mut words: Vec<String> = Vec::new();
    let mut i: usize = from;
    proof {
        assert(words.deep_view() =~= Seq::<Seq<char>>::empty());
    }
    while i < to
        invariant
            from <= i <= to <= chars@.len(),
            tokens(chars@.subrange(from as int, to as int)) == words.deep_view() + tokens(
                chars@.subrange(i as int, to as int),
            ),
        decreases to - i,
    {
        let ghost tail = chars@.subrange(i as int, to as int);
        let start = skip_run(chars, i, to, true);
        let ghost rest = chars@.subrange(start as int, to as int);
        proof {
            lemma_tokens_skip_spaces(tail);
            assert(tail.skip(start - i) == rest);
        }
        if start == to {
            i = to;
        } else {
            let end = skip_run(chars, start, to, false);
            let word = string_of(chars, start, end);
            proof {
                lemma_run_len(rest, true);
                lemma_run_len(tail, true);
                assert(rest[0] == tail[start - i]);
                assert(!is_space(rest[0]));
                assert(end > start);
                assert(rest.take(end - start) == chars@.subrange(start as int, end as int));
                assert(rest.skip(end - start) == chars@.subrange(end as int, to as int));
            }
            let ghost before = words.deep_view();
            words.push(word);
            proof {
                assert(words.deep_view() =~= before.push(word@));
                assert(before + (seq![word@] + tokens(chars@.subrange(end as int, to as int)))
                    =~= before.push(word@) + tokens(chars@.subrange(end as int, to as int)));
            }
            i = end;
        }
    }
    proof {
        assert(chars@.subrange(to as int, to as int).len() == 0);
        assert(words.deep_view() + Seq::<Seq<char>>::empty() =~= words.deep_view());
    }
    words
}

/// Leading white space holds no token.
pub proof fn lemma_tokens_skip_spaces(s: Seq<char>)
    ensures
        tokens(s) == tokens(s.skip(run_len(s, true) as int)),
    decreases s.len(),
{
    if s.len() > 0 && is_space(s[0]) {
        let t = s.drop_first();
        lemma_tokens_skip_spaces(t);
        lemma_run_len(t, true);
        assert(s.skip(run_len(s, true) as int) == t.skip(run_len(t, true) as int));
    } else {
        assert(s.skip(0) == s);
    }
}

/// The strings of `parts` with `sep` between each two neighbours.
pub fn join_words(parts: &Vec<String>, sep: char) -> (s: String)
    ensures
        s@ == join(parts.deep_view(), sep),
{
    let mut s = String::new();
    let mut i: usize = 0;
    while i < parts.len()
        invariant
            i <= parts.len(),
            s@ == join(parts.deep_view().take(i as int), sep),
        decreases parts.len() - i,
    {
        let ghost done = parts.deep_view().take(i as int);
        let ghost next = parts.deep_view().take(i + 1);
        proof {
            assert(next.drop_last() == done);
            assert(next.last() == parts@[i as int]@);
        }
        if i > 0 {
            s.push(sep);
        }
        s.append(parts[i].as_str());
        i += 1;
    }
    proof {
        assert(parts.deep_view().take(parts.len() as int) == parts.deep_view());
    }
    s
}

} // verus!
