//! Splitting a text into lines that keep their terminators, and joining them
//! back.

use vstd::prelude::*;
use vstd::string::StringExecFns;

verus! {

/// The texts that a vector of strings holds, in order.
pub open spec fn texts(v: Seq<String>) -> Seq<Seq<char>> {
    Seq::new(v.len(), |i: int| v[i]@)
}

/// All lines laid end to end.
pub open spec fn concat_lines(lines: Seq<Seq<char>>) -> Seq<char>
    decreases lines.len(),
{
    if lines.len() == 0 {
        Seq::<char>::empty()
    } else {
        concat_lines(lines.drop_last()) + lines.last()
    }
}

/// A line that ends in its terminator and holds no other.
pub open spec fn is_terminated(line: Seq<char>) -> bool {
    &&& line.len() > 0
    &&& line.last() == '\n'
    &&& forall|k: int| 0 <= k < line.len() - 1 ==> line[k] != '\n'
}

/// A non-empty rest of a text with no terminator in it.
pub open spec fn is_open_tail(line: Seq<char>) -> bool {
    &&& line.len() > 0
    &&& forall|k: int| 0 <= k < line.len() ==> line[k] != '\n'
}

/// `lines` is `text` cut after each line feed: every line keeps its
/// terminator, and only the last may lack one.
pub open spec fn is_line_split(text: Seq<char>, lines: Seq<Seq<char>>) -> bool {
    &&& concat_lines(lines) == text
    &&& forall|j: int| 0 <= j < lines.len() - 1 ==> is_terminated(#[trigger] lines[j])
    &&& lines.len() > 0 ==> is_terminated(lines.last()) || is_open_tail(lines.last())
}

/// Appending a line to a sequence appends it to the concatenation.
pub proof fn lemma_concat_push(lines: Seq<Seq<char>>, line: Seq<char>)
    ensures
        concat_lines(lines.push(line)) == concat_lines(lines) + line,
{
    assert(lines.push(line).drop_last() =~= lines);
}

/// Where the last line of the first `n` characters of `s` starts: after the
/// last line feed before their final character, or at 0.
pub open spec fn last_line_start(s: Seq<char>, n: int) -> int
    decreases n,
{
    if n <= 1 {
        0
    } else if s[n - 2] == '\n' {
        n - 1
    } else {
        last_line_start(s, n - 1)
    }
}

/// The lines of a text: it is cut after each line feed, so that every line
/// keeps its terminator and only the last may lack one. The empty text has
/// no lines.
pub open spec fn lines_of(s: Seq<char>) -> Seq<Seq<char>>
    decreases s.len(),
{
    if s.len() == 0 {
        Seq::<Seq<char>>::empty()
    } else {
        let k = last_line_start(s, s.len() as int);
        if 0 <= k < s.len() {
            lines_of(s.subrange(0, k)).push(s.subrange(k, s.len() as int))
        } else {
            seq![s]
        }
    }
}

/// What `last_line_start` finds: a position inside the text that follows a
/// line feed (or is 0), with no line feed between it and the final character.
pub proof fn lemma_last_line_start_props(s: Seq<char>, n: int)
    requires
        1 <= n <= s.len(),
    ensures
        0 <= last_line_start(s, n) < n,
        last_line_start(s, n) == 0 || s[last_line_start(s, n) - 1] == '\n',
        forall|j: int| last_line_start(s, n) <= j < n - 1 ==> s[j] != '\n',
    decreases n,
{
    if n > 1 && s[n - 2] != '\n' {
        lemma_last_line_start_props(s, n - 1);
    }
}

/// A position after a line feed (or 0) from which no line feed stands before
/// the final character is where the last line starts.
pub proof fn lemma_last_line_start_is(s: Seq<char>, n: int, start: int)
    requires
        0 <= start < n <= s.len(),
        start == 0 || s[start - 1] == '\n',
        forall|k: int| start <= k < n - 1 ==> s[k] != '\n',
    ensures
        last_line_start(s, n) == start,
    decreases n,
{
    if n > 1 && s[n - 2] != '\n' {
        lemma_last_line_start_is(s, n - 1, start);
    }
}

/// Joining the lines of a text gives the text back.
pub proof fn lemma_lines_concat(s: Seq<char>)
    ensures
        concat_lines(lines_of(s)) == s,
    decreases s.len(),
{
    if s.len() == 0 {
        assert(concat_lines(lines_of(s)) =~= s);
    } else {
        let n = s.len() as int;
        let k = last_line_start(s, n);
        lemma_last_line_start_props(s, n);
        lemma_lines_concat(s.subrange(0, k));
        lemma_concat_push(lines_of(s.subrange(0, k)), s.subrange(k, n));
        assert(s.subrange(0, k) + s.subrange(k, n) =~= s);
    }
}

/// The lines of a text are the text cut after each line feed: laid end to
/// end they give the text, every line but the last ends in its only line
/// feed, and the last one does so exactly where the text ends in one.
pub proof fn lemma_lines_are_split(s: Seq<char>)
    ensures
        is_line_split(s, lines_of(s)),
        s.len() > 0 ==> lines_of(s).len() > 0,
        s.len() > 0 && s.last() == '\n' ==> is_terminated(lines_of(s).last()),
        s.len() > 0 && s.last() != '\n' ==> is_open_tail(lines_of(s).last()),
    decreases s.len(),
{
    lemma_lines_concat(s);
    if s.len() > 0 {
        let n = s.len() as int;
        let k = last_line_start(s, n);
        lemma_last_line_start_props(s, n);
        let head = s.subrange(0, k);
        let tail = s.subrange(k, n);
        lemma_lines_are_split(head);
        let ls = lines_of(s);
        assert(ls == lines_of(head).push(tail));
        assert(tail.len() == n - k);
        assert(tail.last() == s.last());
        assert forall|j: int| 0 <= j < tail.len() - 1 implies tail[j] != '\n' by {
            assert(tail[j] == s[k + j]);
        }
        assert(ls.last() == tail);
        assert forall|j: int| 0 <= j < ls.len() - 1 implies is_terminated(#[trigger] ls[j]) by {
            assert(ls[j] == lines_of(head)[j]);
            assert(head.len() > 0);
            assert(head.last() == s[k - 1]);
        }
    }
}

/// Cuts `text` after each line feed.
pub fn split_lines(text: &str) -> (r: Vec<String>)
    ensures
        texts(r@) == lines_of(text@),
        is_line_split(text@, texts(r@)),
{
    let n: usize = text.unicode_len();
    let mut lines: Vec<String> = Vec::new();
    let mut start: usize = 0;
    let mut i: usize = 0;
    assert(texts(lines@) =~= Seq::<Seq<char>>::empty());
    while i < n
        invariant
            n == text@.len(),
            start <= i <= n,
            texts(lines@) == lines_of(text@.subrange(0, start as int)),
            start == 0 || text@[start - 1] == '\n',
            forall|k: int| start <= k < i ==> text@[k] != '\n',
        decreases n - i,
    {
        let c = text.get_char(i);
        i = i + 1;
        if c == '\n' {
            let piece = text.substring_char(start, i).to_owned();
            proof {
                let t = text@.subrange(0, i as int);
                lemma_last_line_start_is(t, i as int, start as int);
                assert(t.subrange(0, start as int) =~= text@.subrange(0, start as int));
                assert(t.subrange(start as int, i as int) =~= piece@);
                assert(texts(lines@.push(piece)) =~= texts(lines@).push(piece@));
            }
            lines.push(piece);
            start = i;
        }
    }
    if start < n {
        let piece = text.substring_char(start, n).to_owned();
        proof {
            lemma_last_line_start_is(text@, n as int, start as int);
            assert(texts(lines@.push(piece)) =~= texts(lines@).push(piece@));
        }
        lines.push(piece);
    } else {
        assert(text@.subrange(0, start as int) =~= text@);
    }
    proof {
        lemma_lines_are_split(text@);
    }
    lines
}

/// Lays the lines end to end.
pub fn join_lines(lines: &Vec<String>) -> (r: String)
    ensures
        r@ == concat_lines(texts(lines@)),
{
    let mut out: String = String::new();
    let mut i: usize = 0;
    assert(texts(lines@).take(0) =~= Seq::<Seq<char>>::empty());
    while i < lines.len()
        invariant
            i <= lines@.len(),
            out@ == concat_lines(texts(lines@).take(i as int)),
        decreases lines@.len() - i,
    {
        proof {
            let all = texts(lines@);
            assert(all.take(i + 1) =~= all.take(i as int).push(lines@[i as int]@));
            lemma_concat_push(all.take(i as int), lines@[i as int]@);
        }
        out.append(lines[i].as_str());
        i = i + 1;
    }
    assert(texts(lines@).take(i as int) =~= texts(lines@));
    out
}

} // verus!
