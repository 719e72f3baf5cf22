//! The text model: what the lines of a text are, what it means for one text
//! to occur in another, and the three string operations of the standard
//! library that the matchers rest on.

use vstd::prelude::*;

verus! {

/// The number of characters before the first line feed of `s`, or the length
/// of `s` where it holds none.
pub open spec fn line_end(s: Seq<char>) -> int
    decreases s.len(),
{
    if s.len() == 0 || s[0] == '\n' {
        0
    } else {
        1 + line_end(s.skip(1))
    }
}

/// `s` without one trailing carriage return.
pub open spec fn without_cr(s: Seq<char>) -> Seq<char> {
    if s.len() > 0 && s.last() == '\r' {
        s.drop_last()
    } else {
        s
    }
}

/// The lines of `s`. A line ends at a line feed; the line feed, and a carriage
/// return directly before it, belong to no line. What follows the last line
/// feed is a line only if it is not empty, so a final line feed adds no line,
/// and the empty text has no lines.
pub open spec fn lines_of(s: Seq<char>) -> Seq<Seq<char>>
    decreases s.len(),
{
    if s.len() == 0 {
        Seq::empty()
    } else {
        let end = line_end(s);
        if 0 <= end < s.len() {
            seq![without_cr(s.take(end))] + lines_of(s.skip(end + 1))
        } else {
            seq![s]
        }
    }
}

/// `needle` stands in `hay` at position `at`.
pub open spec fn occurs_at(needle: Seq<char>, hay: Seq<char>, at: int) -> bool {
    &&& 0 <= at
    &&& at + needle.len() <= hay.len()
    &&& hay.subrange(at, at + needle.len()) == needle
}

/// `needle` is a contiguous part of `hay`.
pub open spec fn occurs_in(needle: Seq<char>, hay: Seq<char>) -> bool {
    exists|at: int| occurs_at(needle, hay, at)
}

/// The lowercase form that `str::to_lowercase` gives to a text.
pub uninterp spec fn lowercase_of(s: Seq<char>) -> Seq<char>;

/// The empty text occurs in every text.
pub proof fn lemma_empty_occurs(hay: Seq<char>)
    ensures
        occurs_in(Seq::empty(), hay),
{
    assert(hay.subrange(0, 0) =~= Seq::<char>::empty());
    assert(occurs_at(Seq::empty(), hay, 0));
}

/// `line_end` lies within the text; no line feed stands before it, and one
/// stands at it unless it is the end of the text.
pub proof fn lemma_line_end(s: Seq<char>)
    ensures
        0 <= line_end(s) <= s.len(),
        forall|i: int| 0 <= i < line_end(s) ==> s[i] != '\n',
        line_end(s) < s.len() ==> s[line_end(s)] == '\n',
    decreases s.len(),
{
    if s.len() > 0 && s[0] != '\n' {
        lemma_line_end(s.skip(1));
        assert forall|i: int| 0 <= i < line_end(s) implies s[i] != '\n' by {
            if i > 0 {
                assert(s[i] == s.skip(1)[i - 1]);
            }
        }
    }
}

/// The first line of `s + t` ends where that of `s` ends, or, where `s` holds
/// no line feed, where that of `t` ends.
pub proof fn lemma_line_end_of_joined(s: Seq<char>, t: Seq<char>)
    ensures
        line_end(s + t) == if line_end(s) < s.len() {
            line_end(s)
        } else {
            s.len() + line_end(t)
        },
    decreases s.len(),
{
    lemma_line_end(s);
    if s.len() == 0 {
        assert(s + t =~= t);
    } else if s[0] != '\n' {
        lemma_line_end_of_joined(s.skip(1), t);
        assert((s + t).skip(1) =~= s.skip(1) + t);
    }
}

/// A text has no more lines than characters, and no line holds a line feed.
pub proof fn lemma_lines_hold_no_line_feed(s: Seq<char>)
    ensures
        lines_of(s).len() <= s.len(),
        forall|i: int, j: int|
            0 <= i < lines_of(s).len() && 0 <= j < lines_of(s)[i].len() ==> lines_of(s)[i][j]
                != '\n',
    decreases s.len(),
{
    lemma_line_end(s);
    let end = line_end(s);
    if s.len() > 0 && end < s.len() {
        lemma_lines_hold_no_line_feed(s.skip(end + 1));
        let rest = lines_of(s.skip(end + 1));
        assert forall|i: int, j: int|
            0 <= i < lines_of(s).len() && 0 <= j < lines_of(s)[i].len() implies lines_of(s)[i][j]
            != '\n' by {
            if i == 0 {
                assert(lines_of(s)[0][j] == s[j]);
            } else {
                assert(lines_of(s)[i] == rest[i - 1]);
            }
        }
    }
}

/// A line break at the end of a text adds no line: where a text does not end
/// in a line feed, a line feed after it, or a carriage return and a line
/// feed, leaves its lines as they are. The one exception is a carriage return
/// that ends the text: a line feed after it makes the two a line break.
pub proof fn lemma_final_break_adds_no_line(s: Seq<char>)
    requires
        s.len() > 0,
        s.last() != '\n',
    ensures
        lines_of(s + seq!['\r', '\n']) == lines_of(s),
        s.last() != '\r' ==> lines_of(s.push('\n')) == lines_of(s),
    decreases s.len(),
{
    let crlf = seq!['\r', '\n'];
    let lf = seq!['\n'];
    let end = line_end(s);
    lemma_line_end(s);
    lemma_line_end_of_joined(s, crlf);
    lemma_line_end_of_joined(s, lf);
    assert(s.push('\n') =~= s + lf);
    assert(line_end(lf) == 0);
    assert(line_end(crlf) == 1) by {
        assert(crlf.skip(1) =~= lf);
    }
    if end < s.len() {
        let rest = s.skip(end + 1);
        assert(rest.len() > 0);
        assert(rest.last() == s.last());
        lemma_final_break_adds_no_line(rest);
        assert((s + crlf).take(end) =~= s.take(end));
        assert((s + crlf).skip(end + 1) =~= rest + crlf);
        assert((s + lf).take(end) =~= s.take(end));
        assert((s + lf).skip(end + 1) =~= rest + lf);
        assert(rest.push('\n') =~= rest + lf);
    } else {
        assert(lines_of(Seq::<char>::empty()) =~= Seq::<Seq<char>>::empty());
        assert((s + crlf).take(end + 1) =~= s.push('\r'));
        assert(without_cr(s.push('\r')) =~= s);
        assert((s + crlf).skip(end + 2) =~= Seq::<char>::empty());
        assert(lines_of(s + crlf) =~= seq![s]);
        assert((s + lf).take(end) =~= s);
        assert((s + lf).skip(end + 1) =~= Seq::<char>::empty());
        if s.last() != '\r' {
            assert(lines_of(s + lf) =~= seq![s]);
        }
    }
}

/// Calls `str::lines` and collects what it yields. Trusted: the slices come in
/// the order of the text and spell the lines of `lines_of`, which restates the
/// documentation of `str::lines` (split at `\n` or `\r\n`, terminators left
/// out, the final terminator optional).
#[verifier::external_body]
pub(crate) fn split_lines<'a>(contents: &'a str) -> (lines: Vec<&'a str>)
    ensures
        lines@.len() == lines_of(contents@).len(),
        forall|i: int| 0 <= i < lines@.len() ==> (#[trigger] lines@[i])@ == lines_of(contents@)[i],
{
    contents.lines().collect()
}

/// Calls `str::contains` with a string pattern. Trusted: the answer is whether
/// `needle` is a contiguous part of `hay`.
#[verifier::external_body]
pub(crate) fn contains(hay: &str, needle: &str) -> (found: bool)
    ensures
        found == occurs_in(needle@, hay@),
{
    hay.contains(needle)
}

/// Calls `str::to_lowercase`. Trusted: the result depends on the characters of
/// `s` alone; it is named, not described.
#[verifier::external_body]
pub(crate) fn to_lowercase(s: &str) -> (lower: String)
    ensures
        lower@ == lowercase_of(s@),
{
    s.to_lowercase()
}

} // verus!
