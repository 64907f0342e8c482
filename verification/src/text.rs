//! Text as a sequence of characters: scanning, substrings and lines.

use vstd::prelude::*;
use vstd::utf8::{encode_utf8, is_continuation_byte};
use crate::encoding::{
    char_bytes, lemma_char_bytes_shape, lemma_encode_one, lemma_encode_split, lemma_last_byte,
    lemma_occurs_in_bytes, lemma_same_bytes_same_text, lemma_scalar_bytes, lemma_scan_meets_char,
};

verus! {

/// The byte of the line feed character.
pub const LINE_FEED: u8 = 10;

/// The byte of the carriage return character.
pub const CARRIAGE_RETURN: u8 = 13;

/// The number of bytes that a text takes in UTF-8.
pub open spec fn byte_len(text: Seq<char>) -> nat {
    encode_utf8(text).len()
}

/// The number of characters of `text` that come before the first `stop`:
/// the whole length if there is none.
pub open spec fn len_before(text: Seq<char>, stop: char) -> nat
    decreases text.len(),
{
    if text.len() == 0 || text[0] == stop {
        0
    } else {
        1 + len_before(text.skip(1), stop)
    }
}

/// Whether `n` is where the first `stop` of `text` stands, or its length
/// if it holds none.
pub open spec fn is_first(text: Seq<char>, stop: char, n: int) -> bool {
    &&& 0 <= n <= text.len()
    &&& forall|j: int| 0 <= j < n ==> text[j] != stop
    &&& n == text.len() || text[n] == stop
}

proof fn lemma_first_is_len_before(text: Seq<char>, stop: char, n: int)
    requires
        is_first(text, stop, n),
    ensures
        len_before(text, stop) == n,
    decreases n,
{
    if n > 0 {
        lemma_first_is_len_before(text.skip(1), stop, n - 1);
    }
}

proof fn lemma_len_before_is_first(text: Seq<char>, stop: char)
    ensures
        is_first(text, stop, len_before(text, stop) as int),
    decreases text.len(),
{
    if !(text.len() == 0 || text[0] == stop) {
        let rest = text.skip(1);
        lemma_len_before_is_first(rest, stop);
        let n = len_before(rest, stop);
        assert forall|j: int| 0 <= j < n + 1 implies text[j] != stop by {
            if j > 0 {
                assert(rest[j - 1] == text[j]);
            }
        }
    }
}

/// `len_before` is the position of the first `stop`, and no other
/// position is: up to it no character is `stop`, and at it the text ends
/// or holds `stop`.
pub proof fn lemma_len_before(text: Seq<char>, stop: char, n: int)
    ensures
        len_before(text, stop) == n <==> is_first(text, stop, n),
{
    lemma_len_before_is_first(text, stop);
    if is_first(text, stop, n) {
        lemma_first_is_len_before(text, stop, n);
    }
}

/// Splits a text before the first occurrence of a character below 128,
/// given as a byte: into what stands before it, and the rest from that
/// character on. Where the text does not hold the character, the rest is
/// empty.
pub(crate) fn split_before<'a>(text: &'a str, stop: u8) -> (parts: (&'a str, &'a str))
    requires
        stop < 0x80,
    ensures
        parts.0@ == text@.take(len_before(text@, stop as char) as int),
        parts.1@ == text@.skip(len_before(text@, stop as char) as int),
{
    let bytes = text.as_bytes();
    let mut n: usize = 0;
    while n < bytes.len() && bytes[n] != stop
        invariant
            n <= bytes.len(),
            forall|j: int| 0 <= j < n ==> bytes@[j] != stop,
        decreases bytes.len() - n,
    {
        n += 1;
    }
    let ghost k = len_before(text@, stop as char) as int;
    proof {
        lemma_scan_meets_char(text@, stop, n as int);
        lemma_len_before(text@, stop as char, k);
        lemma_encode_split(text@, k);
    }
    let parts = text.split_at(n);
    proof {
        let whole = encode_utf8(text@);
        assert(whole.subrange(0, n as int) == encode_utf8(text@.take(k)));
        assert(whole.subrange(n as int, whole.len() as int) == encode_utf8(text@.skip(k)));
        lemma_same_bytes_same_text(parts.0@, text@.take(k));
        lemma_same_bytes_same_text(parts.1@, text@.skip(k));
    }
    parts
}

/// A text without its first character, which is below 128.
fn without_first<'a>(text: &'a str) -> (rest: &'a str)
    requires
        text@.len() > 0,
        (text@[0] as u32) < 0x80,
    ensures
        rest@ == text@.skip(1),
{
    proof {
        lemma_encode_split(text@, 1);
        lemma_scalar_bytes(text@[0]);
    }
    let parts = text.split_at(1);
    proof {
        let whole = encode_utf8(text@);
        assert(whole.subrange(1, whole.len() as int) == encode_utf8(text@.skip(1)));
        lemma_same_bytes_same_text(parts.1@, text@.skip(1));
    }
    parts.1
}

/// Splits a text that is not empty before its last character.
pub(crate) fn split_last<'a>(text: &'a str) -> (parts: (&'a str, &'a str))
    requires
        text@.len() > 0,
    ensures
        parts.0@ == text@.drop_last(),
        parts.1@ == seq![text@.last()],
{
    let bytes = text.as_bytes();
    let ghost front = text@.drop_last();
    let ghost last = char_bytes(text@.last());
    proof {
        lemma_encode_split(text@, text@.len() - 1);
        lemma_char_bytes_shape(text@.last());
        lemma_encode_one(text@.last());
        assert(text@.skip(text@.len() - 1) == seq![text@.last()]);
    }
    let mut start: usize = bytes.len() - 1;
    while 0x80 <= bytes[start] && bytes[start] <= 0xBF
        invariant
            bytes@ == encode_utf8(front) + last,
            byte_len(front) <= start < bytes.len(),
            !is_continuation_byte(last[0]),
            forall|i: int| 1 <= i < last.len() ==> is_continuation_byte(#[trigger] last[i]),
        decreases start,
    {
        start -= 1;
    }
    let parts = text.split_at(start);
    proof {
        let whole = encode_utf8(text@);
        assert(whole.subrange(0, start as int) == encode_utf8(front));
        assert(whole.subrange(start as int, whole.len() as int) == encode_utf8(seq![text@.last()]));
        lemma_same_bytes_same_text(parts.0@, front);
        lemma_same_bytes_same_text(parts.1@, seq![text@.last()]);
    }
    parts
}

/// Whether `needle` stands in `haystack` at position `at`.
pub open spec fn occurs_at<A>(haystack: Seq<A>, needle: Seq<A>, at: int) -> bool {
    &&& 0 <= at
    &&& at + needle.len() <= haystack.len()
    &&& haystack.subrange(at, at + needle.len()) == needle
}

/// Whether `needle` stands somewhere in `haystack`. The empty sequence
/// stands in every sequence.
pub open spec fn occurs_in<A>(haystack: Seq<A>, needle: Seq<A>) -> bool {
    exists|at: int| occurs_at(haystack, needle, at)
}

fn matches_at(haystack: &[u8], needle: &[u8], at: usize) -> (found: bool)
    requires
        at + needle.len() <= haystack.len(),
    ensures
        found == occurs_at(haystack@, needle@, at as int),
{
    let mut i: usize = 0;
    while i < needle.len()
        invariant
            i <= needle.len(),
            at + needle.len() <= haystack.len(),
            forall|j: int| 0 <= j < i ==> haystack@[at + j] == needle@[j],
        decreases needle.len() - i,
    {
        if haystack[at + i] != needle[i] {
            return false;
        }
        i += 1;
    }
    assert(haystack@.subrange(at as int, at + needle.len()) =~= needle@);
    true
}

/// Whether the bytes `needle` stand somewhere in the bytes `haystack`.
pub fn includes(haystack: &[u8], needle: &[u8]) -> (found: bool)
    ensures
        found == occurs_in(haystack@, needle@),
{
    if needle.len() > haystack.len() {
        return false;
    }
    let last: usize = haystack.len() - needle.len();
    let mut at: usize = 0;
    loop
        invariant
            at <= last,
            last == haystack.len() - needle.len(),
            forall|k: int| 0 <= k < at ==> !occurs_at(haystack@, needle@, k),
        decreases last - at,
    {
        if matches_at(haystack, needle, at) {
            return true;
        }
        if at == last {
            return false;
        }
        at += 1;
    }
}

/// Whether the text `needle` stands somewhere in the text `haystack`.
pub fn contains(haystack: &str, needle: &str) -> (found: bool)
    ensures
        found == occurs_in(haystack@, needle@),
{
    proof {
        lemma_occurs_in_bytes(haystack@, needle@);
    }
    includes(haystack.as_bytes(), needle.as_bytes())
}

/// A line without the carriage return that may end it.
pub open spec fn without_cr(line: Seq<char>) -> Seq<char> {
    if line.len() > 0 && line.last() == '\r' {
        line.drop_last()
    } else {
        line
    }
}

/// The lines of a text. A line ends at a line feed, or at a carriage
/// return followed by a line feed; neither belongs to the line. The last
/// line need not be ended, and the empty text has no lines.
pub open spec fn lines_of(text: Seq<char>) -> Seq<Seq<char>>
    decreases text.len(),
{
    if text.len() == 0 {
        Seq::empty()
    } else {
        let n = len_before(text, '\n');
        if n >= text.len() {
            seq![text]
        } else {
            seq![without_cr(text.take(n as int))] + lines_of(text.skip(n as int + 1))
        }
    }
}

/// The texts of a sequence of string slices.
pub open spec fn texts<'a>(lines: Seq<&'a str>) -> Seq<Seq<char>> {
    lines.map_values(|line: &'a str| line@)
}

/// A line without the carriage return that may end it.
fn strip_cr<'a>(line: &'a str) -> (out: &'a str)
    ensures
        out@ == without_cr(line@),
{
    let bytes = line.as_bytes();
    let n = bytes.len();
    if n > 0 && bytes[n - 1] == CARRIAGE_RETURN {
        proof {
            lemma_last_byte(line@, CARRIAGE_RETURN);
            lemma_encode_split(line@, line@.len() - 1);
        }
        let parts = line.split_at(n - 1);
        proof {
            let whole = encode_utf8(line@);
            assert(whole.subrange(0, n - 1) == encode_utf8(line@.drop_last()));
            lemma_same_bytes_same_text(parts.0@, line@.drop_last());
        }
        parts.0
    } else {
        proof {
            if line@.len() > 0 {
                lemma_last_byte(line@, CARRIAGE_RETURN);
            }
        }
        line
    }
}

/// Splits a text into its lines.
pub fn lines<'a>(text: &'a str) -> (out: Vec<&'a str>)
    ensures
        texts(out@) == lines_of(text@),
{
    let mut out: Vec<&'a str> = Vec::new();
    let mut rest: &'a str = text;
    while !rest.is_empty()
        invariant
            lines_of(text@) == texts(out@) + lines_of(rest@),
        decreases rest@.len(),
    {
        let ghost whole = rest@;
        let ghost k = len_before(whole, '\n') as int;
        let (line, tail) = split_before(rest, LINE_FEED);
        proof {
            lemma_len_before(whole, '\n', k);
        }
        if tail.is_empty() {
            out.push(line);
            rest = tail;
            proof {
                assert(line@ == whole);
            }
        } else {
            let line = strip_cr(line);
            out.push(line);
            rest = without_first(tail);
            proof {
                assert(rest@ == whole.skip(k + 1));
            }
        }
    }
    out
}

} // verus!
