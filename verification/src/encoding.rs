//! How the characters of a text lie in its bytes: what a scan over the
//! UTF-8 bytes for an ASCII byte says about the characters.

use vstd::prelude::*;
use vstd::utf8::{
    char_is_scalar, char_u32_cast, decode_first_scalar, encode_scalar, encode_utf8,
    encode_utf8_decode_utf8, encode_utf8_first_scalar, encode_utf8_valid_utf8, is_char_boundary,
    is_char_boundary_iff_not_is_continuation_byte, is_continuation_byte, length_of_first_scalar,
    pop_first_scalar,
};
use crate::text::{byte_len, lemma_len_before, len_before, occurs_at, occurs_in};

verus! {

proof fn lemma_width_1_byte(scalar: u32)
    by (bit_vector)
    requires
        scalar <= 0x7F,
    ensures
        (scalar & 0x7F) as u8 == scalar as u8,
        (scalar as u8) as u32 == scalar,
{
}

proof fn lemma_high_bytes(x: u8)
    by (bit_vector)
    ensures
        0x80u8 | x >= 0x80u8,
        0xC0u8 | x >= 0x80u8,
        0xE0u8 | x >= 0x80u8,
        0xF0u8 | x >= 0x80u8,
{
}

/// The bytes that one character takes in UTF-8.
pub open spec fn char_bytes(c: char) -> Seq<u8> {
    encode_scalar(c as u32)
}

/// The encoding of a character below 128 is the one byte of that value;
/// the encoding of any other character holds no byte below 128.
pub proof fn lemma_scalar_bytes(c: char)
    ensures
        1 <= char_bytes(c).len() <= 4,
        (c as u32) < 0x80 ==> char_bytes(c) == seq![c as u8],
        (c as u32) >= 0x80 ==> forall|i: int|
            0 <= i < char_bytes(c).len() ==> #[trigger] char_bytes(c)[i] >= 0x80,
{
    let scalar = c as u32;
    char_is_scalar(c);
    if scalar < 0x80 {
        lemma_width_1_byte(scalar);
    } else {
        lemma_high_bytes(((scalar >> 6) & 0x1F) as u8);
        lemma_high_bytes(((scalar >> 12) & 0x0F) as u8);
        lemma_high_bytes(((scalar >> 18) & 0x7) as u8);
        lemma_high_bytes((scalar & 0x3F) as u8);
        lemma_high_bytes(((scalar >> 6) & 0x3F) as u8);
        lemma_high_bytes(((scalar >> 12) & 0x3F) as u8);
    }
}

/// The bytes of a text of one character are those of the character.
pub proof fn lemma_encode_one(c: char)
    ensures
        encode_utf8(seq![c]) == char_bytes(c),
{
    assert(encode_utf8(seq![c].drop_first()) == Seq::<u8>::empty());
}

/// Of the bytes of a character only the first is no continuation byte.
pub proof fn lemma_char_bytes_shape(c: char)
    ensures
        char_bytes(c).len() >= 1,
        !is_continuation_byte(char_bytes(c)[0]),
        forall|i: int|
            1 <= i < char_bytes(c).len() ==> is_continuation_byte(#[trigger] char_bytes(c)[i]),
{
    lemma_scalar_bytes(c);
    lemma_encode_one(c);
    encode_utf8_first_scalar(seq![c]);
}

/// A byte below 128 is the encoding of one character, and of no other.
pub proof fn lemma_ascii_byte(c: char, byte: u8)
    requires
        byte < 0x80,
    ensures
        c == byte as char <==> char_bytes(c) == seq![byte],
        c != byte as char ==> forall|i: int|
            0 <= i < char_bytes(c).len() ==> #[trigger] char_bytes(c)[i] != byte,
{
    lemma_scalar_bytes(c);
    let scalar = c as u32;
    if scalar < 0x80 {
        lemma_width_1_byte(scalar);
        char_u32_cast(c, scalar);
        assert(char_bytes(c)[0] == c as u8);
    }
}

/// The bytes of a text are those of any of its prefixes followed by
/// those of the rest, and a character starts where the prefix ends.
pub proof fn lemma_encode_split(chars: Seq<char>, at: int)
    requires
        0 <= at <= chars.len(),
    ensures
        encode_utf8(chars) == encode_utf8(chars.take(at)) + encode_utf8(chars.skip(at)),
        is_char_boundary(encode_utf8(chars), byte_len(chars.take(at)) as int),
    decreases at,
{
    let bytes = encode_utf8(chars);
    encode_utf8_valid_utf8(chars);
    if at == 0 {
        assert(chars.skip(0) == chars);
    } else {
        let rest = chars.drop_first();
        lemma_scalar_bytes(chars[0]);
        lemma_encode_split(rest, at - 1);
        assert(chars.take(at).drop_first() == rest.take(at - 1));
        assert(chars.skip(at) == rest.skip(at - 1));
        encode_utf8_first_scalar(chars);
        assert(pop_first_scalar(bytes) == encode_utf8(rest));
    }
}

/// Two texts with the same bytes are the same text.
pub proof fn lemma_same_bytes_same_text(a: Seq<char>, b: Seq<char>)
    requires
        encode_utf8(a) == encode_utf8(b),
    ensures
        a == b,
{
    encode_utf8_decode_utf8(a);
    encode_utf8_decode_utf8(b);
}

/// Where a scan over the bytes of a text first meets a byte below 128,
/// or the end, the characters before the first occurrence of that
/// character end.
pub proof fn lemma_scan_meets_char(chars: Seq<char>, stop: u8, n: int)
    requires
        stop < 0x80,
        0 <= n <= encode_utf8(chars).len(),
        forall|j: int| 0 <= j < n ==> encode_utf8(chars)[j] != stop,
        n == encode_utf8(chars).len() || encode_utf8(chars)[n] == stop,
    ensures
        n == byte_len(chars.take(len_before(chars, stop as char) as int)),
    decreases chars.len(),
{
    let bytes = encode_utf8(chars);
    if chars.len() > 0 {
        let rest = chars.drop_first();
        let first = char_bytes(chars[0]);
        lemma_scalar_bytes(chars[0]);
        lemma_ascii_byte(chars[0], stop);
        if chars[0] == stop as char {
            assert(bytes[0] == first[0]);
        } else {
            let behind = encode_utf8(rest);
            assert forall|j: int| 0 <= j < n - first.len() implies behind[j] != stop by {
                assert(bytes[j + first.len()] == behind[j]);
            }
            lemma_scan_meets_char(rest, stop, n - first.len());
            let k = len_before(rest, stop as char) as int;
            lemma_len_before(rest, stop as char, k);
            assert(chars.take(k + 1).drop_first() == rest.take(k));
        }
    }
}

/// The last byte of a text is a given byte below 128 exactly if its last
/// character is that character, which then takes that one byte.
pub proof fn lemma_last_byte(chars: Seq<char>, byte: u8)
    requires
        byte < 0x80,
        chars.len() > 0,
    ensures
        encode_utf8(chars).len() > 0,
        encode_utf8(chars).last() == byte <==> chars.last() == byte as char,
        chars.last() == byte as char ==> byte_len(chars.drop_last()) == byte_len(chars) - 1,
{
    let last = char_bytes(chars.last());
    lemma_encode_split(chars, chars.len() - 1);
    lemma_scalar_bytes(chars.last());
    lemma_ascii_byte(chars.last(), byte);
    let tail = chars.skip(chars.len() - 1);
    assert(encode_utf8(tail.drop_first()) == Seq::<u8>::empty());
    assert(encode_utf8(tail) == last + Seq::<u8>::empty());
}

/// A text whose bytes begin the bytes of another text begins that text.
pub proof fn lemma_prefix_in_bytes(short: Seq<char>, long: Seq<char>)
    requires
        encode_utf8(short).is_prefix_of(encode_utf8(long)),
    ensures
        short.is_prefix_of(long),
    decreases short.len(),
{
    if short.len() > 0 {
        let s = encode_utf8(short);
        let l = encode_utf8(long);
        let s_rest = short.drop_first();
        lemma_scalar_bytes(short[0]);
        let l_rest = long.drop_first();
        lemma_scalar_bytes(long[0]);
        encode_utf8_first_scalar(short);
        encode_utf8_first_scalar(long);
        let width = char_bytes(short[0]).len() as int;
        char_u32_cast(short[0], decode_first_scalar(s));
        char_u32_cast(long[0], decode_first_scalar(l));
        assert forall|i: int| 0 <= i < encode_utf8(s_rest).len() implies encode_utf8(s_rest)[i]
            == encode_utf8(l_rest)[i] by {
            assert(s[i + width] == l.subrange(0, s.len() as int)[i + width]);
        }
        lemma_prefix_in_bytes(s_rest, l_rest);
        assert(short == long.subrange(0, short.len() as int)) by {
            assert forall|i: int| 0 <= i < short.len() implies short[i] == long[i] by {
                if i > 0 {
                    assert(s_rest[i - 1] == l_rest.subrange(0, s_rest.len() as int)[i - 1]);
                }
            }
        }
    }
}

/// Where a character starts in the bytes of a text, a prefix of the text
/// ends: gives the number of characters before that place.
pub proof fn lemma_boundary_is_offset(chars: Seq<char>, place: int) -> (at: int)
    requires
        0 <= place <= encode_utf8(chars).len(),
        is_char_boundary(encode_utf8(chars), place),
    ensures
        0 <= at <= chars.len(),
        place == byte_len(chars.take(at)),
    decreases chars.len(),
{
    let bytes = encode_utf8(chars);
    encode_utf8_valid_utf8(chars);
    if place == 0 {
        0
    } else {
        let rest = chars.drop_first();
        lemma_scalar_bytes(chars[0]);
        encode_utf8_first_scalar(chars);
        assert(pop_first_scalar(bytes) == encode_utf8(rest));
        let width = char_bytes(chars[0]).len() as int;
        encode_utf8_valid_utf8(rest);
        assert(is_char_boundary(encode_utf8(rest), place - width));
        let behind = lemma_boundary_is_offset(rest, place - width);
        assert(chars.take(behind + 1).drop_first() == rest.take(behind));
        behind + 1
    }
}

/// A text stands in another exactly if its bytes stand in the bytes of
/// the other.
pub proof fn lemma_occurs_in_bytes(haystack: Seq<char>, needle: Seq<char>)
    ensures
        occurs_in(encode_utf8(haystack), encode_utf8(needle)) <==> occurs_in(haystack, needle),
{
    let h = encode_utf8(haystack);
    let n = encode_utf8(needle);
    if occurs_in(haystack, needle) {
        let at = choose|at: int| occurs_at(haystack, needle, at);
        let behind = haystack.skip(at);
        lemma_encode_split(haystack, at);
        lemma_encode_split(behind, needle.len() as int);
        assert(behind.take(needle.len() as int) == needle);
        let place = byte_len(haystack.take(at)) as int;
        assert(h.subrange(place, place + n.len()) == n);
        assert(occurs_at(h, n, place));
    }
    if occurs_in(h, n) {
        let place = choose|place: int| occurs_at(h, n, place);
        if needle.len() == 0 {
            assert(haystack.subrange(0, 0) == needle);
            assert(occurs_at(haystack, needle, 0));
        } else {
            lemma_scalar_bytes(needle[0]);
            encode_utf8_first_scalar(needle);
            encode_utf8_valid_utf8(haystack);
            is_char_boundary_iff_not_is_continuation_byte(h, place);
            let at = lemma_boundary_is_offset(haystack, place);
            lemma_encode_split(haystack, at);
            let behind = haystack.skip(at);
            lemma_prefix_in_bytes(needle, behind);
            assert(haystack.subrange(at, at + needle.len()) == behind.subrange(
                0,
                needle.len() as int,
            ));
            assert(occurs_at(haystack, needle, at));
        }
    }
}

} // verus!
