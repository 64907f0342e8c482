//! Values that are moved, lent and changed in place.

use vstd::prelude::*;
use crate::text::{byte_len, lemma_len_before, len_before, split_before};

verus! {

/// The byte of the space character.
pub const SPACE: u8 = 32;

/// Makes a string and hands it to the caller.
pub fn gives_ownership() -> (some_string: String)
    ensures
        some_string@ == "yours"@,
{
    let some_string = "yours".to_owned();
    some_string
}

/// Takes a string and hands the same string back.
pub fn takes_and_gives_ownership(a_string: String) -> (same: String)
    ensures
        same == a_string,
{
    a_string
}

/// Hands a string back together with its length in bytes.
pub fn calculate_length(s: String) -> (pair: (String, usize))
    ensures
        pair.0 == s,
        pair.1 == byte_len(s@),
{
    let length = s.as_str().as_bytes().len();
    (s, length)
}

/// The length in bytes of a string that is only lent.
pub fn calculate_length2(s: &String) -> (length: usize)
    ensures
        length == byte_len(s@),
{
    s.as_str().as_bytes().len()
}

/// Appends `", world!"` to a string in place.
pub fn change(some_string: &mut String)
    ensures
        final(some_string)@ == old(some_string)@ + ", world!"@,
{
    some_string.append(", world!");
}

/// The first word of a text: what stands before its first space, or the
/// whole text if it holds none.
pub fn first_word(s: &str) -> (word: &str)
    ensures
        word@ == s@.take(len_before(s@, ' ') as int),
        !word@.contains(' '),
        word@.len() == s@.len() || s@[word@.len() as int] == ' ',
{
    proof {
        lemma_len_before(s@, ' ', len_before(s@, ' ') as int);
    }
    split_before(s, SPACE).0
}

} // verus!
