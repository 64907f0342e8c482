//! The largest item of a list, for numbers, characters and anything that
//! can be compared; a point with two coordinates of one type; the longer
//! of two texts.

use std::cmp::Ordering;
use vstd::prelude::*;
use vstd::std_specs::cmp::PartialOrdSpec;
use crate::text::byte_len;

verus! {

/// Whether `largest` is an item of `list` that no item exceeds.
pub open spec fn is_largest_i32(list: Seq<i32>, largest: i32) -> bool {
    &&& list.contains(largest)
    &&& forall|i: int| 0 <= i < list.len() ==> list[i] <= largest
}

/// The largest number of a list that is not empty.
pub fn largest_i32(numbers: &[i32]) -> (largest: i32)
    requires
        numbers.len() > 0,
    ensures
        is_largest_i32(numbers@, largest),
{
    let mut largest = numbers[0];
    let mut i: usize = 1;
    assert(numbers@.take(1)[0] == largest);
    while i < numbers.len()
        invariant
            1 <= i <= numbers.len(),
            is_largest_i32(numbers@.take(i as int), largest),
        decreases numbers.len() - i,
    {
        let num = numbers[i];
        let ghost seen = numbers@.take(i as int);
        let ghost at = choose|k: int| 0 <= k < seen.len() && seen[k] == largest;
        if largest < num {
            largest = num;
        }
        proof {
            let now = numbers@.take(i + 1);
            assert(now[i as int] == num);
            assert(now[at] == seen[at]);
        }
        i += 1;
    }
    assert(numbers@.take(i as int) == numbers@);
    largest
}

/// Whether `largest` is a character of `list` that none exceeds.
pub open spec fn is_largest_char(list: Seq<char>, largest: char) -> bool {
    &&& list.contains(largest)
    &&& forall|i: int| 0 <= i < list.len() ==> list[i] <= largest
}

/// The largest character of a list that is not empty.
pub fn largest_char(numbers: &[char]) -> (largest: char)
    requires
        numbers.len() > 0,
    ensures
        is_largest_char(numbers@, largest),
{
    let mut largest = numbers[0];
    let mut i: usize = 1;
    assert(numbers@.take(1)[0] == largest);
    while i < numbers.len()
        invariant
            1 <= i <= numbers.len(),
            is_largest_char(numbers@.take(i as int), largest),
        decreases numbers.len() - i,
    {
        let num = numbers[i];
        let ghost seen = numbers@.take(i as int);
        let ghost at = choose|k: int| 0 <= k < seen.len() && seen[k] == largest;
        if largest < num {
            largest = num;
        }
        proof {
            let now = numbers@.take(i + 1);
            assert(now[i as int] == num);
            assert(now[at] == seen[at]);
        }
        i += 1;
    }
    assert(numbers@.take(i as int) == numbers@);
    largest
}

/// Whether the comparisons of `T` in compiled code are the ones that
/// contracts speak of.
pub open spec fn comparable<T: PartialOrd>() -> bool {
    T::obeys_partial_cmp_spec()
}

/// Whether `a` is less than `b`.
pub open spec fn less<T: PartialOrd>(a: T, b: T) -> bool {
    a.partial_cmp_spec(&b) == Some(Ordering::Less)
}

/// The item that a pass over `list` from the front ends up with, when it
/// starts with the first and moves on to each item that the one it holds
/// is less than.
pub open spec fn largest_of<T: PartialOrd>(list: Seq<T>) -> T
    decreases list.len(),
{
    if list.len() <= 1 {
        list[0]
    } else {
        let held = largest_of(list.drop_last());
        if less(held, list.last()) {
            list.last()
        } else {
            held
        }
    }
}

/// The largest item of a list that is not empty.
pub fn largest<T: Copy + PartialOrd>(list: &[T]) -> (largest: T)
    requires
        list.len() > 0,
    ensures
        list@.contains(largest),
        comparable::<T>() ==> largest == largest_of(list@),
{
    let mut largest = list[0];
    let mut i: usize = 1;
    assert(list@.take(1)[0] == largest);
    while i < list.len()
        invariant
            1 <= i <= list.len(),
            list@.take(i as int).contains(largest),
            comparable::<T>() ==> largest == largest_of(list@.take(i as int)),
        decreases list.len() - i,
    {
        let item = list[i];
        let ghost seen = list@.take(i as int);
        let ghost at = choose|k: int| 0 <= k < seen.len() && seen[k] == largest;
        if largest < item {
            largest = item;
        }
        proof {
            let now = list@.take(i + 1);
            assert(now.drop_last() == seen);
            assert(now[i as int] == item);
            assert(now[at] == seen[at]);
        }
        i += 1;
    }
    assert(list@.take(i as int) == list@);
    largest
}

/// On numbers `largest` and `largest_i32` agree: numbers are compared in
/// compiled code as in contracts, and the pass that `largest_of` describes
/// ends with a number of the list that none exceeds.
pub proof fn lemma_largest_agrees_on_numbers(list: Seq<i32>)
    requires
        list.len() > 0,
    ensures
        comparable::<i32>(),
        is_largest_i32(list, largest_of(list)),
        forall|other: i32| is_largest_i32(list, other) ==> other == largest_of(list),
    decreases list.len(),
{
    if list.len() > 1 {
        let front = list.drop_last();
        lemma_largest_agrees_on_numbers(front);
        let at = choose|k: int| 0 <= k < front.len() && front[k] == largest_of(front);
        assert(list[at] == front[at]);
        assert forall|k: int| 0 <= k < list.len() implies list[k] <= largest_of(list) by {
            if k < front.len() {
                assert(front[k] == list[k]);
            }
        }
    }
}

/// A point in the plane, with both coordinates of one type.
#[derive(Debug, PartialEq, Eq)]
pub struct Point<T> {
    pub x: T,
    pub y: T,
}

impl<T> Point<T> {
    /// The first coordinate.
    pub fn x(&self) -> (x: &T)
        ensures
            *x == self.x,
    {
        &self.x
    }

    /// The second coordinate.
    pub fn y(&self) -> (y: &T)
        ensures
            *y == self.y,
    {
        &self.y
    }
}

/// The one of two texts that takes more bytes, the second if they take
/// the same.
pub fn longest<'a>(str1: &'a str, str2: &'a str) -> (longer: &'a str)
    ensures
        longer@ == if byte_len(str1@) > byte_len(str2@) {
            str1@
        } else {
            str2@
        },
{
    if str1.as_bytes().len() > str2.as_bytes().len() {
        str1
    } else {
        str2
    }
}

} // verus!
