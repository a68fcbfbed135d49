//! Cutting texts into pieces and reading numbers from them.

use vstd::prelude::*;
use crate::text::{chars_of, text_of};

verus! {

/// The pieces of a text between the occurrences of a separator. A text
/// without the separator is one piece; a separator at the end is followed
/// by an empty piece.
pub open spec fn pieces(text: Seq<char>, separator: char) -> Seq<Seq<char>>
    decreases text.len(),
{
    if text.len() == 0 {
        seq![Seq::empty()]
    } else {
        let before = pieces(text.drop_last(), separator);
        if text.last() == separator {
            before.push(Seq::empty())
        } else {
            before.drop_last().push(before.last().push(text.last()))
        }
    }
}

pub proof fn lemma_pieces_nonempty(text: Seq<char>, separator: char)
    ensures
        pieces(text, separator).len() >= 1,
    decreases text.len(),
{
    if text.len() > 0 {
        lemma_pieces_nonempty(text.drop_last(), separator);
    }
}

/// Cuts a text at every occurrence of a separator.
pub fn split(text: &str, separator: char) -> (r: Vec<String>)
    ensures
        r.deep_view() == pieces(text@, separator),
{
    let chars = chars_of(text);
    let ghost all = chars@;
    let mut done: Vec<String> = Vec::new();
    let mut start: usize = 0;
    let mut i: usize = 0;
    assert(all.take(0) =~= Seq::empty());
    assert(done.deep_view().push(all.subrange(0, 0)) =~= pieces(all.take(0), separator));
    while i < chars.len()
        invariant
            all == chars@,
            start <= i <= chars.len(),
            done.deep_view().push(all.subrange(start as int, i as int)) == pieces(
                all.take(i as int),
                separator,
            ),
        decreases chars.len() - i,
    {
        proof {
            assert(all.take(i + 1).drop_last() =~= all.take(i as int));
            assert(all.take(i + 1).last() == all[i as int]);
        }
        let ghost so_far = done.deep_view();
        let ghost open = all.subrange(start as int, i as int);
        if chars[i] == separator {
            done.push(text_of(&chars, start, i));
            start = i + 1;
            assert(done.deep_view() =~= so_far.push(open));
            assert(all.subrange(start as int, i + 1) =~= Seq::empty());
        } else {
            assert(so_far.push(open).drop_last() =~= so_far);
            assert(so_far.push(open).last() == open);
            assert(all.subrange(start as int, i + 1) =~= open.push(all[i as int]));
        }
        i = i + 1;
    }
    let ghost so_far = done.deep_view();
    done.push(text_of(&chars, start, i));
    assert(done.deep_view() =~= so_far.push(all.subrange(start as int, i as int)));
    assert(all.take(all.len() as int) =~= all);
    done
}

/// Whether `text` begins with `prefix`.
pub open spec fn begins_with(text: Seq<char>, prefix: Seq<char>) -> bool {
    prefix.len() <= text.len() && text.subrange(0, prefix.len() as int) == prefix
}

/// Whether `text` ends with `suffix`.
pub open spec fn ends_with(text: Seq<char>, suffix: Seq<char>) -> bool {
    suffix.len() <= text.len() && text.subrange(text.len() - suffix.len(), text.len() as int)
        == suffix
}

/// Whether the characters of `text` from `at` on begin with `prefix`.
pub fn matches_at(text: &Vec<char>, at: usize, prefix: &Vec<char>) -> (r: bool)
    requires
        at <= text.len(),
    ensures
        r == (at + prefix.len() <= text.len() && text@.subrange(
            at as int,
            at + prefix.len(),
        ) == prefix@),
{
    if prefix.len() > text.len() - at {
        return false;
    }
    let mut i: usize = 0;
    while i < prefix.len()
        invariant
            at + prefix.len() <= text.len(),
            i <= prefix.len(),
            forall|k: int| 0 <= k < i ==> text@[at + k] == prefix@[k],
        decreases prefix.len() - i,
    {
        if text[at + i] != prefix[i] {
            assert(text@.subrange(at as int, at + prefix.len())[i as int] != prefix@[i as int]);
            return false;
        }
        i = i + 1;
    }
    assert(text@.subrange(at as int, at + prefix.len()) =~= prefix@);
    true
}

/// The value of a decimal digit.
pub open spec fn digit_value(c: char) -> int {
    c as int - '0' as int
}

pub open spec fn is_digit(c: char) -> bool {
    '0' <= c <= '9'
}

/// The number that a sequence of digits stands for.
pub open spec fn digits_value(digits: Seq<char>) -> nat
    decreases digits.len(),
{
    if digits.len() == 0 {
        0
    } else {
        (digits_value(digits.drop_last()) * 10 + digit_value(digits.last())) as nat
    }
}

pub open spec fn all_digits(digits: Seq<char>) -> bool {
    forall|i: int| 0 <= i < digits.len() ==> is_digit(#[trigger] digits[i])
}

/// The digits of a number text: the text without a plus sign at its front.
pub open spec fn unsigned_part(text: Seq<char>) -> Seq<char> {
    if text.len() > 0 && text[0] == '+' {
        text.subrange(1, text.len() as int)
    } else {
        text
    }
}

/// The number that a text stands for, read as `u64::from_str` reads it: an
/// optional plus sign, then one or more decimal digits and nothing else;
/// none if the number does not fit.
pub open spec fn number_of(text: Seq<char>) -> Option<u64> {
    let digits = unsigned_part(text);
    if digits.len() > 0 && all_digits(digits) && digits_value(digits) <= u64::MAX {
        Some(digits_value(digits) as u64)
    } else {
        None
    }
}

proof fn lemma_digits_grow(digits: Seq<char>, n: int)
    requires
        0 <= n <= digits.len(),
        all_digits(digits),
    ensures
        digits_value(digits.take(n)) <= digits_value(digits),
    decreases digits.len() - n,
{
    if n < digits.len() {
        lemma_digits_grow(digits, n + 1);
        assert(digits.take(n + 1).drop_last() =~= digits.take(n));
        assert(is_digit(digits[n]));
    } else {
        assert(digits.take(n) =~= digits);
    }
}

/// Reads a number from a text.
pub fn parse_number(text: &str) -> (r: Option<u64>)
    ensures
        r == number_of(text@),
{
    let chars = chars_of(text);
    let start: usize = if chars.len() > 0 && chars[0] == '+' {
        1
    } else {
        0
    };
    let ghost digits = unsigned_part(text@);
    assert(digits =~= chars@.subrange(start as int, chars.len() as int));
    if start == chars.len() {
        return None;
    }
    let mut value: u64 = 0;
    let mut i: usize = start;
    assert(digits.take(0) =~= Seq::empty());
    while i < chars.len()
        invariant
            start <= i <= chars.len(),
            start < chars.len(),
            digits == chars@.subrange(start as int, chars.len() as int),
            digits == unsigned_part(text@),
            all_digits(digits.take(i - start)),
            value == digits_value(digits.take(i - start)),
        decreases chars.len() - i,
    {
        let c = chars[i];
        proof {
            assert(digits.take(i - start + 1).drop_last() =~= digits.take(i - start));
            assert(digits.take(i - start + 1).last() == c);
            assert(digits[i - start] == c);
        }
        if c < '0' || c > '9' {
            assert(!is_digit(digits[i - start]));
            return None;
        }
        let d: u64 = (c as u32 - '0' as u32) as u64;
        if value > (u64::MAX - d) / 10 {
            proof {
                assert(all_digits(digits.take(i - start + 1)));
                assert(value * 10 + d > u64::MAX) by {
                    assert(value >= (u64::MAX - d) / 10 + 1);
                    assert(((u64::MAX - d) / 10 + 1) * 10 > u64::MAX - d);
                }
                assert(digits_value(digits.take(i - start + 1)) > u64::MAX);
                if all_digits(digits) {
                    lemma_digits_grow(digits, i - start + 1);
                }
            }
            return None;
        }
        value = value * 10 + d;
        i = i + 1;
    }
    assert(digits.take(digits.len() as int) =~= digits);
    Some(value)
}

/// The position of the first occurrence of `c` in `text`.
pub open spec fn first_of(text: Seq<char>, c: char, at: int) -> bool {
    &&& 0 <= at < text.len()
    &&& text[at] == c
    &&& forall|i: int| 0 <= i < at ==> text[i] != c
}

/// Finds the first occurrence of a character.
pub fn find_char(text: &Vec<char>, c: char) -> (r: Option<usize>)
    ensures
        r is Some == text@.contains(c),
        r matches Some(at) ==> first_of(text@, c, at as int),
{
    let mut i: usize = 0;
    while i < text.len()
        invariant
            i <= text.len(),
            forall|k: int| 0 <= k < i ==> text@[k] != c,
        decreases text.len() - i,
    {
        if text[i] == c {
            return Some(i);
        }
        i = i + 1;
    }
    None
}

} // verus!
