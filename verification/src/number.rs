//! Reading a signed decimal integer from a text.

use vstd::prelude::*;

verus! {

/// Whether `c` is one of the ten decimal digits.
pub open spec fn is_digit(c: char) -> bool {
    '0' <= c && c <= '9'
}

/// The value of a decimal digit.
pub open spec fn digit_value(c: char) -> int {
    c as int - '0' as int
}

/// Whether every character of `digits` is a decimal digit.
pub open spec fn all_digits(digits: Seq<char>) -> bool {
    forall|i: int| 0 <= i < digits.len() ==> is_digit(#[trigger] digits[i])
}

/// The number that a row of decimal digits writes, the last digit being the
/// units.
pub open spec fn digits_value(digits: Seq<char>) -> int
    decreases digits.len(),
{
    if digits.len() == 0 {
        0
    } else {
        10 * digits_value(digits.drop_last()) + digit_value(digits.last())
    }
}

/// Whether `text` starts with a sign.
pub open spec fn has_sign(text: Seq<char>) -> bool {
    text.len() > 0 && (text[0] == '+' || text[0] == '-')
}

/// The digits of `text`: all of it but the sign.
pub open spec fn digits_of(text: Seq<char>) -> Seq<char> {
    if has_sign(text) {
        text.skip(1)
    } else {
        text
    }
}

/// The number that `text` writes, if it is an optional sign followed by one
/// digit or more and nothing else.
pub open spec fn decimal_of(text: Seq<char>) -> Option<int> {
    let digits = digits_of(text);
    if digits.len() > 0 && all_digits(digits) {
        if text[0] == '-' {
            Some(-digits_value(digits))
        } else {
            Some(digits_value(digits))
        }
    } else {
        None
    }
}

/// The signed 64-bit integer that `text` writes, if it writes a number and
/// the number fits.
pub open spec fn integer_of(text: Seq<char>) -> Option<i64> {
    match decimal_of(text) {
        Some(value) => if i64::MIN <= value <= i64::MAX {
            Some(value as i64)
        } else {
            None
        },
        None => None,
    }
}

/// A row of digits writes no negative number.
pub proof fn lemma_digits_value_nonnegative(digits: Seq<char>)
    requires
        all_digits(digits),
    ensures
        digits_value(digits) >= 0,
    decreases digits.len(),
{
    if digits.len() > 0 {
        assert(is_digit(digits[digits.len() - 1]));
        lemma_digits_value_nonnegative(digits.drop_last());
    }
}

/// More digits never write a smaller number: the value of the first `n`
/// digits is at most the value of them all.
pub proof fn lemma_digits_value_grows(digits: Seq<char>, n: int)
    requires
        all_digits(digits),
        0 <= n <= digits.len(),
    ensures
        digits_value(digits.take(n)) <= digits_value(digits),
    decreases digits.len(),
{
    if n == digits.len() {
        assert(digits.take(n) =~= digits);
    } else {
        let shorter = digits.drop_last();
        assert(is_digit(digits[digits.len() - 1]));
        assert(shorter.take(n) =~= digits.take(n));
        lemma_digits_value_grows(shorter, n);
        lemma_digits_value_nonnegative(shorter);
    }
}

/// Reads a signed 64-bit integer from the whole of `text`.
///
/// The text is an optional `+` or `-` and then decimal digits, at least one.
/// Anything else in it, or a number out of range, gives `None`.
pub fn parse_integer(text: &str) -> (value: Option<i64>)
    ensures
        value == integer_of(text@),
{
    let mut at_start = true;
    let mut signed = false;
    let mut negative = false;
    let mut any_digit = false;
    let mut magnitude: u64 = 0;
    let ghost mut start: int = 0;

    for c in it: text.chars()
        invariant
            it.seq() == text@,
            at_start == (it.index() == 0),
            signed == (it.index() > 0 && has_sign(text@)),
            negative == (signed && text@[0] == '-'),
            start == if signed { 1int } else { 0int },
            start <= it.index() || it.index() == 0,
            any_digit == (it.index() > start),
            it.index() > 0 ==> all_digits(text@.subrange(start, it.index() as int)),
            it.index() > 0 ==> magnitude == digits_value(text@.subrange(start, it.index() as int)),
            it.index() == 0 ==> magnitude == 0,
            magnitude <= 0x8000_0000_0000_0000,
    {
        let ghost k = it.index() as int;
        if at_start && (c == '+' || c == '-') {
            signed = true;
            negative = c == '-';
            proof {
                start = 1;
                assert(text@.subrange(1, 1) =~= Seq::<char>::empty());
            }
        } else if c >= '0' && c <= '9' {
            let digit: u32 = c as u32 - 48;
            let next: u128 = magnitude as u128 * 10 + digit as u128;
            let ghost read = text@.subrange(start, k + 1);
            proof {
                assert(read.drop_last() =~= text@.subrange(start, k));
                assert(read.last() == c);
                assert(all_digits(read)) by {
                    assert forall|i: int| 0 <= i < read.len() implies is_digit(
                        #[trigger] read[i],
                    ) by {
                        if i < read.len() - 1 {
                            assert(read[i] == text@.subrange(start, k)[i]);
                        }
                    }
                }
                assert(digits_value(read.drop_last()) == magnitude) by {
                    if k == 0 {
                        assert(read.drop_last().len() == 0);
                    }
                }
                assert(digit_value(c) == digit);
                assert(next == digits_value(read));
            }
            if next > 0x8000_0000_0000_0000 {
                proof {
                    lemma_out_of_range(text@, k + 1);
                }
                return None;
            }
            magnitude = next as u64;
            any_digit = true;
        } else {
            proof {
                assert(!is_digit(digits_of(text@)[k - start]));
            }
            return None;
        }
        at_start = false;
    }

    proof {
        assert(text@.subrange(start, text@.len() as int) =~= digits_of(text@));
    }
    if !any_digit {
        None
    } else if negative {
        if magnitude == 0x8000_0000_0000_0000 {
            Some(i64::MIN)
        } else {
            Some(-(magnitude as i64))
        }
    } else if magnitude > 0x7fff_ffff_ffff_ffff {
        None
    } else {
        Some(magnitude as i64)
    }
}

/// A text whose first digits already write more than any 64-bit integer
/// holds, in size, writes no 64-bit integer.
proof fn lemma_out_of_range(text: Seq<char>, end: int)
    requires
        (if has_sign(text) { 1int } else { 0int }) < end <= text.len(),
        digits_value(text.subrange(if has_sign(text) { 1int } else { 0int }, end))
            > 0x8000_0000_0000_0000,
    ensures
        integer_of(text) is None,
{
    let digits = digits_of(text);
    let start = if has_sign(text) { 1int } else { 0int };
    if all_digits(digits) {
        assert(digits.take(end - start) =~= text.subrange(start, end));
        lemma_digits_value_grows(digits, end - start);
    }
}

} // verus!
