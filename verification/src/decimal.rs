//! Reading an unsigned decimal number.

use vstd::prelude::*;

verus! {

pub open spec fn is_digit(c: char) -> bool {
    '0' <= c <= '9'
}

pub open spec fn digit_value(c: char) -> nat {
    (c as u32 - '0' as u32) as nat
}

pub open spec fn all_digits(s: Seq<char>) -> bool {
    forall|i: int| 0 <= i < s.len() ==> is_digit(#[trigger] s[i])
}

/// The number that the digits `s` write in base ten.
pub open spec fn digits_value(s: Seq<char>) -> nat
    decreases s.len(),
{
    if s.len() == 0 {
        0
    } else {
        digits_value(s.drop_last()) * 10 + digit_value(s.last())
    }
}

/// The digits of a number text: the text without one leading plus sign.
pub open spec fn unsigned_digits(s: Seq<char>) -> Seq<char> {
    if s.len() > 0 && s[0] == '+' {
        s.skip(1)
    } else {
        s
    }
}

/// The number that `s` writes: an optional plus sign, then one digit or more
/// and nothing else, with a value that a `u32` holds.
pub open spec fn parse_u32(s: Seq<char>) -> Option<u32> {
    let digits = unsigned_digits(s);
    if digits.len() > 0 && all_digits(digits) && digits_value(digits) <= u32::MAX {
        Some(digits_value(digits) as u32)
    } else {
        None
    }
}

/// Digits that continue a text write a number that is no smaller.
pub proof fn lemma_digits_value_grows(s: Seq<char>, n: int)
    requires
        0 <= n <= s.len(),
    ensures
        digits_value(s.take(n)) <= digits_value(s),
    decreases s.len() - n,
{
    if n < s.len() {
        lemma_digits_value_grows(s, n + 1);
        assert(s.take(n + 1).drop_last() =~= s.take(n));
    } else {
        assert(s.take(n) =~= s);
    }
}

pub fn read_u32(text: &Vec<char>) -> (number: Option<u32>)
    ensures
        number == parse_u32(text@),
{
    let begin: usize = if text.len() > 0 && text[0] == '+' {
        1
    } else {
        0
    };
    if begin == text.len() {
        return None;
    }
    let ghost digits = unsigned_digits(text@);
    assert(digits =~= text@.subrange(begin as int, text.len() as int));
    let mut value: u64 = 0;
    let mut i: usize = begin;
    while i < text.len()
        invariant
            begin <= i <= text.len(),
            digits == text@.subrange(begin as int, text.len() as int),
            digits == unsigned_digits(text@),
            all_digits(digits.take(i - begin)),
            value == digits_value(digits.take(i - begin)),
            value <= u32::MAX,
        decreases text.len() - i,
    {
        let c = text[i];
        assert(c == digits[i - begin]);
        if !('0' <= c && c <= '9') {
            assert(!is_digit(digits[i - begin]));
            return None;
        }
        let d: u64 = (c as u32 - '0' as u32) as u64;
        proof {
            assert(digits.take(i - begin + 1).drop_last() =~= digits.take(i - begin));
        }
        value = value * 10 + d;
        if value > 0xFFFF_FFFF {
            proof {
                lemma_digits_value_grows(digits, i - begin + 1);
                assert(digits_value(digits.take(i - begin + 1)) == value);
            }
            return None;
        }
        i += 1;
    }
    assert(digits.take(i - begin) =~= digits);
    Some(value as u32)
}

} // verus!
