//! Whole numbers read from decimal text.

use vstd::prelude::*;
use vstd::string::StrSliceExecFns;

verus! {

/// The value of a decimal digit, or `None` for any other character.
pub open spec fn digit_value(c: char) -> Option<int> {
    if c == '0' {
        Some(0)
    } else if c == '1' {
        Some(1)
    } else if c == '2' {
        Some(2)
    } else if c == '3' {
        Some(3)
    } else if c == '4' {
        Some(4)
    } else if c == '5' {
        Some(5)
    } else if c == '6' {
        Some(6)
    } else if c == '7' {
        Some(7)
    } else if c == '8' {
        Some(8)
    } else if c == '9' {
        Some(9)
    } else {
        None
    }
}

/// The number that a run of decimal digits stands for, or `None` where a
/// character is no digit. The empty run stands for 0.
pub open spec fn digits_value(digits: Seq<char>) -> Option<int>
    decreases digits.len(),
{
    if digits.len() == 0 {
        Some(0)
    } else {
        match (digits_value(digits.drop_last()), digit_value(digits.last())) {
            (Some(front), Some(d)) => Some(front * 10 + d),
            _ => None,
        }
    }
}

/// The digits of a number written with an optional sign.
pub open spec fn unsigned_part(text: Seq<char>) -> Seq<char> {
    if text.len() > 0 && (text[0] == '-' || text[0] == '+') {
        text.drop_first()
    } else {
        text
    }
}

/// The 64-bit signed integer that a text stands for: an optional `+` or
/// `-`, then one decimal digit or more and nothing else. `None` where the
/// text is not of this form or the number does not fit.
pub open spec fn parsed_i64(text: Seq<char>) -> Option<i64> {
    let digits = unsigned_part(text);
    if digits.len() == 0 {
        None
    } else {
        match digits_value(digits) {
            None => None,
            Some(magnitude) => {
                let n = if text[0] == '-' {
                    -magnitude
                } else {
                    magnitude
                };
                if i64::MIN <= n <= i64::MAX {
                    Some(n as i64)
                } else {
                    None
                }
            },
        }
    }
}

/// The value of a run of digits is not negative, and it does not shrink
/// when the run grows.
proof fn lemma_digits_grow(digits: Seq<char>, n: int)
    requires
        0 <= n <= digits.len(),
    ensures
        digits_value(digits) matches Some(v) ==> v >= 0 && (digits_value(digits.subrange(0, n))
            matches Some(w) && 0 <= w <= v),
        digits_value(digits.subrange(0, n)) is None ==> digits_value(digits) is None,
    decreases digits.len() - n,
{
    if n < digits.len() {
        lemma_digits_grow(digits, n + 1);
        assert(digits.subrange(0, n + 1).drop_last() =~= digits.subrange(0, n));
        lemma_digits_nonnegative(digits.subrange(0, n));
    } else {
        assert(digits.subrange(0, n) =~= digits);
        lemma_digits_nonnegative(digits);
    }
}

/// The value of a run of digits is not negative.
proof fn lemma_digits_nonnegative(digits: Seq<char>)
    ensures
        digits_value(digits) matches Some(v) ==> v >= 0,
    decreases digits.len(),
{
    if digits.len() > 0 {
        lemma_digits_nonnegative(digits.drop_last());
    }
}

/// The value of the digit `c`, if it is one.
fn digit_of(c: char) -> (d: Option<u8>)
    ensures
        match d {
            Some(v) => digit_value(c) == Some(v as int) && v < 10,
            None => digit_value(c) is None,
        },
{
    if c == '0' {
        Some(0)
    } else if c == '1' {
        Some(1)
    } else if c == '2' {
        Some(2)
    } else if c == '3' {
        Some(3)
    } else if c == '4' {
        Some(4)
    } else if c == '5' {
        Some(5)
    } else if c == '6' {
        Some(6)
    } else if c == '7' {
        Some(7)
    } else if c == '8' {
        Some(8)
    } else if c == '9' {
        Some(9)
    } else {
        None
    }
}

/// Reads a 64-bit signed integer from decimal text.
pub fn parse_i64(text: &str) -> (r: Option<i64>)
    ensures
        r == parsed_i64(text@),
{
    let len = text.unicode_len();
    if len == 0 {
        return None;
    }
    let first = text.get_char(0);
    let negative = first == '-';
    let start: usize = if first == '-' || first == '+' {
        1
    } else {
        0
    };
    if start == len {
        assert(unsigned_part(text@).len() == 0);
        return None;
    }
    let ghost digits = unsigned_part(text@);
    assert(digits =~= text@.subrange(start as int, len as int));
    // The magnitude, as long as it does not exceed 2^63.
    let limit: u128 = 0x8000_0000_0000_0000;
    let mut magnitude: u128 = 0;
    let mut i: usize = start;
    assert(digits.subrange(0, 0) =~= Seq::<char>::empty());
    while i < len
        invariant
            start <= i <= len,
            len == text@.len(),
            digits == text@.subrange(start as int, len as int),
            digits == unsigned_part(text@),
            digits.len() > 0,
            limit == 0x8000_0000_0000_0000,
            magnitude <= limit,
            digits_value(digits.subrange(0, i - start)) == Some(magnitude as int),
        decreases len - i,
    {
        let ghost done = digits.subrange(0, i - start);
        let ghost next = digits.subrange(0, i - start + 1);
        proof {
            assert(next.drop_last() =~= done);
            assert(next.last() == text@[i as int]);
            lemma_digits_grow(digits, i - start + 1);
        }
        match digit_of(text.get_char(i)) {
            None => {
                return None;
            },
            Some(d) => {
                let grown: u128 = magnitude * 10 + d as u128;
                if grown > limit {
                    return None;
                }
                magnitude = grown;
            },
        }
        i += 1;
    }
    assert(digits.subrange(0, i - start) =~= digits);
    if negative {
        if magnitude == limit {
            Some(i64::MIN)
        } else {
            Some(-(magnitude as i64))
        }
    } else if magnitude == limit {
        None
    } else {
        Some(magnitude as i64)
    }
}

} // verus!
