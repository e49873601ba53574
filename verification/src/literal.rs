//! Integer literals: from decimal text to a number.

use vstd::prelude::*;
use vstd::string::StrSliceExecFns;

verus! {

/// The value of a decimal digit; `None` for any other character.
pub open spec fn digit_of(c: char) -> Option<int> {
    if c == '0' {
        Some(0)
    } else if c == '1' {
        Some(1)
    } else if c == '2' {
        Some(2)
    } else if c == '3' {
        Some(3)
    } else if c == '4' {
        Some(4)
    } else if c == '5' {
        Some(5)
    } else if c == '6' {
        Some(6)
    } else if c == '7' {
        Some(7)
    } else if c == '8' {
        Some(8)
    } else if c == '9' {
        Some(9)
    } else {
        None
    }
}

/// Whether every character is a decimal digit.
pub open spec fn all_digits(s: Seq<char>) -> bool {
    forall|i: int| 0 <= i < s.len() ==> digit_of(#[trigger] s[i]) is Some
}

/// The number that a run of decimal digits writes, most significant digit
/// first. A character that is no digit counts as 0.
pub open spec fn digits_value(s: Seq<char>) -> int
    decreases s.len(),
{
    if s.len() == 0 {
        0
    } else {
        digits_value(s.drop_last()) * 10 + match digit_of(s.last()) {
            Some(d) => d,
            None => 0,
        }
    }
}

/// The number that a text writes, if it is an optional sign, `+` or `-`,
/// and then at least one decimal digit and nothing else, and the number fits
/// in 32 bits with sign.
pub open spec fn int_of(text: Seq<char>) -> Option<i32> {
    let negative = text.len() > 0 && text[0] == '-';
    let signed = text.len() > 0 && (text[0] == '-' || text[0] == '+');
    let digits = if signed {
        text.subrange(1, text.len() as int)
    } else {
        text
    };
    if digits.len() == 0 || !all_digits(digits) {
        None
    } else {
        let value = if negative {
            -digits_value(digits)
        } else {
            digits_value(digits)
        };
        if i32::MIN <= value <= i32::MAX {
            Some(value as i32)
        } else {
            None
        }
    }
}

/// The digits read so far never write more than all the digits do.
pub proof fn lemma_digits_value_prefix(s: Seq<char>, k: int)
    requires
        0 <= k <= s.len(),
    ensures
        0 <= digits_value(s.subrange(0, k)) <= digits_value(s),
    decreases s.len(),
{
    if k == s.len() {
        assert(s.subrange(0, k) =~= s);
        lemma_digits_value_nonnegative(s);
    } else {
        lemma_digits_value_prefix(s.drop_last(), k);
        assert(s.drop_last().subrange(0, k) =~= s.subrange(0, k));
        lemma_digits_value_nonnegative(s.drop_last());
    }
}

/// A run of digits writes no negative number.
pub proof fn lemma_digits_value_nonnegative(s: Seq<char>)
    ensures
        0 <= digits_value(s),
    decreases s.len(),
{
    if s.len() > 0 {
        lemma_digits_value_nonnegative(s.drop_last());
    }
}

/// The value of a decimal digit; `None` for any other character.
pub fn digit(c: char) -> (d: Option<i64>)
    ensures
        match d {
            Some(v) => digit_of(c) == Some(v as int),
            None => digit_of(c) is None,
        },
{
    if c == '0' {
        Some(0)
    } else if c == '1' {
        Some(1)
    } else if c == '2' {
        Some(2)
    } else if c == '3' {
        Some(3)
    } else if c == '4' {
        Some(4)
    } else if c == '5' {
        Some(5)
    } else if c == '6' {
        Some(6)
    } else if c == '7' {
        Some(7)
    } else if c == '8' {
        Some(8)
    } else if c == '9' {
        Some(9)
    } else {
        None
    }
}

/// Reads an integer literal: an optional sign, then decimal digits. Gives
/// `None` where the text is anything else or the number does not fit.
pub fn parse_int(text: &str) -> (r: Option<i32>)
    ensures
        r == int_of(text@),
{
    let n = text.unicode_len();
    if n == 0 {
        return None;
    }
    let first = text.get_char(0);
    let negative = first == '-';
    let start: usize = if first == '-' || first == '+' {
        1
    } else {
        0
    };
    let ghost digits = text@.subrange(start as int, n as int);
    if start == n {
        return None;
    }
    let mut acc: i64 = 0;
    let mut i: usize = start;
    proof {
        assert(digits.subrange(0, 0) =~= Seq::<char>::empty());
    }
    while i < n
        invariant
            start <= i <= n,
            start < n,
            n == text@.len(),
            negative == (text@[0] == '-'),
            start == (if text@[0] == '-' || text@[0] == '+' {
                1int
            } else {
                0int
            }),
            digits == text@.subrange(start as int, n as int),
            all_digits(digits.subrange(0, i - start)),
            acc == digits_value(digits.subrange(0, i - start)),
            0 <= acc <= 2147483648,
        decreases n - i,
    {
        let c = text.get_char(i);
        let ghost read = digits.subrange(0, i - start);
        let ghost more = digits.subrange(0, i - start + 1);
        proof {
            assert(more.drop_last() =~= read);
            assert(more.last() == c);
            assert(digits[i - start] == c);
        }
        let d = match digit(c) {
            Some(d) => d,
            None => {
                proof {
                    assert(digit_of(digits[i - start]) is None);
                }
                return None;
            },
        };
        acc = acc * 10 + d;
        proof {
            assert forall|k: int| 0 <= k < more.len() implies digit_of(
                #[trigger] more[k],
            ) is Some by {
                if k < read.len() {
                    assert(more[k] == read[k]);
                }
            }
        }
        proof {
            assert(acc == digits_value(more));
        }
        if acc > 2147483648 {
            proof {
                lemma_digits_value_prefix(digits, i - start + 1);
                assert(text@.subrange(0, n as int) =~= text@);
            }
            return None;
        }
        i += 1;
    }
    proof {
        assert(digits.subrange(0, n - start) =~= digits);
        assert(text@.subrange(0, n as int) =~= text@);
    }
    if negative {
        let value = -acc;
        Some(value as i32)
    } else if acc > 2147483647 {
        None
    } else {
        Some(acc as i32)
    }
}

} // verus!
