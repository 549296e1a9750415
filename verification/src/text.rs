//! What the library asks of strings beyond equality and order.

use vstd::prelude::*;

verus! {

/// Whether a character is one of `0` to `9`.
pub open spec fn is_digit(c: char) -> bool {
    48 <= c as u32 <= 57
}

/// The number that a sequence of digits writes in base ten.
pub open spec fn digits_value(s: Seq<char>) -> int
    decreases s.len(),
{
    if s.len() == 0 {
        0
    } else {
        digits_value(s.drop_last()) * 10 + (s.last() as u32 - 48)
    }
}

/// The number that a string writes: an optional sign, `+` or `-`, then one
/// digit or more and nothing else. `None` for any other string.
pub open spec fn written_integer(s: Seq<char>) -> Option<int> {
    let signed = s.len() > 0 && (s[0] == '-' || s[0] == '+');
    let digits = if signed {
        s.skip(1)
    } else {
        s
    };
    if digits.len() == 0 || exists|i: int| 0 <= i < digits.len() && !is_digit(#[trigger] digits[i]) {
        None
    } else if s[0] == '-' {
        Some(-digits_value(digits))
    } else {
        Some(digits_value(digits))
    }
}

/// The `i64` that a string writes. `None` where it writes no integer, or one
/// that an `i64` cannot hold.
pub open spec fn written_i64(s: Seq<char>) -> Option<i64> {
    match written_integer(s) {
        Some(n) => if i64::MIN <= n <= i64::MAX {
            Some(n as i64)
        } else {
            None
        },
        None => None,
    }
}

/// Whether `s` begins with `prefix`.
pub open spec fn begins_with(s: Seq<char>, prefix: Seq<char>) -> bool {
    prefix.len() <= s.len() && s.take(prefix.len() as int) == prefix
}

/// `str::parse::<i64>` of std: the integer that the string writes in base
/// ten. The string is an optional sign followed by digits only; an empty
/// string, one without digits, any other character (white space too) and a
/// number out of the range of `i64` give an error, here `None`.
#[verifier::external_body]
pub(crate) fn parse_i64(s: &str) -> (r: Option<i64>)
    ensures
        r == written_i64(s@),
{
    s.parse::<i64>().ok()
}

/// `str::starts_with` of std, for a string pattern: whether the pattern
/// matches a prefix of the string.
#[verifier::external_body]
pub(crate) fn starts_with(s: &str, prefix: &str) -> (r: bool)
    ensures
        r == begins_with(s@, prefix@),
{
    s.starts_with(prefix)
}

} // verus!
