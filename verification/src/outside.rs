//! What the library takes from outside: random numbers and the local time.

use vstd::prelude::*;

verus! {

/// A decimal digit.
pub open spec fn is_digit(c: char) -> bool {
    '0' as int <= c as int <= '9' as int
}

/// Two digits from place `i` on that stand for a number from `low` to `high`.
pub open spec fn two_digits(s: Seq<char>, i: int, low: int, high: int) -> bool {
    &&& is_digit(s[i]) && is_digit(s[i + 1])
    &&& low <= 10 * (s[i] as int - '0' as int) + (s[i + 1] as int - '0' as int) <= high
}

/// Two digits each for hour, minute and second, a leap second included, with
/// colons in between.
pub open spec fn is_clock(s: Seq<char>) -> bool {
    &&& s.len() == 8
    &&& two_digits(s, 0, 0, 23)
    &&& s[2] == ':'
    &&& two_digits(s, 3, 0, 59)
    &&& s[5] == ':'
    &&& two_digits(s, 6, 0, 60)
}

/// A year: four digits, or a sign and four digits or more.
pub open spec fn is_year(s: Seq<char>) -> bool {
    if s.len() == 4 {
        forall|i: int| 0 <= i < 4 ==> is_digit(#[trigger] s[i])
    } else {
        &&& s.len() > 4
        &&& s[0] == '+' || s[0] == '-'
        &&& forall|i: int| 1 <= i < s.len() ==> is_digit(#[trigger] s[i])
    }
}

/// A year, month and day of two digits each behind a dash, a space and a clock.
pub open spec fn is_stamp(s: Seq<char>) -> bool {
    let n = s.len() as int;
    &&& n >= 19
    &&& is_year(s.take(n - 15))
    &&& s[n - 15] == '-' && two_digits(s, n - 14, 1, 12)
    &&& s[n - 12] == '-' && two_digits(s, n - 11, 1, 31)
    &&& s[n - 9] == ' '
    &&& is_clock(s.skip(n - 8))
}

/// Calls `rand::random` for a `u16`. Nothing is claimed of the number: any may
/// come.
#[verifier::external_body]
pub(crate) fn random_u16() -> (n: u16)
{
    rand::random::<u16>()
}

/// Calls `rand::random` for a `u32`. Nothing is claimed of the number: any may
/// come.
#[verifier::external_body]
pub(crate) fn random_u32() -> (n: u32)
{
    rand::random::<u32>()
}

/// Calls `chrono::Local::now` and writes what it gives with
/// `chrono::DateTime::format`, for the two formats in use here. Claimed is the
/// shape of the text: `%H`, `%M`, `%S`, `%m` and `%d` write two digits each, in
/// the range of an hour, a minute, a second, a month and a day; `%Y` writes four
/// digits or more, and a sign in front of a year outside 0 to 9999. Which time
/// it is, and in which zone, is left open.
#[verifier::external_body]
pub(crate) fn local_time(format: &str) -> (text: String)
    requires
        format@ == "%H:%M:%S"@ || format@ == "%Y-%m-%d %H:%M:%S"@,
    ensures
        format@ == "%H:%M:%S"@ ==> is_clock(text@),
        format@ == "%Y-%m-%d %H:%M:%S"@ ==> is_stamp(text@),
{
    chrono::Local::now().format(format).to_string()
}

} // verus!
