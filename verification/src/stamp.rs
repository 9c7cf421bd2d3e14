//! Timestamps and fresh identifiers, both taken from outside crates.

use vstd::prelude::*;
use crate::text::{digit_value, is_digit};

verus! {

/// Whether every character of `s` is a decimal digit.
pub open spec fn all_digits(s: Seq<char>) -> bool {
    forall|i: int| 0 <= i < s.len() ==> is_digit(#[trigger] s[i])
}

/// The number written by the two digits at `i` and `i + 1` of `s`.
pub open spec fn two_digits(s: Seq<char>, i: int) -> nat {
    digit_value(s[i]) * 10 + digit_value(s[i + 1])
}

/// A year as RFC 3339 text: four digits, or, outside 0 to 9999, a sign
/// followed by at least four digits.
pub open spec fn is_year_text(y: Seq<char>) -> bool {
    ||| y.len() == 4 && all_digits(y)
    ||| y.len() >= 5 && (y[0] == '+' || y[0] == '-') && all_digits(y.drop_first())
}

/// The part `-MM-DDTHH:MM:SS` that follows the year, with a month from 1 to
/// 12, a day from 1 to 31, an hour below 24, a minute below 60 and a second
/// of at most 60 (a leap second).
pub open spec fn is_date_time_text(d: Seq<char>) -> bool {
    &&& d.len() == 15
    &&& d[0] == '-' && d[3] == '-' && d[6] == 'T' && d[9] == ':' && d[12] == ':'
    &&& is_digit(d[1]) && is_digit(d[2]) && is_digit(d[4]) && is_digit(d[5])
    &&& is_digit(d[7]) && is_digit(d[8]) && is_digit(d[10]) && is_digit(d[11])
    &&& is_digit(d[13]) && is_digit(d[14])
    &&& 1 <= two_digits(d, 1) <= 12
    &&& 1 <= two_digits(d, 4) <= 31
    &&& two_digits(d, 7) < 24
    &&& two_digits(d, 10) < 60
    &&& two_digits(d, 13) <= 60
}

/// The fraction of a second: nothing, or a dot and three, six or nine digits.
pub open spec fn is_fraction_text(f: Seq<char>) -> bool {
    ||| f.len() == 0
    ||| (f.len() == 4 || f.len() == 7 || f.len() == 10) && f[0] == '.' && all_digits(f.drop_first())
}

/// The offset from UTC: a sign, two digits of hours, a colon and two digits
/// of minutes below 60.
pub open spec fn is_offset_text(o: Seq<char>) -> bool {
    &&& o.len() == 6
    &&& o[0] == '+' || o[0] == '-'
    &&& is_digit(o[1]) && is_digit(o[2]) && o[3] == ':' && is_digit(o[4]) && is_digit(o[5])
    &&& two_digits(o, 4) < 60
}

/// Whether `t` is a date and time as `chrono` writes RFC 3339: year, the
/// rest of the date and the time of day, the fraction of a second, and the
/// offset from UTC.
pub open spec fn is_rfc3339_text(t: Seq<char>) -> bool {
    exists|y: Seq<char>, d: Seq<char>, f: Seq<char>, o: Seq<char>|
        #![trigger is_year_text(y), is_fraction_text(f), is_offset_text(o), is_date_time_text(d)]
        t == y + d + f + o && is_year_text(y) && is_date_time_text(d) && is_fraction_text(f)
            && is_offset_text(o)
}

/// The current local time: `chrono::Local::now()` rendered by
/// `DateTime::to_rfc3339`. Which time comes depends on the clock and the
/// machine's time zone; the text always has the shape that `to_rfc3339`
/// writes (seconds format `AutoSi`, offset `+HH:MM` with no `Z`).
#[verifier::external_body]
pub(crate) fn now_rfc3339() -> (t: String)
    ensures
        is_rfc3339_text(t@),
{
    chrono::Local::now().to_rfc3339()
}

/// Whether `c` is a lowercase hexadecimal digit.
pub open spec fn is_lower_hex(c: char) -> bool {
    48 <= (c as u32) <= 57 || 97 <= (c as u32) <= 102
}

/// Whether `s` is the text of a version 4 UUID in lowercase hyphenated
/// form: 36 characters, hyphens at 8, 13, 18 and 23, lowercase hex digits
/// elsewhere, the version digit `4` and a variant digit among `8`, `9`,
/// `a`, `b`.
pub open spec fn is_uuid_v4_text(s: Seq<char>) -> bool {
    &&& s.len() == 36
    &&& forall|i: int|
        0 <= i < 36 ==> if i == 8 || i == 13 || i == 18 || i == 23 {
            s[i] == '-'
        } else {
            is_lower_hex(#[trigger] s[i])
        }
    &&& s[14] == '4'
    &&& (s[19] == '8' || s[19] == '9' || s[19] == 'a' || s[19] == 'b')
}

/// A fresh random identifier: `uuid::Uuid::new_v4()` rendered by its
/// `Display` impl. `new_v4` sets the version and variant bits of random
/// bits, and `Display` writes the lowercase hyphenated form; which
/// identifier comes is left open.
#[verifier::external_body]
pub(crate) fn new_uuid() -> (id: String)
    ensures
        is_uuid_v4_text(id@),
{
    uuid::Uuid::new_v4().to_string()
}

} // verus!
