//! ISO 8601 dates, times and date-times as the validator accepts them.

use vstd::prelude::*;
use crate::text::{char_is_digit, chars_of, digit_of, digit_value, is_digit, subvec};

verus! {

/// Two decimal digits stand at `s[i]` and `s[i + 1]`.
pub open spec fn two_digits(s: Seq<char>, i: int) -> bool {
    0 <= i && i + 1 < s.len() && is_digit(s[i]) && is_digit(s[i + 1])
}

/// The number that the two digits at `s[i]` write.
pub open spec fn two_digit_value(s: Seq<char>, i: int) -> int {
    digit_value(s[i]) * 10 + digit_value(s[i + 1])
}

/// The Gregorian leap-year rule.
pub open spec fn is_leap_year(year: int) -> bool {
    (year % 4 == 0 && year % 100 != 0) || year % 400 == 0
}

/// The number of days of a month; 0 where `month` is none.
pub open spec fn days_in_month(year: int, month: int) -> int {
    if month == 1 || month == 3 || month == 5 || month == 7 || month == 8 || month == 10 || month
        == 12 {
        31
    } else if month == 4 || month == 6 || month == 9 || month == 11 {
        30
    } else if month == 2 {
        if is_leap_year(year) {
            29
        } else {
            28
        }
    } else {
        0
    }
}

/// The year that the four digits at the start of `s` write.
pub open spec fn year_value(s: Seq<char>) -> int {
    two_digit_value(s, 0) * 100 + two_digit_value(s, 2)
}

/// `YYYY-MM-DD`: ten characters, digits and hyphens in their places, a year
/// from 1000 on, and a day that the month has in that year.
pub open spec fn is_iso_date(s: Seq<char>) -> bool {
    &&& s.len() == 10
    &&& two_digits(s, 0)
    &&& two_digits(s, 2)
    &&& s[4] == '-'
    &&& two_digits(s, 5)
    &&& s[7] == '-'
    &&& two_digits(s, 8)
    &&& year_value(s) >= 1000
    &&& 1 <= two_digit_value(s, 5) <= 12
    &&& 1 <= two_digit_value(s, 8) <= days_in_month(year_value(s), two_digit_value(s, 5))
}

/// The number of digits at the start of `s`.
pub open spec fn digit_run(s: Seq<char>) -> int
    decreases s.len(),
{
    if s.len() > 0 && is_digit(s[0]) {
        1 + digit_run(s.drop_first())
    } else {
        0
    }
}

/// The digits at the start of a text are digits, and what follows them is none.
pub proof fn lemma_digit_run(s: Seq<char>)
    ensures
        0 <= digit_run(s) <= s.len(),
        forall|i: int| 0 <= i < digit_run(s) ==> is_digit(#[trigger] s[i]),
        digit_run(s) < s.len() ==> !is_digit(s[digit_run(s)]),
    decreases s.len(),
{
    if s.len() > 0 && is_digit(s[0]) {
        lemma_digit_run(s.drop_first());
        assert forall|i: int| 0 <= i < digit_run(s) implies is_digit(#[trigger] s[i]) by {
            if i > 0 {
                assert(s[i] == s.drop_first()[i - 1]);
            }
        }
    }
}

/// A time zone: nothing, `Z`, or `+HH:MM` or `-HH:MM`.
pub open spec fn is_zone(z: Seq<char>) -> bool {
    ||| z.len() == 0
    ||| (z.len() == 1 && z[0] == 'Z')
    ||| (z.len() == 6 && (z[0] == '+' || z[0] == '-') && two_digits(z, 1) && z[3] == ':'
        && two_digits(z, 4))
}

/// What may follow the seconds: optionally `.` and one digit or more, then
/// a time zone.
pub open spec fn is_time_suffix(t: Seq<char>) -> bool {
    if t.len() > 0 && t[0] == '.' {
        let n = digit_run(t.skip(1));
        n >= 1 && 1 + n <= t.len() && is_zone(t.skip(1 + n))
    } else {
        is_zone(t)
    }
}

/// `HH:MM:SS[.fraction][Z|±HH:MM]` with hours to 23, minutes and seconds
/// to 59.
pub open spec fn is_iso_time(s: Seq<char>) -> bool {
    &&& s.len() >= 8
    &&& two_digits(s, 0)
    &&& s[2] == ':'
    &&& two_digits(s, 3)
    &&& s[5] == ':'
    &&& two_digits(s, 6)
    &&& two_digit_value(s, 0) <= 23
    &&& two_digit_value(s, 3) <= 59
    &&& two_digit_value(s, 6) <= 59
    &&& is_time_suffix(s.skip(8))
}

/// A date, `T`, and a time.
pub open spec fn is_iso_datetime(s: Seq<char>) -> bool {
    s.len() >= 11 && s[10] == 'T' && is_iso_date(s.take(10)) && is_iso_time(s.skip(11))
}

/// Reads the two digits at `s[i]`.
fn read_two_digits(s: &Vec<char>, i: usize) -> (r: Option<u8>)
    ensures
        match r {
            Some(v) => two_digits(s@, i as int) && v as int == two_digit_value(s@, i as int),
            None => !two_digits(s@, i as int),
        },
{
    if i >= s.len() || s.len() - i < 2 {
        return None;
    }
    if char_is_digit(s[i]) && char_is_digit(s[i + 1]) {
        Some(digit_of(s[i]) * 10 + digit_of(s[i + 1]))
    } else {
        None
    }
}

fn leap_year(year: u16) -> (r: bool)
    ensures
        r == is_leap_year(year as int),
{
    (year % 4 == 0 && year % 100 != 0) || year % 400 == 0
}

fn month_days(year: u16, month: u8) -> (r: u8)
    ensures
        r as int == days_in_month(year as int, month as int),
{
    match month {
        1 | 3 | 5 | 7 | 8 | 10 | 12 => 31,
        4 | 6 | 9 | 11 => 30,
        2 => if leap_year(year) {
            29
        } else {
            28
        },
        _ => 0,
    }
}

/// Whether the characters write a calendar date.
pub fn is_date_chars(s: &Vec<char>) -> (r: bool)
    ensures
        r == is_iso_date(s@),
{
    if s.len() != 10 {
        return false;
    }
    if s[4] != '-' || s[7] != '-' {
        return false;
    }
    match (read_two_digits(s, 0), read_two_digits(s, 2), read_two_digits(s, 5), read_two_digits(s, 8)) {
        (Some(century), Some(rest), Some(month), Some(day)) => {
            let year: u16 = (century as u16) * 100 + (rest as u16);
            year >= 1000 && 1 <= month && month <= 12 && 1 <= day && day <= month_days(year, month)
        },
        _ => false,
    }
}

fn is_zone_chars(s: &Vec<char>, from: usize) -> (r: bool)
    requires
        from <= s.len(),
    ensures
        r == is_zone(s@.skip(from as int)),
{
    let n = s.len() - from;
    if n == 0 {
        true
    } else if n == 1 {
        s[from] == 'Z'
    } else if n == 6 {
        (s[from] == '+' || s[from] == '-') && read_two_digits(s, from + 1).is_some() && s[from + 3]
            == ':' && read_two_digits(s, from + 4).is_some()
    } else {
        false
    }
}

/// Whether the characters write a time of day.
pub fn is_time_chars(s: &Vec<char>) -> (r: bool)
    ensures
        r == is_iso_time(s@),
{
    if s.len() < 8 {
        return false;
    }
    if s[2] != ':' || s[5] != ':' {
        return false;
    }
    match (read_two_digits(s, 0), read_two_digits(s, 3), read_two_digits(s, 6)) {
        (Some(hours), Some(minutes), Some(seconds)) => {
            if hours > 23 || minutes > 59 || seconds > 59 {
                return false;
            }
            let ghost t = s@.skip(8);
            if s.len() > 8 && s[8] == '.' {
                let mut i: usize = 9;
                assert(t.skip(1) =~= s@.skip(9));
                while i < s.len() && char_is_digit(s[i])
                    invariant
                        9 <= i <= s.len(),
                        forall|j: int| 9 <= j < i ==> is_digit(#[trigger] s@[j]),
                    decreases s.len() - i,
                {
                    i += 1;
                }
                proof {
                    let f = s@.skip(9);
                    lemma_digit_run(f);
                    let n = digit_run(f);
                    if n > i - 9 {
                        assert(f[i - 9] == s@[i as int]);
                    }
                }
                i > 9 && is_zone_chars(s, i)
            } else {
                is_zone_chars(s, 8)
            }
        },
        _ => false,
    }
}

/// Whether the characters write a date, `T` and a time.
pub fn is_datetime_chars(s: &Vec<char>) -> (r: bool)
    ensures
        r == is_iso_datetime(s@),
{
    if s.len() < 11 || s[10] != 'T' {
        return false;
    }
    let date = subvec(s, 0, 10);
    let time = subvec(s, 11, s.len());
    is_date_chars(&date) && is_time_chars(&time)
}

/// Whether `date_str` is a calendar date written `YYYY-MM-DD`.
pub fn is_valid_iso_date(date_str: &str) -> (r: bool)
    ensures
        r == is_iso_date(date_str@),
{
    let chars = chars_of(date_str);
    is_date_chars(&chars)
}

/// Whether `time_str` is a time written `HH:MM:SS[.fraction][Z|±HH:MM]`.
pub fn is_valid_iso_time(time_str: &str) -> (r: bool)
    ensures
        r == is_iso_time(time_str@),
{
    let chars = chars_of(time_str);
    is_time_chars(&chars)
}

/// Whether `datetime_str` is a date and a time with `T` between them.
pub fn is_valid_iso_datetime(datetime_str: &str) -> (r: bool)
    ensures
        r == is_iso_datetime(datetime_str@),
{
    let chars = chars_of(datetime_str);
    is_datetime_chars(&chars)
}

} // verus!
