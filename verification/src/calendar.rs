//! Calendar dates for the reservations listing.
//!
//! A date filter arrives as a query parameter of the exact shape
//! `YYYY-MM-DD`.  This module parses and validates that shape itself —
//! including month lengths and leap years — and then asks chrono for the
//! two timestamps that bound the day: its first second and its last.

use vstd::prelude::*;

verus! {

/// Whether `c` is an ASCII decimal digit.
pub open spec fn is_digit(c: char) -> bool {
    48 <= c as u32 <= 57
}

/// The value of the ASCII decimal digit `c`.
pub open spec fn digit_val(c: char) -> int {
    c as u32 - 48
}

/// Whether the year `y` is a leap year of the Gregorian calendar.
pub open spec fn is_leap_year(y: int) -> bool {
    y % 4 == 0 && (y % 100 != 0 || y % 400 == 0)
}

/// How many days the month `m` of the year `y` has.
pub open spec fn days_in_month(y: int, m: int) -> int {
    if m == 2 {
        if is_leap_year(y) {
            29
        } else {
            28
        }
    } else if m == 4 || m == 6 || m == 9 || m == 11 {
        30
    } else {
        31
    }
}

/// Whether year `y`, month `m` and day `d` name a calendar day that exists,
/// within the four-digit years.
pub open spec fn valid_ymd(y: int, m: int, d: int) -> bool {
    &&& 0 <= y <= 9999
    &&& 1 <= m <= 12
    &&& 1 <= d <= days_in_month(y, m)
}

/// The year named by the first four characters of a `YYYY-MM-DD` string.
pub open spec fn year_of(s: Seq<char>) -> int {
    digit_val(s[0]) * 1000 + digit_val(s[1]) * 100 + digit_val(s[2]) * 10 + digit_val(s[3])
}

/// The month named by a `YYYY-MM-DD` string.
pub open spec fn month_of(s: Seq<char>) -> int {
    digit_val(s[5]) * 10 + digit_val(s[6])
}

/// The day of the month named by a `YYYY-MM-DD` string.
pub open spec fn day_of(s: Seq<char>) -> int {
    digit_val(s[8]) * 10 + digit_val(s[9])
}

/// Whether the characters spell an existing calendar day as `YYYY-MM-DD`:
/// exactly ten characters, digits and dashes in their places, and a day
/// that the named month of the named year really has.
pub open spec fn valid_date_chars(s: Seq<char>) -> bool {
    &&& s.len() == 10
    &&& is_digit(s[0]) && is_digit(s[1]) && is_digit(s[2]) && is_digit(s[3])
    &&& s[4] == '-'
    &&& is_digit(s[5]) && is_digit(s[6])
    &&& s[7] == '-'
    &&& is_digit(s[8]) && is_digit(s[9])
    &&& valid_ymd(year_of(s), month_of(s), day_of(s))
}

/// The digit value of `c`, or nothing if `c` is no digit.
fn digit_of(c: char) -> (r: Option<u32>)
    ensures
        r is Some <==> is_digit(c),
        r matches Some(v) ==> v == digit_val(c) && v <= 9,
{
    let v = c as u32;
    if 48 <= v && v <= 57 {
        Some(v - 48)
    } else {
        None
    }
}

/// How many days the month `m` of the year `y` has.
fn month_length(y: u32, m: u32) -> (r: u32)
    requires
        1 <= m <= 12,
    ensures
        r == days_in_month(y as int, m as int),
{
    if m == 2 {
        if y % 4 == 0 && (y % 100 != 0 || y % 400 == 0) {
            29
        } else {
            28
        }
    } else if m == 4 || m == 6 || m == 9 || m == 11 {
        30
    } else {
        31
    }
}

/// Parse a date of the exact shape `YYYY-MM-DD`.  Returns the year, month
/// and day precisely when the string spells an existing calendar day, and
/// nothing otherwise.
pub fn parse_date(s: &str) -> (r: Option<(u32, u32, u32)>)
    ensures
        r is Some <==> valid_date_chars(s@),
        r matches Some(ymd) ==> ymd.0 == year_of(s@) && ymd.1 == month_of(s@) && ymd.2 == day_of(
            s@,
        ) && valid_ymd(ymd.0 as int, ymd.1 as int, ymd.2 as int),
{
    if s.unicode_len() != 10 {
        return None;
    }
    if s.get_char(4) as u32 != 45 || s.get_char(7) as u32 != 45 {
        return None;
    }
    proof {
        assert('-' as u32 == 45);
    }
    let y = match (
        digit_of(s.get_char(0)),
        digit_of(s.get_char(1)),
        digit_of(s.get_char(2)),
        digit_of(s.get_char(3)),
    ) {
        (Some(a), Some(b), Some(c), Some(d)) => a * 1000 + b * 100 + c * 10 + d,
        _ => {
            return None;
        },
    };
    let m = match (digit_of(s.get_char(5)), digit_of(s.get_char(6))) {
        (Some(a), Some(b)) => a * 10 + b,
        _ => {
            return None;
        },
    };
    let d = match (digit_of(s.get_char(8)), digit_of(s.get_char(9))) {
        (Some(a), Some(b)) => a * 10 + b,
        _ => {
            return None;
        },
    };
    if m < 1 || m > 12 {
        return None;
    }
    if d < 1 || d > month_length(y, m) {
        return None;
    }
    Some((y, m, d))
}

/// The timestamp of 00:00:00 on the day named by year, month and day of the
/// Gregorian calendar, in the seconds of the clock module.  What the value
/// is on given arguments only chrono says; the library states only how the
/// day's two bounds relate.
pub uninterp spec fn day_start_seconds(y: int, m: int, d: int) -> int;

/// Relies on chrono's `NaiveDate::from_ymd_opt` and `and_hms_opt` (read as
/// timestamps through `and_utc` and `timestamp`): the bounds of a calendar
/// day.  Both calls succeed on every existing four-digit-year date, the
/// result depends on the arguments alone, and the day's last second,
/// 23:59:59, lies exactly 86399 non-leap seconds after its first.
#[verifier::external_body]
fn day_limits(y: u32, m: u32, d: u32) -> (r: (i64, i64))
    requires
        valid_ymd(y as int, m as int, d as int),
    ensures
        r.0 == day_start_seconds(y as int, m as int, d as int),
        r.1 == r.0 + 86399,
{
    let date = chrono::NaiveDate::from_ymd_opt(y as i32, m, d).unwrap();
    let lo = date.and_hms_opt(0, 0, 0).unwrap().and_utc().timestamp();
    let hi = date.and_hms_opt(23, 59, 59).unwrap().and_utc().timestamp();
    (lo, hi)
}

/// The timestamps of the first and the last second of the day a
/// `YYYY-MM-DD` string names: the whole day is the closed interval between
/// the two.  Returns nothing precisely when the string spells no existing
/// calendar day.
pub fn day_bounds(s: &str) -> (r: Option<(i64, i64)>)
    ensures
        r is Some <==> valid_date_chars(s@),
        r matches Some(b) ==> b.0 == day_start_seconds(year_of(s@), month_of(s@), day_of(s@))
            && b.1 == b.0 + 86399,
{
    match parse_date(s) {
        Some((y, m, d)) => Some(day_limits(y, m, d)),
        None => None,
    }
}

} // verus!
