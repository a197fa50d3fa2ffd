//! Calendar dates and date-times as plain values, with the compact
//! `YYYYMMDDTHHMMSSZ` text format and minute-granularity durations.
//!
//! Time stamps arrive as text in a fixed compact form: four year digits,
//! two month digits, two day digits, a literal `T`, six time digits and a
//! literal `Z`. An unparseable stamp is reported as absent rather than as an
//! error. Durations between two stamps are whole minutes, truncated toward
//! zero.

use vstd::prelude::*;

verus! {

/// A calendar date in the proleptic Gregorian calendar.
#[derive(Clone, Copy, Debug, PartialEq, Eq, Structural)]
pub struct Date {
    pub year: u16,
    pub month: u8,
    pub day: u8,
}

/// A date with a time of day, to second precision.
#[derive(Clone, Copy, Debug, PartialEq, Eq, Structural)]
pub struct DateTime {
    pub date: Date,
    pub hour: u8,
    pub minute: u8,
    pub second: u8,
}

pub open spec fn is_leap_year(y: int) -> bool {
    (y % 4 == 0 && y % 100 != 0) || y % 400 == 0
}

pub open spec fn days_in_month(y: int, m: int) -> int {
    if m == 2 {
        if is_leap_year(y) {
            29
        } else {
            28
        }
    } else if m == 4 || m == 6 || m == 9 || m == 11 {
        30
    } else {
        31
    }
}

/// A date names a real calendar day; years run from 0 to 9999.
pub open spec fn date_wf(d: Date) -> bool {
    d.year <= 9999 && 1 <= d.month <= 12 && 1 <= d.day <= days_in_month(
        d.year as int,
        d.month as int,
    )
}

pub open spec fn datetime_wf(dt: DateTime) -> bool {
    date_wf(dt.date) && dt.hour < 24 && dt.minute < 60 && dt.second < 60
}

/// Number of leap years in the range `[0, y)` of the proleptic Gregorian
/// calendar (year 0 itself is a leap year).
pub open spec fn leap_years_before(y: int) -> int
    recommends
        y >= 0,
{
    (y + 3) / 4 - (y + 99) / 100 + (y + 399) / 400
}

/// Days of the months preceding month `m` in year `y`.
pub open spec fn days_before_month(y: int, m: int) -> int {
    let base: int = if m <= 1 {
        0
    } else if m == 2 {
        31
    } else if m == 3 {
        59
    } else if m == 4 {
        90
    } else if m == 5 {
        120
    } else if m == 6 {
        151
    } else if m == 7 {
        181
    } else if m == 8 {
        212
    } else if m == 9 {
        243
    } else if m == 10 {
        273
    } else if m == 11 {
        304
    } else {
        334
    };
    if m > 2 && is_leap_year(y) {
        base + 1
    } else {
        base
    }
}

/// Days elapsed from 0000-01-01 to the given date.
pub open spec fn day_index(d: Date) -> int {
    d.year * 365 + leap_years_before(d.year as int) + days_before_month(
        d.year as int,
        d.month as int,
    ) + d.day - 1
}

/// Seconds elapsed from 0000-01-01 00:00:00 to the given date-time.
pub open spec fn total_seconds(dt: DateTime) -> int {
    day_index(dt.date) * 86400 + dt.hour * 3600 + dt.minute * 60 + dt.second
}

/// Whole minutes from `s` to `e`, truncated toward zero, negative when `e`
/// lies before `s`.
pub open spec fn duration_minutes_spec(s: DateTime, e: DateTime) -> int {
    let ss = total_seconds(s);
    let es = total_seconds(e);
    if es >= ss {
        (es - ss) / 60
    } else {
        -((ss - es) / 60)
    }
}

fn leap_year(y: u16) -> (b: bool)
    ensures
        b == is_leap_year(y as int),
{
    (y % 4 == 0 && y % 100 != 0) || y % 400 == 0
}

fn days_in_month_of(y: u16, m: u8) -> (n: u8)
    ensures
        n == days_in_month(y as int, m as int),
{
    if m == 2 {
        if leap_year(y) {
            29
        } else {
            28
        }
    } else if m == 4 || m == 6 || m == 9 || m == 11 {
        30
    } else {
        31
    }
}

fn days_before_month_of(y: u16, m: u8) -> (n: u16)
    ensures
        n == days_before_month(y as int, m as int),
{
    let base: u16 = if m <= 1 {
        0
    } else if m == 2 {
        31
    } else if m == 3 {
        59
    } else if m == 4 {
        90
    } else if m == 5 {
        120
    } else if m == 6 {
        151
    } else if m == 7 {
        181
    } else if m == 8 {
        212
    } else if m == 9 {
        243
    } else if m == 10 {
        273
    } else if m == 11 {
        304
    } else {
        334
    };
    if m > 2 && leap_year(y) {
        base + 1
    } else {
        base
    }
}

fn day_index_of(d: Date) -> (n: u64)
    ensures
        n == day_index(d) + 1,
{
    let y = d.year as u64;
    let leaps = (y + 3) / 4 - (y + 99) / 100 + (y + 399) / 400;
    y * 365 + leaps + days_before_month_of(d.year, d.month) as u64 + d.day as u64
}

fn total_seconds_of(dt: &DateTime) -> (n: u64)
    ensures
        n == total_seconds(*dt) + 86400,
{
    day_index_of(dt.date) * 86400 + dt.hour as u64 * 3600 + dt.minute as u64 * 60
        + dt.second as u64
}

/// Whole minutes from `s` to `e`, truncated toward zero.
pub fn duration_minutes(s: &DateTime, e: &DateTime) -> (m: i64)
    ensures
        m == duration_minutes_spec(*s, *e),
{
    let ss = total_seconds_of(s);
    let es = total_seconds_of(e);
    if es >= ss {
        ((es - ss) / 60) as i64
    } else {
        -(((ss - es) / 60) as i64)
    }
}

pub open spec fn is_digit(c: char) -> bool {
    48 <= c as u32 <= 57
}

pub open spec fn digit_val(c: char) -> int {
    c as u32 - 48
}

pub open spec fn two_digits(s: Seq<char>, off: int) -> int {
    digit_val(s[off]) * 10 + digit_val(s[off + 1])
}

pub open spec fn four_digits(s: Seq<char>, off: int) -> int {
    digit_val(s[off]) * 1000 + digit_val(s[off + 1]) * 100 + digit_val(s[off + 2]) * 10
        + digit_val(s[off + 3])
}

/// The text has the exact compact shape: eight date digits, `T`, six time
/// digits, `Z`.
pub open spec fn compact_shape_ok(s: Seq<char>) -> bool {
    &&& s.len() == 16
    &&& forall|i: int| 0 <= i < 8 ==> is_digit(#[trigger] s[i])
    &&& s[8] == 'T'
    &&& forall|i: int| 9 <= i < 15 ==> is_digit(#[trigger] s[i])
    &&& s[15] == 'Z'
}

/// The date-time spelled by a text of compact shape.
pub open spec fn compact_fields(s: Seq<char>) -> DateTime {
    DateTime {
        date: Date {
            year: four_digits(s, 0) as u16,
            month: two_digits(s, 4) as u8,
            day: two_digits(s, 6) as u8,
        },
        hour: two_digits(s, 9) as u8,
        minute: two_digits(s, 11) as u8,
        second: two_digits(s, 13) as u8,
    }
}

/// What parsing a compact time stamp yields: the spelled date-time when the
/// shape is right and the fields name a real calendar moment, absent
/// otherwise.
pub open spec fn parse_compact_spec(s: Seq<char>) -> Option<DateTime> {
    if compact_shape_ok(s) && datetime_wf(compact_fields(s)) {
        Some(compact_fields(s))
    } else {
        None
    }
}

fn read_digit(s: &str, i: usize) -> (r: Option<u16>)
    requires
        i < s@.len(),
    ensures
        r is Some <==> is_digit(s@[i as int]),
        r matches Some(v) ==> v == digit_val(s@[i as int]),
{
    let c = s.get_char(i);
    let u = c as u32;
    if 48 <= u && u <= 57 {
        Some((u - 48) as u16)
    } else {
        None
    }
}

fn read_two_digits(s: &str, i: usize) -> (r: Option<u16>)
    requires
        i + 1 < s@.len(),
        i + 1 < usize::MAX,
    ensures
        r is Some <==> is_digit(s@[i as int]) && is_digit(s@[i as int + 1]),
        r matches Some(v) ==> v == two_digits(s@, i as int),
{
    match (read_digit(s, i), read_digit(s, i + 1)) {
        (Some(a), Some(b)) => Some(a * 10 + b),
        _ => None,
    }
}

/// Parse a compact `YYYYMMDDTHHMMSSZ` time stamp; any text that does not
/// spell a real calendar moment in that exact shape yields `None`.
pub fn tw_date_parser(s: &str) -> (r: Option<DateTime>)
    ensures
        r == parse_compact_spec(s@),
{
    let n = s.unicode_len();
    if n != 16 {
        return None;
    }
    if s.get_char(8) != 'T' || s.get_char(15) != 'Z' {
        return None;
    }
    let year = match (read_two_digits(s, 0), read_two_digits(s, 2)) {
        (Some(a), Some(b)) => a * 100 + b,
        _ => { return None; },
    };
    let month = match read_two_digits(s, 4) {
        Some(v) => v as u8,
        None => { return None; },
    };
    let day = match read_two_digits(s, 6) {
        Some(v) => v as u8,
        None => { return None; },
    };
    let hour = match read_two_digits(s, 9) {
        Some(v) => v as u8,
        None => { return None; },
    };
    let minute = match read_two_digits(s, 11) {
        Some(v) => v as u8,
        None => { return None; },
    };
    let second = match read_two_digits(s, 13) {
        Some(v) => v as u8,
        None => { return None; },
    };
    assert(compact_shape_ok(s@));
    let dt = DateTime { date: Date { year, month, day }, hour, minute, second };
    assert(dt == compact_fields(s@));
    if month < 1 || month > 12 || day < 1 || day > days_in_month_of(year, month) || hour >= 24
        || minute >= 60 || second >= 60 {
        return None;
    }
    Some(dt)
}

} // verus!
