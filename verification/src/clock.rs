//! Calendar times and how they are written.
use vstd::prelude::*;
use crate::text::{decimal, zero_padded};

verus! {

/// A calendar date and time of day, as read off a clock in some time zone.
#[derive(Debug, Clone, Copy, PartialEq, Eq, Structural)]
pub struct CivilTime {
    pub year: i32,
    pub month: u32,
    pub day: u32,
    pub hour: u32,
    pub minute: u32,
    pub second: u32,
    pub nanosecond: u32,
}

pub open spec fn is_leap_year(y: int) -> bool {
    y % 4 == 0 && (y % 100 != 0 || y % 400 == 0)
}

pub open spec fn days_in_month(y: int, m: int) -> int {
    if m == 2 {
        if is_leap_year(y) { 29 } else { 28 }
    } else if m == 4 || m == 6 || m == 9 || m == 11 {
        30
    } else {
        31
    }
}

impl CivilTime {
    /// A date of the proleptic Gregorian calendar and a time of a 24-hour day.
    pub open spec fn wf(self) -> bool {
        &&& -262143 <= self.year <= 262142
        &&& 1 <= self.month <= 12
        &&& 1 <= self.day <= days_in_month(self.year as int, self.month as int)
        &&& self.hour < 24
        &&& self.minute < 60
        &&& self.second < 60
        &&& self.nanosecond < 1_000_000_000
    }
}

/// A number with at least `width` digits.
pub open spec fn padded(n: nat, width: nat) -> Seq<char> {
    zero_padded(decimal(n), width)
}

/// A year: four digits, with a sign in front of a year outside 0 to 9999.
pub open spec fn year_text(y: int) -> Seq<char> {
    if y < 0 {
        seq!['-'] + padded((-y) as nat, 4)
    } else if y > 9999 {
        seq!['+'] + padded(y as nat, 4)
    } else {
        padded(y as nat, 4)
    }
}

/// `YYYYMMDD-HHMMSS`.
pub open spec fn stamp_text(t: CivilTime) -> Seq<char> {
    year_text(t.year as int) + padded(t.month as nat, 2) + padded(t.day as nat, 2) + seq!['-']
        + padded(t.hour as nat, 2) + padded(t.minute as nat, 2) + padded(t.second as nat, 2)
}

/// `YYYY-MM-DD HH:MM:SS`.
pub open spec fn date_time_text(t: CivilTime) -> Seq<char> {
    year_text(t.year as int) + seq!['-'] + padded(t.month as nat, 2) + seq!['-'] + padded(
        t.day as nat,
        2,
    ) + seq![' '] + padded(t.hour as nat, 2) + seq![':'] + padded(t.minute as nat, 2) + seq![':']
        + padded(t.second as nat, 2)
}

/// The pattern of a time in a file name.
pub open spec fn stamp_pattern() -> Seq<char> {
    "%Y%m%d-%H%M%S"@
}

/// The pattern of a time for a reader.
pub open spec fn date_time_pattern() -> Seq<char> {
    "%Y-%m-%d %H:%M:%S"@
}

/// Writes a time with `chrono`'s `NaiveDateTime::format`, under the pattern
/// `%Y%m%d-%H%M%S` or `%Y-%m-%d %H:%M:%S`: the year with at least four digits
/// (and a sign outside 0 to 9999), every other field with two.
#[verifier::external_body]
pub(crate) fn format_time(t: &CivilTime, pattern: &str) -> (r: String)
    requires
        t.wf(),
        pattern@ == stamp_pattern() || pattern@ == date_time_pattern(),
    ensures
        pattern@ == stamp_pattern() ==> r@ == stamp_text(*t),
        pattern@ == date_time_pattern() ==> r@ == date_time_text(*t),
{
    let date = chrono::NaiveDate::from_ymd_opt(t.year, t.month, t.day).unwrap();
    let time = date.and_hms_nano_opt(t.hour, t.minute, t.second, t.nanosecond).unwrap();
    time.format(pattern).to_string()
}

} // verus!
