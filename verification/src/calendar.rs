//! Calendar arithmetic on plain day numbers, and the few questions that are
//! put to `chrono`: parsing `"YYYY-MM-DD"` and `"HH:MM"`, the weekday of a
//! day, and formatting a day as text.
//!
//! A date is its day number in the proleptic Gregorian calendar with
//! January 1 of year 1 as day 1 (`chrono`'s `num_days_from_ce`), so adding
//! days to a date is integer addition. A moment of local wall-clock time is
//! `day * MS_PER_DAY + milliseconds since midnight`.
use crate::numparse::{dec_value, is_digit};
use crate::text::hm_text;
use chrono::Datelike;
use chrono::Timelike;
use vstd::prelude::*;

verus! {

/// The first day `chrono` can represent (January 1 of year -262143).
pub const MIN_DAY: i32 = -95746129;

/// The last day `chrono` can represent (December 31 of year 262142).
pub const MAX_DAY: i32 = 95745399;

pub const MS_PER_DAY: i64 = 86_400_000;

/// Whether `chrono` can represent the day with this number.
pub open spec fn day_in_range(day: int) -> bool {
    MIN_DAY <= day <= MAX_DAY
}

/// Milliseconds from midnight to `h:m`.
pub open spec fn clock_ms(h: int, m: int) -> int {
    (h * 3600 + m * 60) * 1000
}

/// The wall-clock moment `ms` milliseconds after midnight of `day`.
pub open spec fn moment(day: int, ms: int) -> int {
    day * 86_400_000 + ms
}

/// What `chrono::NaiveTime::parse_from_str(s, "%H:%M")` yields, as (hour, minute).
pub uninterp spec fn chrono_time_of(s: Seq<char>) -> Option<(u32, u32)>;

/// What `chrono::NaiveDate::parse_from_str(s, "%Y-%m-%d")` yields, as a day number.
pub uninterp spec fn chrono_date_of(s: Seq<char>) -> Option<i32>;

/// The weekday of the day with this number, counted from Monday (0): day 1,
/// January 1 of year 1 in the proleptic Gregorian calendar, is a Monday.
pub open spec fn weekday_number(day: int) -> int {
    (day - 1) % 7
}

/// The text `chrono` formats the day with this number to under `pattern`.
pub uninterp spec fn chrono_date_text(day: int, pattern: Seq<char>) -> Seq<char>;

/// The patterns the library formats dates with.
pub open spec fn known_pattern(p: Seq<char>) -> bool {
    p == "%Y-%m-%d"@ || p == "%a "@ || p == "%a, %b %-d"@
}

/// The day as `"YYYY-MM-DD"`.
pub open spec fn chrono_iso_date(day: int) -> Seq<char> {
    chrono_date_text(day, "%Y-%m-%d"@)
}

/// The English abbreviation of a weekday counted from Monday (0).
pub open spec fn short_day_name(w: int) -> Seq<char> {
    if w == 0 {
        "Mon"@
    } else if w == 1 {
        "Tue"@
    } else if w == 2 {
        "Wed"@
    } else if w == 3 {
        "Thu"@
    } else if w == 4 {
        "Fri"@
    } else if w == 5 {
        "Sat"@
    } else {
        "Sun"@
    }
}

/// The abbreviated weekday name of the day, and a space.
pub open spec fn day_prefix(day: int) -> Seq<char> {
    short_day_name(weekday_number(day)) + " "@
}

/// The day as weekday, month and day of month, e.g. `"Mon, Aug 17"`.
pub open spec fn chrono_short_date(day: int) -> Seq<char> {
    chrono_date_text(day, "%a, %b %-d"@)
}

/// Two ASCII digits, a colon and two ASCII digits.
pub open spec fn two_digit_clock(s: Seq<char>) -> bool {
    &&& s.len() == 5
    &&& is_digit(s[0]) && is_digit(s[1])
    &&& s[2] == ':'
    &&& is_digit(s[3]) && is_digit(s[4])
}

/// Calls `chrono::NaiveTime::parse_from_str(s, "%H:%M")` and returns the
/// hour and minute of the parsed time. Claimed: the result is the named
/// `chrono_time_of(s)`; a parsed time has an hour below 24 and a minute below
/// 60 (`Parsed::to_naive_time` rejects anything else); a canonical
/// zero-padded `"HH:MM"` text of such a time parses back to it; and a text
/// of two digits, a colon and two digits parses exactly when its hour is
/// below 24 and its minute below 60 (`%H` and `%M` read up to two digits,
/// and `Parsed::set_hour` and `set_minute` refuse larger values).
#[verifier::external_body]
pub(crate) fn parse_clock_time(s: &str) -> (r: Option<(u32, u32)>)
    ensures
        r == chrono_time_of(s@),
        r matches Some((h, m)) ==> h < 24 && m < 60,
        forall|h: u32, m: u32|
            h < 24 && m < 60 && s@ == hm_text(h as int, m as int) ==> r == Some((h, m)),
        two_digit_clock(s@) ==> {
            let h = dec_value(s@.subrange(0, 2));
            let m = dec_value(s@.subrange(3, 5));
            r == (if h < 24 && m < 60 { Some((h as u32, m as u32)) } else { None })
        },
{
    match chrono::NaiveTime::parse_from_str(s, "%H:%M") {
        Ok(t) => Some((t.hour(), t.minute())),
        Err(_) => None,
    }
}

/// Calls `chrono::NaiveDate::parse_from_str(s, "%Y-%m-%d")` and returns the
/// parsed date's `num_days_from_ce`. Claimed: the result is the named
/// `chrono_date_of(s)`, and a parsed date lies within `chrono`'s range.
#[verifier::external_body]
pub(crate) fn parse_iso_date(s: &str) -> (r: Option<i32>)
    ensures
        r == chrono_date_of(s@),
        r matches Some(d) ==> day_in_range(d as int),
{
    match chrono::NaiveDate::parse_from_str(s, "%Y-%m-%d") {
        Ok(d) => Some(d.num_days_from_ce()),
        Err(_) => None,
    }
}

/// Calls `Datelike::weekday` on the date with day number `day` and returns
/// `num_days_from_monday` of it. Claimed: the result is
/// `weekday_number(day)`, as day 1 (0001-01-01) is a Monday and weekdays
/// repeat every seven days. The day must be one `chrono` can represent.
#[verifier::external_body]
pub(crate) fn weekday_of(day: i32) -> (w: u32)
    requires
        day_in_range(day as int),
    ensures
        w as int == weekday_number(day as int),
{
    chrono::NaiveDate::from_num_days_from_ce_opt(day).unwrap().weekday().num_days_from_monday()
}

/// Calls `NaiveDate::format(.., pattern)` on the date with day number `day`
/// and renders it. Claimed: the text is the named `chrono_date_text(day,
/// pattern)`, and under `"%a "` it is the day's English weekday
/// abbreviation and a space (chrono's default locale names the weekdays
/// `"Sun"` to `"Sat"`). The day must be one `chrono` can represent, and the
/// pattern one of the library's (rendering an invalid pattern panics).
#[verifier::external_body]
pub(crate) fn format_date(day: i32, pattern: &str) -> (r: String)
    requires
        day_in_range(day as int),
        known_pattern(pattern@),
    ensures
        r@ == chrono_date_text(day as int, pattern@),
        pattern@ == "%a "@ ==> r@ == day_prefix(day as int),
{
    chrono::NaiveDate::from_num_days_from_ce_opt(day).unwrap().format(pattern).to_string()
}

/// The day as `"YYYY-MM-DD"`.
pub fn format_iso_date(day: i32) -> (r: String)
    requires
        day_in_range(day as int),
    ensures
        r@ == chrono_iso_date(day as int),
{
    format_date(day, "%Y-%m-%d")
}

/// The abbreviated weekday name of the day and a space, as in `"Tue "`.
pub fn format_day_prefix(day: i32) -> (r: String)
    requires
        day_in_range(day as int),
    ensures
        r@ == day_prefix(day as int),
{
    format_date(day, "%a ")
}

/// The day as `"Mon, Aug 17"`.
pub fn format_short_date(day: i32) -> (r: String)
    requires
        day_in_range(day as int),
    ensures
        r@ == chrono_short_date(day as int),
{
    format_date(day, "%a, %b %-d")
}

/// A moment of local wall-clock time, as the clock reads it.
#[derive(Clone, Copy, Debug, PartialEq, Eq, Structural)]
pub struct Now {
    /// Today's day number.
    pub day: i32,
    /// Milliseconds since local midnight.
    pub ms_of_day: u32,
    /// Milliseconds since the Unix epoch.
    pub epoch_ms: i64,
}

impl Now {
    /// Today lies far enough inside `chrono`'s range that the days looked
    /// ahead to are representable, and the time of day is a real one.
    pub open spec fn wf(self) -> bool {
        &&& MIN_DAY <= self.day <= MAX_DAY - 16
        &&& self.ms_of_day < 86_400_000
    }

    /// This moment on the wall-clock time line.
    pub open spec fn at(self) -> int {
        moment(self.day as int, self.ms_of_day as int)
    }

    pub fn hour(&self) -> (h: u32)
        requires
            self.wf(),
        ensures
            h == self.ms_of_day / 3_600_000,
            h < 24,
    {
        self.ms_of_day / 3_600_000
    }

    pub fn minute(&self) -> (m: u32)
        requires
            self.wf(),
        ensures
            m == (self.ms_of_day / 60_000) % 60,
            m < 60,
    {
        (self.ms_of_day / 60_000) % 60
    }

    pub fn second(&self) -> (s: u32)
        requires
            self.wf(),
        ensures
            s == (self.ms_of_day / 1000) % 60,
            s < 60,
    {
        (self.ms_of_day / 1000) % 60
    }

    /// This moment as wall-clock milliseconds.
    pub fn naive_ms(&self) -> (r: i64)
        requires
            self.wf(),
        ensures
            r == self.at(),
    {
        (self.day as i64) * MS_PER_DAY + (self.ms_of_day as i64)
    }
}

} // verus!
