use vstd::prelude::*;

use std::fmt::Write;

use chrono::format::StrftimeItems;
use chrono::{Datelike, Days, NaiveDate, NaiveDateTime, NaiveTime, Timelike};

verus! {

/// A calendar date (proleptic Gregorian), as chrono's `NaiveDate` holds it.
#[derive(Clone, Copy, Debug, PartialEq, Eq, Structural)]
pub struct Date {
    pub year: i32,
    pub month: u32,
    pub day: u32,
}

/// A time of day to the minute.
#[derive(Clone, Copy, Debug, PartialEq, Eq, Structural)]
pub struct Time {
    pub hour: u32,
    pub minute: u32,
}

/// A date and a time of day.
#[derive(Clone, Copy, Debug, PartialEq, Eq, Structural)]
pub struct DateTime {
    pub date: Date,
    pub time: Time,
}

impl View for Date {
    type V = Date;

    open spec fn view(&self) -> Date {
        *self
    }
}

impl View for Time {
    type V = Time;

    open spec fn view(&self) -> Time {
        *self
    }
}

impl View for DateTime {
    type V = DateTime;

    open spec fn view(&self) -> DateTime {
        *self
    }
}

/// `a` comes no later than `b`, in the order of the calendar and the clock.
pub open spec fn dt_le(a: DateTime, b: DateTime) -> bool {
    if a.date.year != b.date.year {
        a.date.year < b.date.year
    } else if a.date.month != b.date.month {
        a.date.month < b.date.month
    } else if a.date.day != b.date.day {
        a.date.day < b.date.day
    } else if a.time.hour != b.time.hour {
        a.time.hour < b.time.hour
    } else {
        a.time.minute <= b.time.minute
    }
}

/// The earliest year that chrono's `NaiveDate` holds.
pub open spec fn min_year() -> int {
    -262143
}

/// The latest year that chrono's `NaiveDate` holds.
pub open spec fn max_year() -> int {
    262142
}

impl Date {
    /// This date at midnight (`NaiveDate::and_hms(0, 0, 0)`).
    pub fn at_midnight(&self) -> (r: DateTime)
        ensures
            r == (DateTime { date: *self, time: Time { hour: 0, minute: 0 } }),
    {
        DateTime { date: *self, time: Time { hour: 0, minute: 0 } }
    }

    /// This date at the time `t` (`NaiveDate::and_time`).
    pub fn and_time(&self, t: Time) -> (r: DateTime)
        ensures
            r == (DateTime { date: *self, time: t }),
    {
        DateTime { date: *self, time: t }
    }
}

impl DateTime {
    /// `self` comes no later than `other`.
    pub fn le(&self, other: &DateTime) -> (r: bool)
        ensures
            r == dt_le(*self, *other),
    {
        if self.date.year != other.date.year {
            self.date.year < other.date.year
        } else if self.date.month != other.date.month {
            self.date.month < other.date.month
        } else if self.date.day != other.date.day {
            self.date.day < other.date.day
        } else if self.time.hour != other.time.hour {
            self.time.hour < other.time.hour
        } else {
            self.time.minute <= other.time.minute
        }
    }
}

pub proof fn lemma_dt_le_refl(a: DateTime)
    ensures
        dt_le(a, a),
{
}

pub proof fn lemma_dt_le_trans(a: DateTime, b: DateTime, c: DateTime)
    requires
        dt_le(a, b),
        dt_le(b, c),
    ensures
        dt_le(a, c),
{
}

pub proof fn lemma_dt_le_total(a: DateTime, b: DateTime)
    ensures
        dt_le(a, b) || dt_le(b, a),
{
}

/// What chrono's `NaiveTime::parse_from_str(s, "%R")` yields, as (hour, minute).
pub uninterp spec fn chrono_hm(s: Seq<char>) -> Option<(u32, u32)>;

/// What chrono's `NaiveDate::parse_from_str(s, "%F")` yields, as (year, month, day).
pub uninterp spec fn chrono_ymd(s: Seq<char>) -> Option<(i32, u32, u32)>;

/// `NaiveTime::parse_from_str(s, "%R")` (hour and minute, `%H:%M`). Its result is named
/// by `chrono_hm`; the facts stated of it are those of a valid `NaiveTime` read at
/// whole minutes: the hour is below 24 and the minute below 60. Which texts chrono
/// accepts is left unsaid.
#[verifier::external_body]
pub(crate) fn parse_time_hm(s: &str) -> (r: Option<Time>)
    ensures
        match chrono_hm(s@) {
            Some((h, m)) => r == Some(Time { hour: h, minute: m }),
            None => r is None,
        },
        r matches Some(t) ==> t.hour < 24 && t.minute < 60,
{
    match NaiveTime::parse_from_str(s, "%R") {
        Ok(t) => Some(Time { hour: t.hour(), minute: t.minute() }),
        Err(_) => None,
    }
}

/// `NaiveDate::parse_from_str(s, "%F")` (`%Y-%m-%d`). Its result is named by `chrono_ymd`;
/// the fact stated of it is that it is a date that chrono holds (`valid_date`). Which texts
/// chrono accepts is left unsaid.
#[verifier::external_body]
pub(crate) fn parse_date_ymd(s: &str) -> (r: Option<Date>)
    ensures
        match chrono_ymd(s@) {
            Some((y, m, d)) => r == Some(Date { year: y, month: m, day: d }),
            None => r is None,
        },
        r matches Some(d) ==> valid_date(d),
{
    match NaiveDate::parse_from_str(s, "%F") {
        Ok(d) => Some(Date { year: d.year(), month: d.month(), day: d.day() }),
        Err(_) => None,
    }
}

/// chrono's `NaiveDateTime::MIN`, the earliest date and time it holds: midnight of
/// 1 January of its earliest year.
#[verifier::external_body]
pub(crate) fn min_datetime() -> (r: DateTime)
    ensures
        r == (DateTime {
            date: Date { year: min_year() as i32, month: 1, day: 1 },
            time: Time { hour: 0, minute: 0 },
        }),
{
    let m = NaiveDateTime::MIN;
    DateTime {
        date: Date { year: m.year(), month: m.month(), day: m.day() },
        time: Time { hour: m.hour(), minute: m.minute() },
    }
}

/// A date and time that chrono's `NaiveDateTime` holds, to the minute.
pub open spec fn valid_datetime(dt: DateTime) -> bool {
    valid_date(dt.date) && dt.time.hour < 24 && dt.time.minute < 60
}

/// The strftime formats that the library writes, made only of plain text and of date and
/// time items (day, weekday, month name, year, hour and minute), none of which needs a
/// time zone.
pub open spec fn zone_free_format(f: Seq<char>) -> bool {
    f == "%d %B %Y"@ || f == "%R"@ || f == "*** %a %-d %B %Y"@
}

/// What chrono writes for the date and time `dt` under the strftime format `fmt`, or
/// `None` where `dt` is not a valid date and time, `fmt` not a valid format, or chrono
/// cannot write one of its items for a date and time without an offset (a time zone).
pub uninterp spec fn chrono_format(dt: DateTime, fmt: Seq<char>) -> Option<Seq<char>>;

/// `NaiveDateTime::format_with_items` with the items of `fmt`, written into a `String`;
/// where chrono's formatter reports an error (an offset or zone item), `None`. Its result
/// is named by `chrono_format`; the one fact stated of it is that a valid date and time
/// is always written under the formats of `zone_free_format`, whose items chrono writes
/// without a time zone.
#[verifier::external_body]
pub(crate) fn format_datetime(dt: DateTime, fmt: &str) -> (r: Option<String>)
    ensures
        match chrono_format(dt, fmt@) {
            Some(s) => r matches Some(x) && x@ == s,
            None => r is None,
        },
        valid_datetime(dt) && zone_free_format(fmt@) ==> r is Some,
{
    let d = NaiveDate::from_ymd_opt(dt.date.year, dt.date.month, dt.date.day)?;
    let t = d.and_hms_opt(dt.time.hour, dt.time.minute, 0)?;
    let items = StrftimeItems::new(fmt).parse().ok()?;
    let mut out = String::new();
    write!(out, "{}", t.format_with_items(items.iter())).ok()?;
    Some(out)
}

/// A leap year of the proleptic Gregorian calendar.
pub open spec fn leap_year(y: int) -> bool {
    y % 4 == 0 && (y % 100 != 0 || y % 400 == 0)
}

/// The number of days of the month `m` of the year `y`.
pub open spec fn month_days(y: int, m: int) -> int {
    if m == 2 {
        if leap_year(y) {
            29
        } else {
            28
        }
    } else if m == 4 || m == 6 || m == 9 || m == 11 {
        30
    } else {
        31
    }
}

/// A date that chrono's `NaiveDate` holds: a day of a month of a year in its range.
pub open spec fn valid_date(d: Date) -> bool {
    &&& min_year() <= d.year <= max_year()
    &&& 1 <= d.month <= 12
    &&& 1 <= d.day <= month_days(d.year as int, d.month as int)
}

/// The number of the day `d`, counted from 1 March of the year 0: whole cycles of 400
/// years (146097 days), then years of 365 days with a leap day every fourth, but not
/// every hundredth, counted from March so that the leap day comes last.
pub open spec fn day_number(d: Date) -> int {
    let y = if d.month <= 2 {
        d.year - 1
    } else {
        d.year as int
    };
    let era = y / 400;
    let yoe = y - era * 400;
    let mp = (d.month + 9) % 12;
    let doy = (153 * mp + 2) / 5 + d.day - 1;
    let doe = yoe * 365 + yoe / 4 - yoe / 100 + doy;
    era * 146097 + doe
}

/// The number of days from the date `a` to the date `b`, or `None` where either is not a
/// date that chrono holds.
pub open spec fn chrono_days(a: Date, b: Date) -> Option<int> {
    if valid_date(a) && valid_date(b) {
        Some(day_number(b) - day_number(a))
    } else {
        None
    }
}

/// `NaiveDate::signed_duration_since(..).num_days()`: the days from `a` to `b`, `None`
/// where chrono holds no such date, as `chrono_days` gives them. It lies within the span
/// of chrono's calendar (fewer than 524287 years of at most 366 days).
#[verifier::external_body]
pub(crate) fn days_between(a: Date, b: Date) -> (r: Option<i64>)
    ensures
        match r {
            Some(m) => chrono_days(a, b) == Some(m as int),
            None => chrono_days(a, b) is None,
        },
        r matches Some(n) ==> -200_000_000 <= n <= 200_000_000,
{
    let x = NaiveDate::from_ymd_opt(a.year, a.month, a.day)?;
    let y = NaiveDate::from_ymd_opt(b.year, b.month, b.day)?;
    Some(y.signed_duration_since(x).num_days())
}

/// The date `k` days after `d`, or `None` where `d` is not a date that chrono holds or
/// the result lies beyond chrono's calendar.
pub open spec fn chrono_after(d: Date, k: nat) -> Option<Date> {
    if valid_date(d) && exists|e: Date| valid_date(e) && #[trigger] day_number(e) == day_number(d) + k {
        Some(choose|e: Date| valid_date(e) && #[trigger] day_number(e) == day_number(d) + k)
    } else {
        None
    }
}

/// `NaiveDate::checked_add_days(Days::new(k))`, as `chrono_after` gives it.
#[verifier::external_body]
pub(crate) fn add_days(d: Date, k: u64) -> (r: Option<Date>)
    ensures
        r == chrono_after(d, k as nat),
{
    let x = NaiveDate::from_ymd_opt(d.year, d.month, d.day)?;
    let y = x.checked_add_days(Days::new(k))?;
    Some(Date { year: y.year(), month: y.month(), day: y.day() })
}

} // verus!
