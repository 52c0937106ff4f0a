//! Calendar dates and UTC date-times in the proleptic Gregorian calendar,
//! and their Unix timestamps.

use vstd::prelude::*;

verus! {

/// The earliest year the `time` crate represents.
pub const MIN_YEAR: i32 = -9999;

/// The latest year the `time` crate represents.
pub const MAX_YEAR: i32 = 9999;

/// Unix timestamp of `-9999-01-01 00:00:00 UTC`.
pub const MIN_TIMESTAMP: i64 = -377705116800;

/// Unix timestamp of `9999-12-31 23:59:59 UTC`.
pub const MAX_TIMESTAMP: i64 = 253402300799;

pub const SECONDS_PER_MINUTE: i64 = 60;

pub const SECONDS_PER_HOUR: i64 = 3600;

pub const SECONDS_PER_DAY: i64 = 86400;

pub open spec fn is_leap_year(y: int) -> bool {
    y % 4 == 0 && (y % 100 != 0 || y % 400 == 0)
}

pub open spec fn days_in_year(y: int) -> int {
    if is_leap_year(y) { 366 } else { 365 }
}

pub open spec fn days_in_month(y: int, m: int) -> int {
    if m == 2 {
        if is_leap_year(y) { 29 } else { 28 }
    } else if m == 4 || m == 6 || m == 9 || m == 11 {
        30
    } else {
        31
    }
}

/// Days from 1970-01-01 to January 1st of year `y`.
pub open spec fn days_before_year(y: int) -> int {
    365 * (y - 1) + (y - 1) / 4 - (y - 1) / 100 + (y - 1) / 400 - 719162
}

/// Days from January 1st of year `y` to the first day of month `m`.
pub open spec fn days_before_month(y: int, m: int) -> int {
    let leap: int = if m > 2 && is_leap_year(y) { 1 } else { 0 };
    let before: int = if m <= 1 { 0 }
    else if m == 2 { 31 }
    else if m == 3 { 59 }
    else if m == 4 { 90 }
    else if m == 5 { 120 }
    else if m == 6 { 151 }
    else if m == 7 { 181 }
    else if m == 8 { 212 }
    else if m == 9 { 243 }
    else if m == 10 { 273 }
    else if m == 11 { 304 }
    else { 334 };
    leap + before
}

/// A day of the calendar: `month` counts from 1 (January), `day` from 1.
#[derive(Clone, Copy, Debug, PartialEq, Eq, Structural)]
pub struct CalendarDate {
    pub year: i32,
    pub month: u8,
    pub day: u8,
}

/// A UTC instant with a resolution of one second.
#[derive(Clone, Copy, Debug, PartialEq, Eq, Structural)]
pub struct DateTime {
    pub date: CalendarDate,
    pub hour: u8,
    pub minute: u8,
    pub second: u8,
}

pub open spec fn valid_date(y: int, m: int, d: int) -> bool {
    &&& MIN_YEAR <= y <= MAX_YEAR
    &&& 1 <= m <= 12
    &&& 1 <= d <= days_in_month(y, m)
}

impl CalendarDate {
    /// The date exists in the calendar and in the range of years handled.
    pub open spec fn wf(self) -> bool {
        valid_date(self.year as int, self.month as int, self.day as int)
    }

    /// Days from 1970-01-01 to this date.
    pub open spec fn day_number(self) -> int {
        days_before_year(self.year as int) + days_before_month(self.year as int, self.month as int)
            + self.day - 1
    }

    /// Lexicographic order on (year, month, day).
    pub open spec fn before(self, other: CalendarDate) -> bool {
        ||| self.year < other.year
        ||| (self.year == other.year && self.month < other.month)
        ||| (self.year == other.year && self.month == other.month && self.day < other.day)
    }
}

impl DateTime {
    pub open spec fn wf(self) -> bool {
        &&& self.date.wf()
        &&& self.hour < 24
        &&& self.minute < 60
        &&& self.second < 60
    }

    pub open spec fn seconds_of_day(self) -> int {
        self.hour * 3600 + self.minute * 60 + self.second
    }

    /// Seconds from 1970-01-01 00:00:00 UTC to this instant.
    pub open spec fn unix_seconds(self) -> int {
        self.date.day_number() * 86400 + self.seconds_of_day()
    }
}


/// Each year is as long as its leap status says.
pub proof fn lemma_year_length(y: int)
    ensures
        days_before_year(y + 1) == days_before_year(y) + days_in_year(y),
{
    assert(y / 4 - (y - 1) / 4 == if y % 4 == 0 { 1int } else { 0int });
    assert(y / 100 - (y - 1) / 100 == if y % 100 == 0 { 1int } else { 0int });
    assert(y / 400 - (y - 1) / 400 == if y % 400 == 0 { 1int } else { 0int });
}

/// Years start in increasing order.
pub proof fn lemma_years_ordered(a: int, b: int)
    requires
        a <= b,
    ensures
        days_before_year(a) <= days_before_year(b),
        a < b ==> days_before_year(a + 1) <= days_before_year(b),
    decreases b - a,
{
    if a < b {
        lemma_year_length(a);
        lemma_years_ordered(a + 1, b);
    }
}

/// A valid date falls between the first day of its month and the first day
/// of the next month, and inside its year.
pub proof fn lemma_date_in_year(d: CalendarDate)
    requires
        d.wf(),
    ensures
        d.month < 12 ==> days_before_month(d.year as int, d.month as int) + d.day
            <= days_before_month(d.year as int, d.month + 1),
        days_before_year(d.year as int) <= d.day_number(),
        d.day_number() < days_before_year(d.year + 1),
{
    lemma_year_length(d.year as int);
}

/// The day number orders valid dates as the calendar does.
pub proof fn lemma_day_number_ordered(a: CalendarDate, b: CalendarDate)
    requires
        a.wf(),
        b.wf(),
        a.before(b),
    ensures
        a.day_number() < b.day_number(),
{
    lemma_date_in_year(a);
    lemma_date_in_year(b);
    if a.year < b.year {
        lemma_years_ordered(a.year as int, b.year as int);
    }
}

/// Two valid instants with the same timestamp are the same instant.
pub proof fn lemma_unix_seconds_injective(a: DateTime, b: DateTime)
    requires
        a.wf(),
        b.wf(),
        a.unix_seconds() == b.unix_seconds(),
    ensures
        a == b,
{
    let da = a.date.day_number();
    let db = b.date.day_number();
    assert(da == db) by {
        if da < db {
            assert(da * 86400 + 86400 <= db * 86400) by (nonlinear_arith)
                requires da < db;
        } else if db < da {
            assert(db * 86400 + 86400 <= da * 86400) by (nonlinear_arith)
                requires db < da;
        }
    }
    if a.date.before(b.date) {
        lemma_day_number_ordered(a.date, b.date);
    } else if b.date.before(a.date) {
        lemma_day_number_ordered(b.date, a.date);
    }
    assert(a.date == b.date);
}

/// The instant that a timestamp in the representable range denotes.
pub open spec fn datetime_at(ts: int) -> DateTime {
    choose|d: DateTime| d.wf() && d.unix_seconds() == ts
}

/// A valid instant is the one its timestamp denotes.
pub proof fn lemma_datetime_at(d: DateTime)
    requires
        d.wf(),
    ensures
        datetime_at(d.unix_seconds()) == d,
{
    let e = datetime_at(d.unix_seconds());
    assert(e.wf() && e.unix_seconds() == d.unix_seconds());
    lemma_unix_seconds_injective(d, e);
}

/// Relies on `time::OffsetDateTime::from_unix_timestamp`, which succeeds
/// exactly on the timestamps of years -9999 to 9999, and on its accessors
/// `year`, `month`, `day`, `hour`, `minute` and `second` in UTC.
#[verifier::external_body]
pub(crate) fn datetime_from_unix(ts: i64) -> (r: Option<DateTime>)
    ensures
        r.is_some() <==> MIN_TIMESTAMP <= ts <= MAX_TIMESTAMP,
        r matches Some(d) ==> d.wf() && d.unix_seconds() == ts,
{
    match time::OffsetDateTime::from_unix_timestamp(ts) {
        Ok(t) => Some(DateTime {
            date: CalendarDate { year: t.year(), month: t.month() as u8, day: t.day() },
            hour: t.hour(),
            minute: t.minute(),
            second: t.second(),
        }),
        Err(_) => None,
    }
}

fn days_before_month_of(leap: bool, m: u8) -> (r: i64)
    requires
        1 <= m <= 12,
    ensures
        0 <= r <= 335,
        forall|y: int| is_leap_year(y) == leap ==> r == #[trigger] days_before_month(y, m as int),
{
    let before: i64 = match m {
        1 => 0,
        2 => 31,
        3 => 59,
        4 => 90,
        5 => 120,
        6 => 151,
        7 => 181,
        8 => 212,
        9 => 243,
        10 => 273,
        11 => 304,
        _ => 334,
    };
    if m > 2 && leap {
        before + 1
    } else {
        before
    }
}

/// Seconds from 1970-01-01 00:00:00 UTC to `dt`.
pub fn unix_timestamp(dt: &DateTime) -> (r: i64)
    requires
        dt.wf(),
    ensures
        r == dt.unix_seconds(),
{
    let y = dt.date.year as i64;
    // Shifted by a multiple of 400 years so that every quotient is taken
    // of a positive number.
    let z = y - 1 + 12000;
    let w = y + 12000;
    assert(z / 4 - 3000 == (y - 1) / 4);
    assert(z / 100 - 120 == (y - 1) / 100);
    assert(z / 400 - 30 == (y - 1) / 400);
    assert(w % 4 == y % 4 && w % 100 == y % 100 && w % 400 == y % 400);
    let leap = w % 4 == 0 && (w % 100 != 0 || w % 400 == 0);
    let before_year = 365 * (y - 1) + (z / 4 - 3000) - (z / 100 - 120) + (z / 400 - 30) - 719162;
    let before_month = days_before_month_of(leap, dt.date.month);
    assert(before_month == days_before_month(y as int, dt.date.month as int));
    let days = before_year + before_month + dt.date.day as i64 - 1;
    days * 86400 + dt.hour as i64 * 3600 + dt.minute as i64 * 60 + dt.second as i64
}

/// Relies on `time::Date::from_calendar_date`, which fails on a month
/// outside 1 to 12, a day outside the month, or a year outside -9999 to 9999.
#[verifier::external_body]
pub(crate) fn calendar_date(year: i32, month: u8, day: u8) -> (r: Option<CalendarDate>)
    ensures
        r == (if valid_date(year as int, month as int, day as int) {
            Some(CalendarDate { year, month, day })
        } else {
            None
        }),
{
    let month = time::Month::try_from(month).ok()?;
    match time::Date::from_calendar_date(year, month, day) {
        Ok(d) => Some(CalendarDate { year: d.year(), month: d.month() as u8, day: d.day() }),
        Err(_) => None,
    }
}

} // verus!
