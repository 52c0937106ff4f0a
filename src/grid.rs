//! Gridlines of a time axis: which calendar instants to mark, and how far
//! apart marks of each density are, for any visible window from minutes to
//! millennia.

use vstd::prelude::*;
use crate::calendar::{
    calendar_date, datetime_at, datetime_from_unix, lemma_datetime_at, unix_timestamp,
    valid_date, CalendarDate, DateTime, MAX_TIMESTAMP, MAX_YEAR, MIN_TIMESTAMP, MIN_YEAR,
};

verus! {

pub const MINUTE_SPACING: i64 = 60;

pub const HOUR_SPACING: i64 = 3600;

pub const DAY_SPACING: i64 = 86400;

/// Thirty days.
pub const MONTH_SPACING: i64 = 2592000;

/// 365 days.
pub const YEAR_SPACING: i64 = 31536000;

/// Ten times 365 days.
pub const DECADE_SPACING: i64 = 315360000;

/// One gridline: its instant (a Unix timestamp) and the length of the unit
/// of its density, in seconds.
#[derive(Clone, Copy, Debug, PartialEq, Eq, Structural)]
pub struct GridMark {
    pub position: i64,
    pub spacing: i64,
}

/// The visible window once clamped, with its ends taken apart into calendar
/// components and its length in whole days and whole hours.
#[derive(Clone, Copy)]
pub struct Window {
    pub start: i64,
    pub end: i64,
    pub first: DateTime,
    pub last: DateTime,
    pub days: i64,
    pub hours: i64,
}

impl Window {
    pub open spec fn wf(self) -> bool {
        &&& MIN_TIMESTAMP <= self.start < self.end <= MAX_TIMESTAMP
        &&& self.first == datetime_at(self.start as int)
        &&& self.last == datetime_at(self.end as int)
        &&& self.first.wf()
        &&& self.last.wf()
        &&& self.days == (self.end - self.start) / 86400
        &&& self.hours == (self.end - self.start) / 3600
    }
}

pub open spec fn clamp_timestamp(t: int) -> int {
    if t < MIN_TIMESTAMP {
        MIN_TIMESTAMP as int
    } else if t > MAX_TIMESTAMP {
        MAX_TIMESTAMP as int
    } else {
        t
    }
}

pub open spec fn window_of(a: int, b: int) -> Window {
    Window {
        start: a as i64,
        end: b as i64,
        first: datetime_at(a),
        last: datetime_at(b),
        days: ((b - a) / 86400) as i64,
        hours: ((b - a) / 3600) as i64,
    }
}

/// The timestamp of minute `mi` of hour `h` on the given day.
pub open spec fn instant(y: int, m: int, d: int, h: int, mi: int) -> int {
    DateTime {
        date: CalendarDate { year: y as i32, month: m as u8, day: d as u8 },
        hour: h as u8,
        minute: mi as u8,
        second: 0,
    }.unix_seconds()
}

/// A mark at `pos`, kept only inside the half-open window.
pub open spec fn mark_in(w: Window, pos: int, spacing: int) -> Seq<GridMark> {
    if w.start <= pos < w.end {
        seq![GridMark { position: pos as i64, spacing: spacing as i64 }]
    } else {
        seq![]
    }
}

/// A mark at `pos` when `cond` holds and `pos` is in the window.
pub open spec fn mark_when(cond: bool, w: Window, pos: int, spacing: int) -> Seq<GridMark> {
    if cond {
        mark_in(w, pos, spacing)
    } else {
        seq![]
    }
}

pub open spec fn minutes_upto(w: Window, y: int, m: int, d: int, h: int, lo: int, k: int) -> Seq<
    GridMark,
>
    decreases k - lo,
{
    if k <= lo {
        seq![]
    } else {
        minutes_upto(w, y, m, d, h, lo, k - 1) + mark_in(
            w,
            instant(y, m, d, h, k - 1),
            MINUTE_SPACING as int,
        )
    }
}

/// Marks of one hour: every sixth and every third hour on long windows,
/// each hour on windows over two hours, else each of its minutes.
pub open spec fn hour_marks(w: Window, y: int, m: int, d: int, h: int) -> Seq<GridMark> {
    let t = instant(y, m, d, h, 0);
    let coarse = mark_when(w.hours > 25 && h % 6 == 0, w, t, 6 * HOUR_SPACING) + mark_when(
        w.hours > 15 && h % 3 == 0,
        w,
        t,
        3 * HOUR_SPACING,
    );
    if w.hours > 2 {
        coarse + mark_in(w, t, HOUR_SPACING as int)
    } else {
        let on_first = y == w.first.date.year && m == w.first.date.month && d == w.first.date.day
            && h == w.first.hour;
        let on_last = y == w.last.date.year && m == w.last.date.month && d == w.last.date.day && h
            == w.last.hour;
        let lo: int = if on_first { w.first.minute as int } else { 0 };
        let hi: int = if on_last { w.last.minute as int } else { 59 };
        coarse + minutes_upto(w, y, m, d, h, lo, hi + 1)
    }
}

pub open spec fn hours_upto(w: Window, y: int, m: int, d: int, lo: int, k: int) -> Seq<GridMark>
    decreases k - lo,
{
    if k <= lo {
        seq![]
    } else {
        hours_upto(w, y, m, d, lo, k - 1) + hour_marks(w, y, m, d, k - 1)
    }
}

/// Marks of one day (none when the day does not exist): every twelfth,
/// sixth and third day on long windows, each day on windows over two days,
/// else its hours.
pub open spec fn day_marks(w: Window, y: int, m: int, d: int) -> Seq<GridMark> {
    if !valid_date(y, m, d) {
        seq![]
    } else {
        let t = instant(y, m, d, 0, 0);
        let coarse = mark_when(w.days > 60 && d % 12 == 0, w, t, 12 * DAY_SPACING) + mark_when(
            w.days > 30 && d % 6 == 0,
            w,
            t,
            6 * DAY_SPACING,
        ) + mark_when(w.days > 15 && d % 3 == 0, w, t, 3 * DAY_SPACING);
        if w.days > 2 {
            coarse + mark_in(w, t, DAY_SPACING as int)
        } else {
            let on_first = y == w.first.date.year && m == w.first.date.month && d
                == w.first.date.day;
            let on_last = y == w.last.date.year && m == w.last.date.month && d == w.last.date.day;
            let lo: int = if on_first { w.first.hour as int } else { 0 };
            let hi: int = if on_last { w.last.hour as int } else { 23 };
            coarse + hours_upto(w, y, m, d, lo, hi + 1)
        }
    }
}

pub open spec fn days_upto(w: Window, y: int, m: int, lo: int, k: int) -> Seq<GridMark>
    decreases k - lo,
{
    if k <= lo {
        seq![]
    } else {
        days_upto(w, y, m, lo, k - 1) + day_marks(w, y, m, k - 1)
    }
}

/// Marks of one month: its first day on windows over ninety days, else its
/// days.
pub open spec fn month_marks(w: Window, y: int, m: int) -> Seq<GridMark> {
    if w.days > 90 {
        mark_in(w, instant(y, m, 1, 0, 0), MONTH_SPACING as int)
    } else {
        let on_first = y == w.first.date.year && m == w.first.date.month;
        let on_last = y == w.last.date.year && m == w.last.date.month;
        let lo: int = if on_first { w.first.date.day as int } else { 1 };
        let hi: int = if on_last { w.last.date.day as int } else { 31 };
        days_upto(w, y, m, lo, hi + 1)
    }
}

pub open spec fn months_upto(w: Window, y: int, lo: int, k: int) -> Seq<GridMark>
    decreases k - lo,
{
    if k <= lo {
        seq![]
    } else {
        months_upto(w, y, lo, k - 1) + month_marks(w, y, k - 1)
    }
}

/// Marks of one year: January 1st of decade years on windows over twenty
/// years, January 1st on windows over three years, else its months.
pub open spec fn year_marks(w: Window, y: int) -> Seq<GridMark> {
    let jan1 = instant(y, 1, 1, 0, 0);
    if w.days > 7300 {
        mark_when(y % 10 == 0, w, jan1, DECADE_SPACING as int)
    } else if w.days > 1095 {
        mark_in(w, jan1, YEAR_SPACING as int)
    } else {
        let lo: int = if y == w.first.date.year { w.first.date.month as int } else { 1 };
        let hi: int = if y == w.last.date.year { w.last.date.month as int } else { 12 };
        months_upto(w, y, lo, hi + 1)
    }
}

pub open spec fn years_upto(w: Window, lo: int, k: int) -> Seq<GridMark>
    decreases k - lo,
{
    if k <= lo {
        seq![]
    } else {
        years_upto(w, lo, k - 1) + year_marks(w, k - 1)
    }
}

/// The gridlines of the visible window `[t0, t1)`, both ends first clamped
/// to the representable timestamps.
pub open spec fn grid_marks(t0: int, t1: int) -> Seq<GridMark> {
    let a = clamp_timestamp(t0);
    let b = clamp_timestamp(t1);
    if a < b {
        let w = window_of(a, b);
        years_upto(w, w.first.date.year as int, w.last.date.year + 1)
    } else {
        seq![]
    }
}


fn push_in(w: &Window, pos: i64, spacing: i64, marks: &mut Vec<GridMark>)
    ensures
        final(marks)@ == old(marks)@ + mark_in(*w, pos as int, spacing as int),
{
    if w.start <= pos && pos < w.end {
        marks.push(GridMark { position: pos, spacing });
    }
}

fn instant_of(date: CalendarDate, hour: u8, minute: u8) -> (r: i64)
    requires
        date.wf(),
        hour < 24,
        minute < 60,
    ensures
        r == instant(date.year as int, date.month as int, date.day as int, hour as int, minute as int),
{
    unix_timestamp(&DateTime { date, hour, minute, second: 0 })
}

fn push_hour(w: &Window, date: CalendarDate, h: u8, marks: &mut Vec<GridMark>)
    requires
        w.wf(),
        date.wf(),
        h < 24,
    ensures
        final(marks)@ == old(marks)@ + hour_marks(
            *w,
            date.year as int,
            date.month as int,
            date.day as int,
            h as int,
        ),
{
    let ghost (y, m, d) = (date.year as int, date.month as int, date.day as int);
    let t = instant_of(date, h, 0);
    if w.hours > 25 && h % 6 == 0 {
        push_in(w, t, 6 * HOUR_SPACING, marks);
    }
    if w.hours > 15 && h % 3 == 0 {
        push_in(w, t, 3 * HOUR_SPACING, marks);
    }
    if w.hours > 2 {
        push_in(w, t, HOUR_SPACING, marks);
        assert(marks@ =~= old(marks)@ + hour_marks(*w, y, m, d, h as int));
        return;
    }
    let ghost base = marks@;
    let on_first = date == w.first.date && h == w.first.hour;
    let on_last = date == w.last.date && h == w.last.hour;
    let lo: u8 = if on_first { w.first.minute } else { 0 };
    let hi: u8 = if on_last { w.last.minute } else { 59 };
    let mut mi: u8 = lo;
    while mi <= hi
        invariant
            w.wf(),
            date.wf(),
            h < 24,
            hi <= 59,
            y == date.year as int,
            m == date.month as int,
            d == date.day as int,
            lo <= mi,
            mi <= hi + 1 || mi == lo,
            marks@ == base + minutes_upto(*w, y, m, d, h as int, lo as int, mi as int),
        decreases hi + 1 - mi,
    {
        let t = instant_of(date, h, mi);
        push_in(w, t, MINUTE_SPACING, marks);
        mi = mi + 1;
        assert(marks@ =~= base + minutes_upto(*w, y, m, d, h as int, lo as int, mi as int));
    }
    assert(marks@ =~= old(marks)@ + hour_marks(*w, y, m, d, h as int));
}

fn push_day(w: &Window, y: i32, m: u8, d: u8, marks: &mut Vec<GridMark>)
    requires
        w.wf(),
        MIN_YEAR <= y <= MAX_YEAR,
        1 <= m <= 12,
        1 <= d <= 31,
    ensures
        final(marks)@ == old(marks)@ + day_marks(*w, y as int, m as int, d as int),
{
    let date = match calendar_date(y, m, d) {
        Some(date) => date,
        None => {
            assert(marks@ =~= old(marks)@ + day_marks(*w, y as int, m as int, d as int));
            return ;
        },
    };
    let t = instant_of(date, 0, 0);
    if w.days > 60 && d % 12 == 0 {
        push_in(w, t, 12 * DAY_SPACING, marks);
    }
    if w.days > 30 && d % 6 == 0 {
        push_in(w, t, 6 * DAY_SPACING, marks);
    }
    if w.days > 15 && d % 3 == 0 {
        push_in(w, t, 3 * DAY_SPACING, marks);
    }
    if w.days > 2 {
        push_in(w, t, DAY_SPACING, marks);
        assert(marks@ =~= old(marks)@ + day_marks(*w, y as int, m as int, d as int));
        return ;
    }
    let ghost base = marks@;
    let lo: u8 = if date == w.first.date { w.first.hour } else { 0 };
    let hi: u8 = if date == w.last.date { w.last.hour } else { 23 };
    let mut h: u8 = lo;
    while h <= hi
        invariant
            w.wf(),
            date.wf(),
            date == (CalendarDate { year: y, month: m, day: d }),
            hi <= 23,
            lo <= h,
            h <= hi + 1 || h == lo,
            marks@ == base + hours_upto(*w, y as int, m as int, d as int, lo as int, h as int),
        decreases hi + 1 - h,
    {
        push_hour(w, date, h, marks);
        h = h + 1;
        assert(marks@ =~= base + hours_upto(*w, y as int, m as int, d as int, lo as int, h as int));
    }
    assert(marks@ =~= old(marks)@ + day_marks(*w, y as int, m as int, d as int));
}

fn push_month(w: &Window, y: i32, m: u8, marks: &mut Vec<GridMark>)
    requires
        w.wf(),
        MIN_YEAR <= y <= MAX_YEAR,
        1 <= m <= 12,
    ensures
        final(marks)@ == old(marks)@ + month_marks(*w, y as int, m as int),
{
    if w.days > 90 {
        match calendar_date(y, m, 1) {
            Some(date) => {
                let t = instant_of(date, 0, 0);
                push_in(w, t, MONTH_SPACING, marks);
            },
            None => {},
        }
        return ;
    }
    let ghost base = marks@;
    let lo: u8 = if y == w.first.date.year && m == w.first.date.month {
        w.first.date.day
    } else {
        1
    };
    let hi: u8 = if y == w.last.date.year && m == w.last.date.month {
        w.last.date.day
    } else {
        31
    };
    let mut d: u8 = lo;
    while d <= hi
        invariant
            w.wf(),
            MIN_YEAR <= y <= MAX_YEAR,
            1 <= m <= 12,
            1 <= lo,
            hi <= 31,
            lo <= d,
            d <= hi + 1 || d == lo,
            marks@ == base + days_upto(*w, y as int, m as int, lo as int, d as int),
        decreases hi + 1 - d,
    {
        push_day(w, y, m, d, marks);
        d = d + 1;
        assert(marks@ =~= base + days_upto(*w, y as int, m as int, lo as int, d as int));
    }
}

fn push_year(w: &Window, y: i32, marks: &mut Vec<GridMark>)
    requires
        w.wf(),
        MIN_YEAR <= y <= MAX_YEAR,
    ensures
        final(marks)@ == old(marks)@ + year_marks(*w, y as int),
{
    if w.days > 7300 {
        if (y + 10000) as u32 % 10 == 0 {
            match calendar_date(y, 1, 1) {
                Some(date) => {
                    let t = instant_of(date, 0, 0);
                    push_in(w, t, DECADE_SPACING, marks);
                },
                None => {},
            }
        }
        assert(marks@ =~= old(marks)@ + year_marks(*w, y as int));
        return ;
    }
    if w.days > 1095 {
        match calendar_date(y, 1, 1) {
            Some(date) => {
                let t = instant_of(date, 0, 0);
                push_in(w, t, YEAR_SPACING, marks);
            },
            None => {},
        }
        return ;
    }
    let ghost base = marks@;
    let lo: u8 = if y == w.first.date.year { w.first.date.month } else { 1 };
    let hi: u8 = if y == w.last.date.year { w.last.date.month } else { 12 };
    let mut m: u8 = lo;
    while m <= hi
        invariant
            w.wf(),
            MIN_YEAR <= y <= MAX_YEAR,
            1 <= lo,
            hi <= 12,
            lo <= m,
            m <= hi + 1 || m == lo,
            marks@ == base + months_upto(*w, y as int, lo as int, m as int),
        decreases hi + 1 - m,
    {
        push_month(w, y, m, marks);
        m = m + 1;
        assert(marks@ =~= base + months_upto(*w, y as int, lo as int, m as int));
    }
}

fn clamp(t: i64) -> (r: i64)
    ensures
        r == clamp_timestamp(t as int),
{
    if t < MIN_TIMESTAMP {
        MIN_TIMESTAMP
    } else if t > MAX_TIMESTAMP {
        MAX_TIMESTAMP
    } else {
        t
    }
}

/// The gridlines of the visible window `[t0, t1)` (Unix timestamps), in
/// the order years, months, days, hours and minutes are walked.
pub fn x_grid(t0: i64, t1: i64) -> (r: Vec<GridMark>)
    ensures
        r@ == grid_marks(t0 as int, t1 as int),
{
    let a = clamp(t0);
    let b = clamp(t1);
    let mut marks: Vec<GridMark> = Vec::new();
    if a >= b {
        return marks;
    }
    let first = match datetime_from_unix(a) {
        Some(d) => d,
        None => return marks,
    };
    let last = match datetime_from_unix(b) {
        Some(d) => d,
        None => return marks,
    };
    proof {
        lemma_datetime_at(first);
        lemma_datetime_at(last);
    }
    let w = Window {
        start: a,
        end: b,
        first,
        last,
        days: (b - a) / DAY_SPACING,
        hours: (b - a) / HOUR_SPACING,
    };
    assert(w == window_of(a as int, b as int));
    let mut y: i32 = first.date.year;
    while y <= last.date.year
        invariant
            w.wf(),
            w == window_of(a as int, b as int),
            first.date.year <= y <= last.date.year + 1,
            last.date.year <= MAX_YEAR,
            MIN_YEAR <= first.date.year,
            marks@ == years_upto(w, first.date.year as int, y as int),
        decreases last.date.year + 1 - y,
    {
        push_year(&w, y, &mut marks);
        y = y + 1;
        assert(marks@ =~= years_upto(w, first.date.year as int, y as int));
    }
    marks
}


/// How an axis label shows an instant, chosen by the spacing of its mark.
#[derive(Clone, Copy, Debug, PartialEq, Eq, Structural)]
pub enum LabelFormat {
    /// `[year]`
    Year,
    /// `[year]/[month]`
    YearMonth,
    /// `[year]/[month]/[day]`
    Date,
    /// `[year]/[month]/[day] - [hour]:[minute]`
    DateTime,
}

/// Marks a year or more apart show the year, a month or more apart the
/// month, a day or more apart the date, and finer marks the minute.
pub fn label_format(spacing: i64) -> (r: LabelFormat)
    ensures
        r == (if spacing >= 365 * 86400 {
            LabelFormat::Year
        } else if spacing >= 30 * 86400 {
            LabelFormat::YearMonth
        } else if spacing >= 86400 {
            LabelFormat::Date
        } else {
            LabelFormat::DateTime
        }),
{
    if spacing >= 365 * DAY_SPACING {
        LabelFormat::Year
    } else if spacing >= 30 * DAY_SPACING {
        LabelFormat::YearMonth
    } else if spacing >= DAY_SPACING {
        LabelFormat::Date
    } else {
        LabelFormat::DateTime
    }
}

/// Every mark of `s` satisfies `p`.
pub open spec fn all_marks(s: Seq<GridMark>, p: spec_fn(GridMark) -> bool) -> bool {
    forall|i: int| 0 <= i < s.len() ==> #[trigger] p(s[i])
}

pub open spec fn in_window(w: Window) -> spec_fn(GridMark) -> bool {
    |g: GridMark| w.start <= g.position < w.end
}

pub open spec fn coarse() -> spec_fn(GridMark) -> bool {
    |g: GridMark| g.spacing == YEAR_SPACING || g.spacing == DECADE_SPACING
}

proof fn lemma_all_concat(a: Seq<GridMark>, b: Seq<GridMark>, p: spec_fn(GridMark) -> bool)
    requires
        all_marks(a, p),
        all_marks(b, p),
    ensures
        all_marks(a + b, p),
{
    assert forall|i: int| 0 <= i < (a + b).len() implies #[trigger] p((a + b)[i]) by {
        if i < a.len() {
            assert((a + b)[i] == a[i]);
        } else {
            assert((a + b)[i] == b[i - a.len()]);
        }
    }
}

proof fn lemma_mark_in_window(w: Window, pos: int, spacing: int)
    ensures
        all_marks(mark_in(w, pos, spacing), in_window(w)),
        all_marks(mark_when(true, w, pos, spacing), in_window(w)),
        all_marks(mark_when(false, w, pos, spacing), in_window(w)),
{
}

proof fn lemma_hour_in_window(w: Window, y: int, m: int, d: int, h: int)
    ensures
        all_marks(hour_marks(w, y, m, d, h), in_window(w)),
{
    let t = instant(y, m, d, h, 0);
    let p = in_window(w);
    lemma_mark_in_window(w, t, 6 * HOUR_SPACING);
    lemma_mark_in_window(w, t, 3 * HOUR_SPACING);
    lemma_mark_in_window(w, t, HOUR_SPACING as int);
    let coarse = mark_when(w.hours > 25 && h % 6 == 0, w, t, 6 * HOUR_SPACING) + mark_when(
        w.hours > 15 && h % 3 == 0,
        w,
        t,
        3 * HOUR_SPACING,
    );
    lemma_all_concat(
        mark_when(w.hours > 25 && h % 6 == 0, w, t, 6 * HOUR_SPACING),
        mark_when(w.hours > 15 && h % 3 == 0, w, t, 3 * HOUR_SPACING),
        p,
    );
    if w.hours > 2 {
        lemma_all_concat(coarse, mark_in(w, t, HOUR_SPACING as int), p);
    } else {
        let on_first = y == w.first.date.year && m == w.first.date.month && d == w.first.date.day
            && h == w.first.hour;
        let on_last = y == w.last.date.year && m == w.last.date.month && d == w.last.date.day && h
            == w.last.hour;
        let lo: int = if on_first { w.first.minute as int } else { 0 };
        let hi: int = if on_last { w.last.minute as int } else { 59 };
        lemma_minutes_in_window(w, y, m, d, h, lo, hi + 1);
        lemma_all_concat(coarse, minutes_upto(w, y, m, d, h, lo, hi + 1), p);
    }
}

proof fn lemma_minutes_in_window(w: Window, y: int, m: int, d: int, h: int, lo: int, k: int)
    ensures
        all_marks(minutes_upto(w, y, m, d, h, lo, k), in_window(w)),
    decreases k - lo,
{
    if k > lo {
        lemma_minutes_in_window(w, y, m, d, h, lo, k - 1);
        lemma_mark_in_window(w, instant(y, m, d, h, k - 1), MINUTE_SPACING as int);
        lemma_all_concat(
            minutes_upto(w, y, m, d, h, lo, k - 1),
            mark_in(w, instant(y, m, d, h, k - 1), MINUTE_SPACING as int),
            in_window(w),
        );
    }
}

proof fn lemma_hours_in_window(w: Window, y: int, m: int, d: int, lo: int, k: int)
    ensures
        all_marks(hours_upto(w, y, m, d, lo, k), in_window(w)),
    decreases k - lo,
{
    if k > lo {
        lemma_hours_in_window(w, y, m, d, lo, k - 1);
        lemma_hour_in_window(w, y, m, d, k - 1);
        lemma_all_concat(
            hours_upto(w, y, m, d, lo, k - 1),
            hour_marks(w, y, m, d, k - 1),
            in_window(w),
        );
    }
}

proof fn lemma_day_in_window(w: Window, y: int, m: int, d: int)
    ensures
        all_marks(day_marks(w, y, m, d), in_window(w)),
{
    if valid_date(y, m, d) {
        let t = instant(y, m, d, 0, 0);
        let p = in_window(w);
        lemma_mark_in_window(w, t, 12 * DAY_SPACING);
        lemma_mark_in_window(w, t, 6 * DAY_SPACING);
        lemma_mark_in_window(w, t, 3 * DAY_SPACING);
        lemma_mark_in_window(w, t, DAY_SPACING as int);
        let c1 = mark_when(w.days > 60 && d % 12 == 0, w, t, 12 * DAY_SPACING);
        let c2 = mark_when(w.days > 30 && d % 6 == 0, w, t, 6 * DAY_SPACING);
        let c3 = mark_when(w.days > 15 && d % 3 == 0, w, t, 3 * DAY_SPACING);
        lemma_all_concat(c1, c2, p);
        lemma_all_concat(c1 + c2, c3, p);
        if w.days > 2 {
            lemma_all_concat(c1 + c2 + c3, mark_in(w, t, DAY_SPACING as int), p);
        } else {
            let on_first = y == w.first.date.year && m == w.first.date.month && d
                == w.first.date.day;
            let on_last = y == w.last.date.year && m == w.last.date.month && d == w.last.date.day;
            let lo: int = if on_first { w.first.hour as int } else { 0 };
            let hi: int = if on_last { w.last.hour as int } else { 23 };
            lemma_hours_in_window(w, y, m, d, lo, hi + 1);
            lemma_all_concat(c1 + c2 + c3, hours_upto(w, y, m, d, lo, hi + 1), p);
        }
    }
}

proof fn lemma_days_in_window(w: Window, y: int, m: int, lo: int, k: int)
    ensures
        all_marks(days_upto(w, y, m, lo, k), in_window(w)),
    decreases k - lo,
{
    if k > lo {
        lemma_days_in_window(w, y, m, lo, k - 1);
        lemma_day_in_window(w, y, m, k - 1);
        lemma_all_concat(days_upto(w, y, m, lo, k - 1), day_marks(w, y, m, k - 1), in_window(w));
    }
}

proof fn lemma_months_in_window(w: Window, y: int, lo: int, k: int)
    ensures
        all_marks(months_upto(w, y, lo, k), in_window(w)),
    decreases k - lo,
{
    if k > lo {
        lemma_months_in_window(w, y, lo, k - 1);
        let m = k - 1;
        if w.days > 90 {
            lemma_mark_in_window(w, instant(y, m, 1, 0, 0), MONTH_SPACING as int);
        } else {
            let on_first = y == w.first.date.year && m == w.first.date.month;
            let on_last = y == w.last.date.year && m == w.last.date.month;
            let dlo: int = if on_first { w.first.date.day as int } else { 1 };
            let dhi: int = if on_last { w.last.date.day as int } else { 31 };
            lemma_days_in_window(w, y, m, dlo, dhi + 1);
        }
        lemma_all_concat(months_upto(w, y, lo, k - 1), month_marks(w, y, m), in_window(w));
    }
}

proof fn lemma_years_in_window(w: Window, lo: int, k: int)
    ensures
        all_marks(years_upto(w, lo, k), in_window(w)),
    decreases k - lo,
{
    if k > lo {
        lemma_years_in_window(w, lo, k - 1);
        let y = k - 1;
        let jan1 = instant(y, 1, 1, 0, 0);
        lemma_mark_in_window(w, jan1, DECADE_SPACING as int);
        lemma_mark_in_window(w, jan1, YEAR_SPACING as int);
        if w.days <= 1095 {
            let mlo: int = if y == w.first.date.year { w.first.date.month as int } else { 1 };
            let mhi: int = if y == w.last.date.year { w.last.date.month as int } else { 12 };
            lemma_months_in_window(w, y, mlo, mhi + 1);
        }
        lemma_all_concat(years_upto(w, lo, k - 1), year_marks(w, y), in_window(w));
    }
}

/// Every gridline of the visible window `[t0, t1)` lies inside it.
pub proof fn lemma_marks_inside_window(t0: int, t1: int)
    requires
        t0 < t1,
    ensures
        forall|i: int|
            0 <= i < grid_marks(t0, t1).len() ==> t0 <= #[trigger] grid_marks(t0, t1)[i].position
                < t1,
{
    let a = clamp_timestamp(t0);
    let b = clamp_timestamp(t1);
    if a < b {
        let w = window_of(a, b);
        lemma_years_in_window(w, w.first.date.year as int, w.last.date.year + 1);
        assert forall|i: int| 0 <= i < grid_marks(t0, t1).len() implies t0
            <= #[trigger] grid_marks(t0, t1)[i].position < t1 by {
            assert(in_window(w)(grid_marks(t0, t1)[i]));
        }
    }
}

proof fn lemma_years_coarse(w: Window, lo: int, k: int)
    requires
        w.days > 1095,
    ensures
        all_marks(years_upto(w, lo, k), coarse()),
    decreases k - lo,
{
    if k > lo {
        lemma_years_coarse(w, lo, k - 1);
        lemma_all_concat(years_upto(w, lo, k - 1), year_marks(w, k - 1), coarse());
    }
}

/// A window of five years or more (at least 5 * 365 days) gets gridlines
/// a year or a decade apart only: none at month, day, hour or minute
/// density.
pub proof fn lemma_long_window_is_coarse(t0: int, t1: int)
    requires
        MIN_TIMESTAMP <= t0,
        t1 <= MAX_TIMESTAMP,
        t1 - t0 >= 5 * 365 * 86400,
    ensures
        forall|i: int|
            0 <= i < grid_marks(t0, t1).len() ==> #[trigger] grid_marks(t0, t1)[i].spacing
                >= YEAR_SPACING,
{
    let w = window_of(t0, t1);
    lemma_years_coarse(w, w.first.date.year as int, w.last.date.year + 1);
    assert forall|i: int| 0 <= i < grid_marks(t0, t1).len() implies #[trigger] grid_marks(
        t0,
        t1,
    )[i].spacing >= YEAR_SPACING by {
        assert(coarse()(grid_marks(t0, t1)[i]));
    }
}

/// The gridlines depend on the visible window alone: two computations for
/// the same window give the same sequence.
pub proof fn lemma_marks_deterministic(t0: int, t1: int, r1: Seq<GridMark>, r2: Seq<GridMark>)
    requires
        r1 == grid_marks(t0, t1),
        r2 == grid_marks(t0, t1),
    ensures
        r1 == r2,
{
}

} // verus!
