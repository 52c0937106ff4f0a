//! Monthly weather reports, their merging into one continuous series, and
//! the points each measurement contributes to a chart.

use vstd::prelude::*;
use crate::calendar::{unix_timestamp, CalendarDate, DateTime};

verus! {

/// One day of measurements. Temperatures are in tenths of a degree
/// Celsius, rain in tenths of a millimetre, wind speeds in tenths of a
/// kilometre per hour.
#[derive(Clone, Copy, Debug, PartialEq, Eq, Structural)]
pub struct DayRecord {
    pub date: CalendarDate,
    pub low_temp: i32,
    pub mean_temp: i32,
    pub high_temp: i32,
    pub low_temp_time: Option<DateTime>,
    pub high_temp_time: Option<DateTime>,
    pub rain: i32,
    pub avg_wind_speed: i32,
    pub high_wind_speed: i32,
    pub high_wind_speed_time: Option<DateTime>,
}

/// What a report says of itself: the period it covers, named by a date.
#[derive(Clone, Copy, Debug, PartialEq, Eq, Structural)]
pub struct Metadata {
    pub date: CalendarDate,
}

/// The structured content of a report text: its metadata and its days in
/// order.
#[derive(Clone, Debug)]
pub struct WeatherReport {
    pub metadata: Metadata,
    pub days: Vec<DayRecord>,
}

/// A report, with the text it was read from when it has one. A report
/// made by merging others has none.
#[derive(Clone, Debug)]
pub struct Report {
    pub original: Option<String>,
    pub report: WeatherReport,
}

pub open spec fn opt_time_wf(t: Option<DateTime>) -> bool {
    t matches Some(dt) ==> dt.wf()
}

impl DayRecord {
    pub open spec fn wf(self) -> bool {
        &&& self.date.wf()
        &&& opt_time_wf(self.low_temp_time)
        &&& opt_time_wf(self.high_temp_time)
        &&& opt_time_wf(self.high_wind_speed_time)
    }
}

/// The days of every report of `s`, report after report.
pub open spec fn all_days(s: Seq<Report>) -> Seq<DayRecord>
    decreases s.len(),
{
    if s.len() == 0 {
        seq![]
    } else {
        all_days(s.drop_last()) + s.last().report.days@
    }
}

impl Report {
    /// The days of the report, as a sequence.
    pub open spec fn days(self) -> Seq<DayRecord> {
        self.report.days@
    }

    /// A report read from `original`, whose structured content is `report`.
    pub fn original(original: String, report: WeatherReport) -> (r: Report)
        ensures
            r.original == Some(original),
            r.report == report,
    {
        Report { original: Some(original), report }
    }

    /// The days of `self` followed by those of `other`, under the metadata
    /// of `self`, with no text. Days are neither sorted nor deduplicated.
    pub fn merge(&self, other: &Self) -> (r: Report)
        ensures
            r.days() == self.days() + other.days(),
            r.days().len() == self.days().len() + other.days().len(),
            r.report.metadata == self.report.metadata,
            r.original.is_none(),
    {
        let mut days: Vec<DayRecord> = Vec::new();
        let mut i: usize = 0;
        while i < self.report.days.len()
            invariant
                i <= self.days().len(),
                days@ == self.days().subrange(0, i as int),
            decreases self.days().len() - i,
        {
            days.push(self.report.days[i]);
            i = i + 1;
            assert(days@ =~= self.days().subrange(0, i as int));
        }
        let mut j: usize = 0;
        while j < other.report.days.len()
            invariant
                j <= other.days().len(),
                days@ == self.days() + other.days().subrange(0, j as int),
            decreases other.days().len() - j,
        {
            days.push(other.report.days[j]);
            j = j + 1;
            assert(days@ =~= self.days() + other.days().subrange(0, j as int));
        }
        assert(days@ =~= self.days() + other.days());
        Report { original: None, report: WeatherReport { metadata: self.report.metadata, days } }
    }

    /// A copy of the report.
    pub fn duplicate(&self) -> (r: Report)
        ensures
            r.original == self.original,
            r.report.metadata == self.report.metadata,
            r.days() == self.days(),
    {
        let original = match &self.original {
            Some(text) => Some(text.clone()),
            None => None,
        };
        let mut days: Vec<DayRecord> = Vec::new();
        let mut i: usize = 0;
        while i < self.report.days.len()
            invariant
                i <= self.days().len(),
                days@ == self.days().subrange(0, i as int),
            decreases self.days().len() - i,
        {
            days.push(self.report.days[i]);
            i = i + 1;
            assert(days@ =~= self.days().subrange(0, i as int));
        }
        assert(days@ =~= self.days());
        Report { original, report: WeatherReport { metadata: self.report.metadata, days } }
    }
}


/// All the days of `reports` in one report: the first report merged with
/// each of the others in turn. It has the metadata of the first report,
/// and a text only when there is a single report.
pub fn aggregate(reports: &[Report]) -> (r: Report)
    requires
        reports@.len() > 0,
    ensures
        r.days() == all_days(reports@),
        r.report.metadata == reports@[0].report.metadata,
        reports@.len() == 1 ==> r.original == reports@[0].original,
        reports@.len() > 1 ==> r.original.is_none(),
{
    let mut acc = reports[0].duplicate();
    proof {
        assert(reports@.subrange(0, 1).drop_last() =~= reports@.subrange(0, 0));
        assert(all_days(reports@.subrange(0, 0)) =~= seq![]);
        assert(all_days(reports@.subrange(0, 1)) =~= reports@[0].days());
    }
    let mut i: usize = 1;
    while i < reports.len()
        invariant
            1 <= i <= reports@.len(),
            acc.days() == all_days(reports@.subrange(0, i as int)),
            acc.report.metadata == reports@[0].report.metadata,
            i == 1 ==> acc.original == reports@[0].original,
            i > 1 ==> acc.original.is_none(),
        decreases reports@.len() - i,
    {
        proof {
            assert(reports@.subrange(0, i + 1).drop_last() =~= reports@.subrange(0, i as int));
        }
        acc = acc.merge(&reports[i]);
        i = i + 1;
    }
    assert(reports@.subrange(0, i as int) =~= reports@);
    acc
}

/// The measurements a chart draws, each against the instant it was taken.
#[derive(Clone, Copy, Debug, PartialEq, Eq, Structural)]
pub enum Series {
    LowTemp,
    MeanTemp,
    HighTemp,
    Rain,
    AvgWindSpeed,
    HighWindSpeed,
}

/// One point of a chart: a Unix timestamp and a measurement in tenths.
#[derive(Clone, Copy, Debug, PartialEq, Eq, Structural)]
pub struct ChartPoint {
    pub time: i64,
    pub value: i32,
}

pub open spec fn noon(date: CalendarDate) -> DateTime {
    DateTime { date, hour: 12, minute: 0, second: 0 }
}

/// The instant of a measurement: its recorded time, or noon of its day
/// when none was recorded.
pub open spec fn time_or_noon(t: Option<DateTime>, date: CalendarDate) -> DateTime {
    match t {
        Some(dt) => dt,
        None => noon(date),
    }
}

pub open spec fn series_time(day: DayRecord, series: Series) -> DateTime {
    match series {
        Series::LowTemp => time_or_noon(day.low_temp_time, day.date),
        Series::HighTemp => time_or_noon(day.high_temp_time, day.date),
        Series::HighWindSpeed => time_or_noon(day.high_wind_speed_time, day.date),
        _ => noon(day.date),
    }
}

pub open spec fn series_value(day: DayRecord, series: Series) -> i32 {
    match series {
        Series::LowTemp => day.low_temp,
        Series::MeanTemp => day.mean_temp,
        Series::HighTemp => day.high_temp,
        Series::Rain => day.rain,
        Series::AvgWindSpeed => day.avg_wind_speed,
        Series::HighWindSpeed => day.high_wind_speed,
    }
}

pub open spec fn chart_point(day: DayRecord, series: Series) -> ChartPoint {
    ChartPoint {
        time: series_time(day, series).unix_seconds() as i64,
        value: series_value(day, series),
    }
}

fn time_or_noon_of(t: Option<DateTime>, date: CalendarDate) -> (r: DateTime)
    ensures
        r == time_or_noon(t, date),
{
    match t {
        Some(dt) => dt,
        None => DateTime { date, hour: 12, minute: 0, second: 0 },
    }
}

/// The points of one measurement series, one per day, in the order of the
/// days.
pub fn series_points(report: &WeatherReport, series: Series) -> (r: Vec<ChartPoint>)
    requires
        forall|i: int| 0 <= i < report.days@.len() ==> (#[trigger] report.days@[i]).wf(),
    ensures
        r@.len() == report.days@.len(),
        forall|i: int| 0 <= i < r@.len() ==> r@[i] == chart_point(#[trigger] report.days@[i], series),
{
    let mut points: Vec<ChartPoint> = Vec::new();
    let mut i: usize = 0;
    while i < report.days.len()
        invariant
            i <= report.days@.len(),
            points@.len() == i,
            forall|j: int| 0 <= j < report.days@.len() ==> (#[trigger] report.days@[j]).wf(),
            forall|j: int| 0 <= j < i ==> points@[j] == chart_point(#[trigger] report.days@[j], series),
        decreases report.days@.len() - i,
    {
        let day = report.days[i];
        let at = match series {
            Series::LowTemp => time_or_noon_of(day.low_temp_time, day.date),
            Series::HighTemp => time_or_noon_of(day.high_temp_time, day.date),
            Series::HighWindSpeed => time_or_noon_of(day.high_wind_speed_time, day.date),
            _ => time_or_noon_of(None, day.date),
        };
        let value = match series {
            Series::LowTemp => day.low_temp,
            Series::MeanTemp => day.mean_temp,
            Series::HighTemp => day.high_temp,
            Series::Rain => day.rain,
            Series::AvgWindSpeed => day.avg_wind_speed,
            Series::HighWindSpeed => day.high_wind_speed,
        };
        let time = unix_timestamp(&at);
        points.push(ChartPoint { time, value });
        i = i + 1;
    }
    points
}

/// The part of the time axis a chart shows at first: from the start of the
/// first day to the last second of the last day, but no more than the last
/// sixty days when the report spans over sixty whole days. `None` for a
/// report without days.
pub fn default_x_bounds(report: &WeatherReport) -> (r: Option<(i64, i64)>)
    requires
        forall|i: int| 0 <= i < report.days@.len() ==> (#[trigger] report.days@[i]).wf(),
    ensures
        report.days@.len() == 0 <==> r.is_none(),
        r matches Some((start, end)) ==> {
            let first = DateTime {
                date: report.days@[0].date,
                hour: 0,
                minute: 0,
                second: 0,
            }.unix_seconds();
            let last = DateTime {
                date: report.days@.last().date,
                hour: 23,
                minute: 59,
                second: 59,
            }.unix_seconds();
            &&& end == last
            &&& start == (if last - first >= 61 * 86400 {
                last - 60 * 86400
            } else {
                first
            })
        },
{
    let n = report.days.len();
    if n == 0 {
        return None;
    }
    let first = unix_timestamp(
        &DateTime { date: report.days[0].date, hour: 0, minute: 0, second: 0 },
    );
    let end = unix_timestamp(
        &DateTime { date: report.days[n - 1].date, hour: 23, minute: 59, second: 59 },
    );
    let start = if end - first >= 61 * 86400 {
        end - 60 * 86400
    } else {
        first
    };
    Some((start, end))
}

/// The text of decimal digit `d`.
pub open spec fn digit_text(d: int) -> Seq<char> {
    if d == 0 { "0"@ }
    else if d == 1 { "1"@ }
    else if d == 2 { "2"@ }
    else if d == 3 { "3"@ }
    else if d == 4 { "4"@ }
    else if d == 5 { "5"@ }
    else if d == 6 { "6"@ }
    else if d == 7 { "7"@ }
    else if d == 8 { "8"@ }
    else { "9"@ }
}

/// `n` written in decimal.
pub open spec fn decimal(n: nat) -> Seq<char>
    decreases n,
{
    if n < 10 {
        digit_text(n as int)
    } else {
        decimal(n / 10) + digit_text((n % 10) as int)
    }
}

/// A year as the calendar writes it, with a minus sign before year zero.
pub open spec fn year_text(y: int) -> Seq<char> {
    if y < 0 {
        "-"@ + decimal((-y) as nat)
    } else {
        decimal(y as nat)
    }
}

/// The French name of month `m`.
pub open spec fn month_name(m: int) -> Seq<char> {
    if m == 1 { "Janvier"@ }
    else if m == 2 { "Février"@ }
    else if m == 3 { "Mars"@ }
    else if m == 4 { "Avril"@ }
    else if m == 5 { "Mai"@ }
    else if m == 6 { "Juin"@ }
    else if m == 7 { "Juillet"@ }
    else if m == 8 { "Aout"@ }
    else if m == 9 { "Septembre"@ }
    else if m == 10 { "Octobre"@ }
    else if m == 11 { "Novembre"@ }
    else { "Décembre"@ }
}

fn digit_text_of(d: u32) -> (r: &'static str)
    requires
        d < 10,
    ensures
        r@ == digit_text(d as int),
{
    if d == 0 { "0" }
    else if d == 1 { "1" }
    else if d == 2 { "2" }
    else if d == 3 { "3" }
    else if d == 4 { "4" }
    else if d == 5 { "5" }
    else if d == 6 { "6" }
    else if d == 7 { "7" }
    else if d == 8 { "8" }
    else { "9" }
}

fn push_decimal(s: &mut String, n: u32)
    ensures
        final(s)@ == old(s)@ + decimal(n as nat),
    decreases n,
{
    if n >= 10 {
        push_decimal(s, n / 10);
    }
    s.append(digit_text_of(n % 10));
    assert(s@ =~= old(s)@ + decimal(n as nat));
}

fn month_name_of(m: u8) -> (r: &'static str)
    ensures
        r@ == month_name(m as int),
{
    if m == 1 { "Janvier" }
    else if m == 2 { "Février" }
    else if m == 3 { "Mars" }
    else if m == 4 { "Avril" }
    else if m == 5 { "Mai" }
    else if m == 6 { "Juin" }
    else if m == 7 { "Juillet" }
    else if m == 8 { "Aout" }
    else if m == 9 { "Septembre" }
    else if m == 10 { "Octobre" }
    else if m == 11 { "Novembre" }
    else { "Décembre" }
}

impl Report {
    /// The label of the report's period, such as `2020 - Mars`.
    pub fn name(&self) -> (r: String)
        requires
            1 <= self.report.metadata.date.month <= 12,
        ensures
            r@ == year_text(self.report.metadata.date.year as int) + " - "@ + month_name(
                self.report.metadata.date.month as int,
            ),
    {
        let date = self.report.metadata.date;
        let mut s = String::new();
        if date.year < 0 {
            s.append("-");
            push_decimal(&mut s, (-(date.year as i64)) as u32);
        } else {
            push_decimal(&mut s, date.year as u32);
        }
        s.append(" - ");
        s.append(month_name_of(date.month));
        s
    }
}

/// What a report view shows.
#[derive(Clone, Copy, Debug, PartialEq, Eq, Structural)]
pub enum DisplayReport {
    Temperature,
    Rain,
    Wind,
    Text,
}

impl DisplayReport {
    /// The views a report offers: its charts, and its text when it has one.
    pub fn choices(report: &Report) -> (r: Vec<DisplayReport>)
        ensures
            report.original.is_some() ==> r@ == seq![
                DisplayReport::Temperature,
                DisplayReport::Rain,
                DisplayReport::Wind,
                DisplayReport::Text,
            ],
            report.original.is_none() ==> r@ == seq![
                DisplayReport::Temperature,
                DisplayReport::Rain,
                DisplayReport::Wind,
            ],
    {
        let mut r = vec![DisplayReport::Temperature, DisplayReport::Rain, DisplayReport::Wind];
        if report.original.is_some() {
            r.push(DisplayReport::Text);
        }
        assert(r@ =~= seq![DisplayReport::Temperature, DisplayReport::Rain, DisplayReport::Wind] + (
        if report.original.is_some() {
            seq![DisplayReport::Text]
        } else {
            seq![]
        }));
        r
    }
}

impl Default for DisplayReport {
    fn default() -> (r: DisplayReport)
        ensures
            r == DisplayReport::Temperature,
    {
        DisplayReport::Temperature
    }
}

} // verus!
