use meteo_dash::calendar::{CalendarDate, DateTime};
use meteo_dash::report::{
    aggregate, default_x_bounds, series_points, ChartPoint, DayRecord, DisplayReport, Metadata,
    Report, Series, WeatherReport,
};

const MAR_1_2020: i64 = 1583020800;

fn date(year: i32, month: u8, day: u8) -> CalendarDate {
    CalendarDate { year, month, day }
}

fn day(d: CalendarDate, mean: i32) -> DayRecord {
    DayRecord {
        date: d,
        low_temp: mean - 50,
        mean_temp: mean,
        high_temp: mean + 50,
        low_temp_time: None,
        high_temp_time: None,
        rain: 12,
        avg_wind_speed: 34,
        high_wind_speed: 560,
        high_wind_speed_time: None,
    }
}

fn report(period: CalendarDate, days: Vec<DayRecord>) -> Report {
    Report::original(
        format!("report for {}/{}", period.year, period.month),
        WeatherReport { metadata: Metadata { date: period }, days },
    )
}

#[test]
fn original_keeps_text_and_content() {
    let r = report(date(2020, 3, 1), vec![day(date(2020, 3, 1), 100)]);
    assert_eq!(r.original.as_deref(), Some("report for 2020/3"));
    assert_eq!(r.report.metadata.date, date(2020, 3, 1));
    assert_eq!(r.report.days.len(), 1);
}

#[test]
fn merge_concatenates_days_in_order() {
    let a = report(
        date(2020, 3, 1),
        vec![day(date(2020, 3, 1), 10), day(date(2020, 3, 2), 20)],
    );
    let b = report(
        date(2020, 4, 1),
        vec![day(date(2020, 4, 1), 30), day(date(2020, 4, 2), 40), day(date(2020, 4, 3), 50)],
    );
    let m = a.merge(&b);
    assert_eq!(m.report.days.len(), 5);
    let means: Vec<i32> = m.report.days.iter().map(|d| d.mean_temp).collect();
    assert_eq!(means, vec![10, 20, 30, 40, 50]);
    assert_eq!(m.report.metadata.date, date(2020, 3, 1));
    assert!(m.original.is_none());
}

#[test]
fn merge_does_not_deduplicate() {
    let a = report(date(2020, 3, 1), vec![day(date(2020, 3, 1), 10)]);
    let b = report(date(2020, 3, 1), vec![day(date(2020, 3, 1), 11)]);
    let m = a.merge(&b);
    assert_eq!(m.report.days.len(), 2);
    assert_eq!(m.report.days[0].mean_temp, 10);
    assert_eq!(m.report.days[1].mean_temp, 11);
}

#[test]
fn aggregate_folds_every_report() {
    let reports = vec![
        report(date(2020, 5, 1), vec![day(date(2020, 5, 1), 1)]),
        report(date(2020, 4, 1), vec![day(date(2020, 4, 1), 2), day(date(2020, 4, 2), 3)]),
        report(date(2020, 3, 1), vec![]),
        report(date(2020, 2, 1), vec![day(date(2020, 2, 1), 4)]),
    ];
    let all = aggregate(&reports);
    let means: Vec<i32> = all.report.days.iter().map(|d| d.mean_temp).collect();
    assert_eq!(means, vec![1, 2, 3, 4]);
    assert_eq!(all.report.metadata.date, date(2020, 5, 1));
    assert!(all.original.is_none());
}

#[test]
fn aggregate_of_one_report_is_that_report() {
    let reports = vec![report(date(2020, 5, 1), vec![day(date(2020, 5, 1), 1)])];
    let all = aggregate(&reports);
    assert_eq!(all.original.as_deref(), Some("report for 2020/5"));
    assert_eq!(all.report.days, reports[0].report.days);
}

#[test]
fn points_fall_back_to_noon() {
    let mut d = day(date(2020, 3, 1), 100);
    d.low_temp_time = Some(DateTime { date: date(2020, 3, 1), hour: 6, minute: 30, second: 0 });
    let r = WeatherReport { metadata: Metadata { date: date(2020, 3, 1) }, days: vec![d] };
    let noon = MAR_1_2020 + 12 * 3600;
    assert_eq!(
        series_points(&r, Series::LowTemp),
        vec![ChartPoint { time: MAR_1_2020 + 6 * 3600 + 30 * 60, value: 50 }]
    );
    assert_eq!(series_points(&r, Series::HighTemp), vec![ChartPoint { time: noon, value: 150 }]);
    assert_eq!(series_points(&r, Series::MeanTemp), vec![ChartPoint { time: noon, value: 100 }]);
    assert_eq!(series_points(&r, Series::Rain), vec![ChartPoint { time: noon, value: 12 }]);
    assert_eq!(
        series_points(&r, Series::AvgWindSpeed),
        vec![ChartPoint { time: noon, value: 34 }]
    );
    assert_eq!(
        series_points(&r, Series::HighWindSpeed),
        vec![ChartPoint { time: noon, value: 560 }]
    );
}

#[test]
fn default_bounds_cover_the_days() {
    let r = WeatherReport {
        metadata: Metadata { date: date(2020, 3, 1) },
        days: vec![day(date(2020, 3, 1), 0), day(date(2020, 3, 2), 0)],
    };
    assert_eq!(default_x_bounds(&r), Some((MAR_1_2020, MAR_1_2020 + 2 * 86400 - 1)));
}

#[test]
fn default_bounds_keep_the_last_sixty_days() {
    let r = WeatherReport {
        metadata: Metadata { date: date(2020, 1, 1) },
        days: vec![day(date(2020, 1, 1), 0), day(date(2020, 3, 2), 0)],
    };
    let end = MAR_1_2020 + 2 * 86400 - 1;
    assert_eq!(default_x_bounds(&r), Some((end - 60 * 86400, end)));
}

#[test]
fn default_bounds_of_no_days() {
    let r = WeatherReport { metadata: Metadata { date: date(2020, 1, 1) }, days: vec![] };
    assert_eq!(default_x_bounds(&r), None);
}

#[test]
fn display_starts_on_temperatures() {
    assert_eq!(DisplayReport::default(), DisplayReport::Temperature);
}

#[test]
fn report_names_read_year_and_month() {
    assert_eq!(report(date(2020, 3, 1), vec![]).name(), "2020 - Mars");
    assert_eq!(report(date(2006, 2, 1), vec![]).name(), "2006 - Février");
    assert_eq!(report(date(2023, 12, 1), vec![]).name(), "2023 - Décembre");
    assert_eq!(report(date(7, 8, 1), vec![]).name(), "7 - Aout");
    assert_eq!(report(date(-45, 1, 1), vec![]).name(), "-45 - Janvier");
}

#[test]
fn text_view_only_for_reports_with_text() {
    let a = report(date(2020, 3, 1), vec![day(date(2020, 3, 1), 10)]);
    assert_eq!(
        DisplayReport::choices(&a),
        vec![DisplayReport::Temperature, DisplayReport::Rain, DisplayReport::Wind, DisplayReport::Text]
    );
    let merged = a.merge(&a);
    assert_eq!(
        DisplayReport::choices(&merged),
        vec![DisplayReport::Temperature, DisplayReport::Rain, DisplayReport::Wind]
    );
}
