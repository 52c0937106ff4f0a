use meteo_dash::calendar::CalendarDate;
use meteo_dash::report::{Metadata, Report, WeatherReport};
use meteo_dash::store::list_reports;

fn period(year: i32, month: u8) -> CalendarDate {
    CalendarDate { year, month, day: 1 }
}

fn report(p: CalendarDate, text: &str) -> Report {
    Report::original(
        text.to_string(),
        WeatherReport { metadata: Metadata { date: p }, days: vec![] },
    )
}

fn dates(reports: &[Report]) -> Vec<CalendarDate> {
    reports.iter().map(|r| r.report.metadata.date).collect()
}

#[test]
fn listing_is_most_recent_first() {
    let listed = list_reports(vec![
        report(period(2020, 1), "jan"),
        report(period(2021, 2), "feb 21"),
        report(period(2020, 3), "mar"),
        report(period(2020, 2), "feb"),
    ]);
    assert_eq!(
        dates(&listed),
        vec![period(2021, 2), period(2020, 3), period(2020, 2), period(2020, 1)]
    );
}

#[test]
fn duplicate_period_keeps_first_report() {
    let listed = list_reports(vec![
        report(period(2020, 2), "feb"),
        report(period(2020, 3), "first march"),
        report(period(2020, 3), "second march"),
    ]);
    assert_eq!(dates(&listed), vec![period(2020, 3), period(2020, 2)]);
    assert_eq!(listed[0].original.as_deref(), Some("first march"));
}

#[test]
fn every_copy_of_a_period_but_the_first_is_dropped() {
    let listed = list_reports(vec![
        report(period(2020, 3), "a"),
        report(period(2020, 3), "b"),
        report(period(2020, 3), "c"),
    ]);
    assert_eq!(listed.len(), 1);
    assert_eq!(listed[0].original.as_deref(), Some("a"));
}

#[test]
fn days_of_a_month_order_too() {
    let listed = list_reports(vec![
        report(CalendarDate { year: 2020, month: 3, day: 2 }, "2"),
        report(CalendarDate { year: 2020, month: 3, day: 9 }, "9"),
    ]);
    assert_eq!(listed[0].original.as_deref(), Some("9"));
    assert_eq!(listed[1].original.as_deref(), Some("2"));
}

#[test]
fn empty_listing() {
    assert!(list_reports(vec![]).is_empty());
}
