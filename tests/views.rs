use meteo_dash::calendar::CalendarDate;
use meteo_dash::report::{DayRecord, DisplayReport, Metadata, Report, WeatherReport};
use meteo_dash::views::{Dashboard, InspectReports, MeteoApp, Parameter, Screen};

fn report(year: i32, month: u8, text: &str, n_days: u8) -> Report {
    let days = (1..=n_days)
        .map(|d| DayRecord {
            date: CalendarDate { year, month, day: d },
            low_temp: 0,
            mean_temp: d as i32,
            high_temp: 0,
            low_temp_time: None,
            high_temp_time: None,
            rain: 0,
            avg_wind_speed: 0,
            high_wind_speed: 0,
            high_wind_speed_time: None,
        })
        .collect();
    Report::original(
        text.to_string(),
        WeatherReport { metadata: Metadata { date: CalendarDate { year, month, day: 1 } }, days },
    )
}

#[test]
fn app_lists_merges_and_opens_last_report() {
    let app = MeteoApp::new(vec![
        report(2020, 2, "feb", 2),
        report(2020, 3, "mar", 3),
        report(2020, 3, "mar again", 1),
    ]);
    let texts: Vec<_> = app.reports().iter().map(|r| r.original.clone().unwrap()).collect();
    assert_eq!(texts, vec!["mar".to_string(), "feb".to_string()]);
    let all = app.dashboard().report();
    assert_eq!(all.report.days.len(), 5);
    assert_eq!(all.report.days[0].date, CalendarDate { year: 2020, month: 3, day: 1 });
    assert_eq!(all.report.metadata.date, CalendarDate { year: 2020, month: 3, day: 1 });
    assert!(all.original.is_none());
    let inspect = app.inspect_view();
    assert_eq!(inspect.len(), 2);
    assert!(!inspect.parameter(0).selected);
    assert!(inspect.parameter(1).selected);
    assert_eq!(app.viewing(), Screen::Dashboard);
}

#[test]
fn screens_switch() {
    let mut app = MeteoApp::new(vec![report(2020, 2, "feb", 1)]);
    app.set_viewing(Screen::About);
    assert_eq!(app.viewing(), Screen::About);
    assert_eq!(Screen::default(), Screen::Dashboard);
}

#[test]
fn dashboard_shows_temperatures_of_all_days() {
    let reports = vec![report(2020, 3, "mar", 2), report(2020, 2, "feb", 1)];
    let mut d = Dashboard::new(&reports);
    assert_eq!(d.report().report.days.len(), 3);
    assert_eq!(d.displaying(), DisplayReport::Temperature);
    d.set_displaying(DisplayReport::Wind);
    assert_eq!(d.displaying(), DisplayReport::Wind);
}

#[test]
fn inspect_opens_last_window_only() {
    let reports = vec![report(2020, 3, "mar", 1), report(2020, 2, "feb", 1), report(2020, 1, "jan", 1)];
    let mut v = InspectReports::new(&reports);
    assert_eq!(v.len(), 3);
    assert_eq!(
        v.parameter(2),
        Parameter { selected: true, displaying: DisplayReport::Temperature }
    );
    assert!(!v.parameter(0).selected);
    v.set_parameter(0, Parameter { selected: true, displaying: DisplayReport::Rain });
    assert_eq!(v.parameter(0).displaying, DisplayReport::Rain);
    assert!(InspectReports::new(&[]).len() == 0);
}
