use meteo_dash::calendar::CalendarDate;
use meteo_dash::fetch::{
    parsed_outcome, FetchCoordinator, FetchError, FetchOutcome, FetchState, PollEvent,
    ReportSource,
};
use meteo_dash::report::{DayRecord, Metadata, WeatherReport};

fn source(id: usize, name: &str) -> ReportSource {
    ReportSource { id, display_name: name.to_string(), locator: format!("http://host/{name}") }
}

fn march_2020() -> WeatherReport {
    let date = CalendarDate { year: 2020, month: 3, day: 1 };
    WeatherReport {
        metadata: Metadata { date },
        days: vec![DayRecord {
            date,
            low_temp: 21,
            mean_temp: 80,
            high_temp: 143,
            low_temp_time: None,
            high_temp_time: None,
            rain: 0,
            avg_wind_speed: 40,
            high_wind_speed: 290,
            high_wind_speed_time: None,
        }],
    }
}

fn catalog() -> FetchCoordinator<u32> {
    FetchCoordinator::new(vec![source(0, "A"), source(1, "B"), source(2, "C")])
}

#[test]
fn sources_start_idle() {
    let c = catalog();
    assert_eq!(c.len(), 3);
    for i in 0..3 {
        assert!(matches!(c.state(i), FetchState::Idle));
        assert!(c.wants_fetch(i));
    }
    assert_eq!(c.source(1).display_name, "B");
}

#[test]
fn three_sources_after_two_ticks() {
    let mut c = catalog();
    assert!(c.start(0, 10));
    assert!(c.start(1, 11));
    // First tick: nothing is ready yet.
    c.poll(0, PollEvent::Pending);
    c.poll(1, PollEvent::Pending);
    assert!(matches!(c.state(0), FetchState::InFlight(10)));
    assert!(matches!(c.state(1), FetchState::InFlight(11)));
    // Second tick.
    let text = "...valid report for March 2020...".to_string();
    c.poll(0, PollEvent::Ready(FetchOutcome::Fetched { original: text.clone(), report: march_2020() }));
    c.poll(
        1,
        PollEvent::Ready(FetchOutcome::Failed {
            original: None,
            error: FetchError::Transport("connection refused".to_string()),
        }),
    );
    match c.state(0) {
        FetchState::Succeeded { original, report } => {
            assert_eq!(original, &text);
            assert!(!report.days.is_empty());
        }
        other => panic!("unexpected {other:?}"),
    }
    match c.state(1) {
        FetchState::Failed { original, error: FetchError::Transport(msg) } => {
            assert!(original.is_none());
            assert_eq!(msg, "connection refused");
        }
        other => panic!("unexpected {other:?}"),
    }
    assert!(matches!(c.state(2), FetchState::Idle));
}

#[test]
fn vanished_unit_fails_with_internal_error() {
    let mut c = catalog();
    assert!(c.start(2, 7));
    c.poll(2, PollEvent::Disconnected);
    assert!(matches!(c.state(2), FetchState::Failed { original: None, error: FetchError::Internal }));
}

#[test]
fn only_idle_sources_start() {
    let mut c = catalog();
    assert!(c.start(0, 1));
    assert!(!c.wants_fetch(0));
    assert!(!c.start(0, 2));
    assert!(matches!(c.state(0), FetchState::InFlight(1)));
}

#[test]
fn events_for_sources_not_in_flight_are_discarded() {
    let mut c = catalog();
    c.poll(0, PollEvent::Disconnected);
    assert!(matches!(c.state(0), FetchState::Idle));
    assert!(c.start(0, 1));
    c.poll(0, PollEvent::Disconnected);
    c.poll(0, PollEvent::Ready(FetchOutcome::Fetched { original: String::new(), report: march_2020() }));
    assert!(matches!(c.state(0), FetchState::Failed { error: FetchError::Internal, .. }));
}

#[test]
fn reset_makes_finished_sources_idle() {
    let mut c = catalog();
    assert!(!c.reset(0));
    assert!(c.start(0, 1));
    assert!(!c.reset(0));
    c.poll(0, PollEvent::Disconnected);
    assert!(c.reset(0));
    assert!(matches!(c.state(0), FetchState::Idle));
    assert!(c.start(0, 2));
}

#[test]
fn parse_failure_keeps_the_text() {
    match parsed_outcome("garbage".to_string(), Err("bad header".to_string())) {
        FetchOutcome::Failed { original, error: FetchError::Parse(msg) } => {
            assert_eq!(original.as_deref(), Some("garbage"));
            assert_eq!(msg, "bad header");
        }
        other => panic!("unexpected {other:?}"),
    }
    match parsed_outcome("march".to_string(), Ok(march_2020())) {
        FetchOutcome::Fetched { original, report } => {
            assert_eq!(original, "march");
            assert_eq!(report.metadata.date.month, 3);
        }
        other => panic!("unexpected {other:?}"),
    }
}

#[test]
fn reports_of_succeeded_sources_in_source_order() {
    let mut c = catalog();
    for i in 0..3 {
        assert!(c.start(i, i as u32));
    }
    c.poll(2, PollEvent::Ready(FetchOutcome::Fetched { original: "c".to_string(), report: march_2020() }));
    c.poll(1, PollEvent::Disconnected);
    c.poll(0, PollEvent::Ready(FetchOutcome::Fetched { original: "a".to_string(), report: march_2020() }));
    let reports = c.into_reports();
    let texts: Vec<_> = reports.iter().map(|r| r.original.clone().unwrap()).collect();
    assert_eq!(texts, vec!["a".to_string(), "c".to_string()]);
}
