use meteo_dash::grid::{
    label_format, x_grid, GridMark, LabelFormat, DAY_SPACING, DECADE_SPACING, HOUR_SPACING,
    MINUTE_SPACING, MONTH_SPACING, YEAR_SPACING,
};

const JAN_2015: i64 = 1420070400;
const JAN_2020: i64 = 1577836800;
const MAR_2020: i64 = 1583020800;

fn positions(marks: &[GridMark]) -> Vec<i64> {
    marks.iter().map(|m| m.position).collect()
}

#[test]
fn marks_stay_inside_window() {
    let windows = [
        (MAR_2020 + 123, MAR_2020 + 3 * 86400 + 17),
        (MAR_2020 - 7, MAR_2020 + 3600 * 2),
        (JAN_2015 + 99, JAN_2020 + 5),
        (MAR_2020 + 37, MAR_2020 + 200 * 86400),
        (-2208988800, JAN_2020 + 1),
    ];
    for (t0, t1) in windows {
        let marks = x_grid(t0, t1);
        assert!(!marks.is_empty());
        for m in &marks {
            assert!(t0 <= m.position && m.position < t1, "{m:?} outside {t0}..{t1}");
        }
    }
}

#[test]
fn same_window_same_marks() {
    let a = x_grid(MAR_2020 + 11, MAR_2020 + 40 * 86400);
    let b = x_grid(MAR_2020 + 11, MAR_2020 + 40 * 86400);
    assert_eq!(a, b);
}

#[test]
fn five_years_give_year_marks_only() {
    let marks = x_grid(JAN_2015, JAN_2020);
    assert_eq!(
        positions(&marks),
        vec![JAN_2015, 1451606400, 1483228800, 1514764800, 1546300800]
    );
    assert!(marks.iter().all(|m| m.spacing == YEAR_SPACING));
}

#[test]
fn long_windows_mark_decades() {
    let marks = x_grid(-2208988800, JAN_2020);
    assert_eq!(marks.len(), 12);
    assert_eq!(marks[0].position, -2208988800);
    assert_eq!(marks[11].position, 1262304000);
    assert!(marks.iter().all(|m| m.spacing == DECADE_SPACING));
}

#[test]
fn a_year_gives_month_marks() {
    let marks = x_grid(JAN_2020, JAN_2020 + 366 * 86400 - 1);
    assert_eq!(marks.len(), 12);
    assert_eq!(marks[0].position, JAN_2020);
    assert_eq!(marks[2].position, MAR_2020);
    assert!(marks.iter().all(|m| m.spacing == MONTH_SPACING));
}

#[test]
fn a_few_days_give_day_marks() {
    let marks = x_grid(MAR_2020, MAR_2020 + 4 * 86400);
    assert_eq!(
        marks,
        (0..4)
            .map(|i| GridMark { position: MAR_2020 + i * 86400, spacing: DAY_SPACING })
            .collect::<Vec<_>>()
    );
}

#[test]
fn a_month_gives_layered_day_marks() {
    let marks = x_grid(MAR_2020, MAR_2020 + 31 * 86400);
    assert_eq!(marks.len(), 31 + 10 + 5);
    assert_eq!(marks[0], GridMark { position: MAR_2020, spacing: DAY_SPACING });
    let day6 = MAR_2020 + 5 * 86400;
    let at_day6: Vec<i64> = marks.iter().filter(|m| m.position == day6).map(|m| m.spacing).collect();
    assert_eq!(at_day6, vec![6 * DAY_SPACING, 3 * DAY_SPACING, DAY_SPACING]);
}

#[test]
fn missing_days_are_skipped() {
    let feb_20_2021 = 1613779200;
    let marks = x_grid(feb_20_2021, feb_20_2021 + 13 * 86400);
    assert_eq!(marks.len(), 13);
    for (i, m) in marks.iter().enumerate() {
        assert_eq!(m.position, feb_20_2021 + i as i64 * 86400);
    }
}

#[test]
fn hours_give_hour_marks() {
    let marks = x_grid(MAR_2020, MAR_2020 + 5 * 3600);
    assert_eq!(marks.len(), 5);
    assert!(marks.iter().all(|m| m.spacing == HOUR_SPACING));
    assert_eq!(marks[4].position, MAR_2020 + 4 * 3600);
}

#[test]
fn minutes_start_at_the_window_minute() {
    let start = MAR_2020 + 10 * 3600 + 5 * 60;
    let marks = x_grid(start, start + 3 * 60);
    assert_eq!(positions(&marks), vec![start, start + 60, start + 120]);
    assert!(marks.iter().all(|m| m.spacing == MINUTE_SPACING));
}

#[test]
fn empty_or_inverted_window_has_no_marks() {
    assert!(x_grid(MAR_2020, MAR_2020).is_empty());
    assert!(x_grid(MAR_2020 + 10, MAR_2020).is_empty());
}

#[test]
fn window_is_clamped_to_representable_times() {
    let marks = x_grid(i64::MIN, i64::MAX);
    assert_eq!(marks.len(), 1999);
    assert!(marks.iter().all(|m| m.spacing == DECADE_SPACING));
    assert!(marks[0].position > -377705116800);
    assert!(marks[1998].position < 253402300799);
}

#[test]
fn label_format_follows_spacing() {
    assert_eq!(label_format(DECADE_SPACING), LabelFormat::Year);
    assert_eq!(label_format(YEAR_SPACING), LabelFormat::Year);
    assert_eq!(label_format(MONTH_SPACING), LabelFormat::YearMonth);
    assert_eq!(label_format(12 * DAY_SPACING), LabelFormat::Date);
    assert_eq!(label_format(DAY_SPACING), LabelFormat::Date);
    assert_eq!(label_format(6 * HOUR_SPACING), LabelFormat::DateTime);
    assert_eq!(label_format(MINUTE_SPACING), LabelFormat::DateTime);
}
