use meteo_dash::text::{needs_download, normalize_line_endings, report_text, sanitize};

#[test]
fn sanitize_replaces_slashes() {
    assert_eq!(sanitize("2020/03"), "2020-03");
    assert_eq!(sanitize("a/b/c"), "a-b-c");
    assert_eq!(sanitize("plain"), "plain");
    assert_eq!(sanitize(""), "");
}

#[test]
fn line_endings_are_normalized() {
    assert_eq!(normalize_line_endings("a\r\nb\r\n"), "a\nb\n");
    assert_eq!(normalize_line_endings("a\rb\n"), "a\rb\n");
    assert_eq!(normalize_line_endings("\r\r\n"), "\r\n");
}

#[test]
fn report_bytes_are_windows_1252() {
    let bytes = b"Temp \xB0C\r\nCo\xFBt \x80\r\n".to_vec();
    assert_eq!(report_text(&bytes), "Temp \u{b0}C\nCo\u{fb}t \u{20ac}\n");
}

#[test]
fn report_bytes_ascii_unchanged() {
    assert_eq!(report_text(b"DAY  MEAN"), "DAY  MEAN");
    assert_eq!(report_text(b""), "");
}

#[test]
fn running_reports_are_always_downloaded() {
    assert!(needs_download("http://host/NOAA/NOAAMO.TXT", true));
    assert!(!needs_download("http://host/2020/03.txt", true));
    assert!(needs_download("http://host/2020/03.txt", false));
}
