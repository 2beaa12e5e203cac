use rustydocker::logview::{
    cursor_color_for, http_status_segments, http_status_style, level_color, timestamp_end, log_level, scroll_top, search_cursor_color, visual_rows, LogLevel,
};
use rustydocker::theme::Theme;

#[test]
fn http_status_style_pick() {
    let t = Theme::ember();
    assert_eq!(http_status_style("200", &t).unwrap().fg, t.ok);
    assert_eq!(http_status_style("404", &t).unwrap().fg, t.err);
    assert_eq!(http_status_style("301", &t).unwrap().fg, t.warn);
    assert!(http_status_style("200", &t).unwrap().bold);
    assert!(!http_status_style("301", &t).unwrap().bold);
    assert!(http_status_style("100", &t).is_none());
    assert!(http_status_style("", &t).is_none());
}

#[test]
fn log_levels() {
    assert_eq!(log_level("ERROR: disk full"), LogLevel::Error);
    assert_eq!(log_level("[WRN] slow"), LogLevel::Warn);
    assert_eq!(log_level("trace id=1"), LogLevel::Debug);
    assert_eq!(log_level("Info: ready"), LogLevel::Info);
    assert_eq!(log_level("hello"), LogLevel::Plain);
    assert_eq!(log_level("warning then error"), LogLevel::Error);
    let t = Theme::ember();
    assert_eq!(level_color(LogLevel::Error, &t), t.err);
    assert_eq!(level_color(LogLevel::Plain, &t), t.fg);
}

#[test]
fn rows_and_scrolling() {
    assert_eq!(visual_rows(0, 10), 1);
    assert_eq!(visual_rows(10, 10), 1);
    assert_eq!(visual_rows(11, 10), 2);
    assert_eq!(visual_rows(25, 0), 1);
    assert_eq!(scroll_top(100, 20, 0), 80);
    assert_eq!(scroll_top(100, 20, 30), 50);
    assert_eq!(scroll_top(100, 20, 90), 0);
    assert_eq!(scroll_top(10, 20, 0), 0);
    assert_eq!(scroll_top(70000, 0, 0), 70000u32 as u16);
}

#[test]
fn search_cursor_marks_invalid_patterns() {
    let t = Theme::ember();
    assert_eq!(search_cursor_color("", &t), t.accent_primary);
    assert_eq!(search_cursor_color("err.*", &t), t.accent_primary);
    assert_eq!(search_cursor_color("(unclosed", &t), t.err);
    assert_eq!(cursor_color_for("x", false, &t), t.err);
    assert_eq!(cursor_color_for("", false, &t), t.accent_primary);
}

fn status_codes(line: &str) -> Vec<String> {
    let t = Theme::ember();
    http_status_segments(line, &t)
        .into_iter()
        .filter(|(_, _, s)| s.is_some())
        .map(|(a, b, _)| line[a..b].to_string())
        .collect()
}

#[test]
fn http_status_regex_extracts_codes() {
    assert_eq!(status_codes("GET /users 200 12ms"), vec!["200"]);
}

#[test]
fn http_status_regex_ignores_embedded_digits() {
    // "v1200" should not produce a match because 200 is not preceded by whitespace
    assert_eq!(status_codes("build v1200 complete"), Vec::<String>::new());
    let t = Theme::ember();
    assert_eq!(http_status_segments("build v1200 complete", &t), vec![(0, 20, None)]);
}

#[test]
fn http_segments_cover_line_and_style_codes() {
    let t = Theme::ember();
    let line = "GET /a 404\tslow 301";
    let segs = http_status_segments(line, &t);
    let joined: String = segs.iter().map(|(a, b, _)| &line[*a..*b]).collect();
    assert_eq!(joined, line);
    assert_eq!(status_codes(line), vec!["404", "301"]);
    let styled: Vec<_> = segs.iter().filter_map(|(_, _, s)| *s).collect();
    assert_eq!(styled[0].fg, t.err);
    assert!(styled[0].bold);
    assert_eq!(styled[1].fg, t.warn);
}

#[test]
fn http_adjacent_codes_second_left_plain() {
    assert_eq!(status_codes("codes 200 404 end"), vec!["200"]);
}

#[test]
fn http_codes_out_of_range_are_not_statuses() {
    assert_eq!(status_codes("took 600 ms and 099 ms"), Vec::<String>::new());
    assert_eq!(status_codes("500"), vec!["500"]);
}

#[test]
fn timestamp_ends() {
    assert_eq!(timestamp_end("2025-01-01T00:00:00Z hello"), Some(21));
    assert_eq!(timestamp_end("  2025-01-01 00:00:00|x"), Some(22));
    assert_eq!(timestamp_end("[12:34:56] started"), Some(10));
    assert_eq!(timestamp_end("[1234] x"), None);
    assert_eq!(timestamp_end("2025-01-01T00:00:00"), None);
    assert_eq!(timestamp_end("plain line"), None);
    assert_eq!(timestamp_end("2025-01-01T00:00:00.123456789012345678x"), Some(30));
}
