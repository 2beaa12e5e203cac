use rustydocker::collections::StringSet;
use rustydocker::logs::{is_duplicate_at_cursor, log_timestamp, update_cursor};

#[test]
fn reconnect_cursor_deduplicates_same_timestamped_entry() {
    let mut cursor = 0;
    let mut seen = StringSet::new();
    let first = "2026-08-19T10:15:30.123456789Z first";
    update_cursor(first, &mut cursor, &mut seen);
    assert_eq!(
        cursor,
        i32::try_from(
            chrono::DateTime::parse_from_rfc3339("2026-08-19T10:15:30.123456789Z")
                .unwrap()
                .timestamp()
        )
        .unwrap()
    );
    assert!(is_duplicate_at_cursor(first, cursor, &seen));
    assert!(!is_duplicate_at_cursor("2026-08-19T10:15:30.223456789Z second", cursor, &seen));
}

#[test]
fn reconnect_cursor_advances_and_forgets_old_second() {
    let mut cursor = 0;
    let mut seen = StringSet::new();
    update_cursor("2026-08-19T10:15:30Z first", &mut cursor, &mut seen);
    update_cursor("2026-08-19T10:15:31Z next", &mut cursor, &mut seen);
    assert_eq!(seen.len(), 1);
    assert!(seen.contains("2026-08-19T10:15:31Z next"));
}

#[test]
fn log_timestamp_reads_leading_rfc3339_word() {
    assert_eq!(log_timestamp("1970-01-01T00:01:40Z hello"), Some(100));
    assert_eq!(log_timestamp("   1970-01-01T00:00:05Z\tx"), Some(5));
    assert_eq!(log_timestamp("no timestamp here"), None);
    assert_eq!(log_timestamp(""), None);
    assert_eq!(log_timestamp("   "), None);
}

#[test]
fn log_timestamp_outside_i32_is_none() {
    assert_eq!(log_timestamp("3000-01-01T00:00:00Z far"), None);
}

#[test]
fn older_line_leaves_cursor_and_seen_unchanged() {
    let mut cursor = 100;
    let mut seen = StringSet::new();
    seen.insert("x".to_string());
    update_cursor("1970-01-01T00:00:50Z old", &mut cursor, &mut seen);
    assert_eq!(cursor, 100);
    assert_eq!(seen.len(), 1);
    update_cursor("untimed line", &mut cursor, &mut seen);
    assert_eq!(cursor, 100);
    assert_eq!(seen.len(), 1);
    update_cursor("1970-01-01T00:01:40Z same second", &mut cursor, &mut seen);
    assert_eq!(cursor, 100);
    assert_eq!(seen.len(), 2);
    assert!(is_duplicate_at_cursor("1970-01-01T00:01:40Z same second", cursor, &seen));
}

#[test]
fn log_tasks_kept_only_for_live_targets() {
    let targets = vec![("abc".to_string(), "web".to_string()), ("def".to_string(), "db".to_string())];
    assert!(rustydocker::logs::keep_log_task(&targets, "abc", false));
    assert!(!rustydocker::logs::keep_log_task(&targets, "abc", true));
    assert!(!rustydocker::logs::keep_log_task(&targets, "zzz", false));
    assert!(!rustydocker::logs::keep_log_task(&vec![], "abc", false));
}

#[test]
fn sync_starts_one_task_per_new_target() {
    let targets = vec![
        ("a".to_string(), "web".to_string()),
        ("b".to_string(), "db".to_string()),
        ("a".to_string(), "web-again".to_string()),
        ("c".to_string(), "cache".to_string()),
    ];
    let kept = vec!["b".to_string()];
    let start = rustydocker::logs::tasks_to_start(&targets, &kept);
    assert_eq!(
        start,
        vec![("a".to_string(), "web".to_string()), ("c".to_string(), "cache".to_string())]
    );
}
