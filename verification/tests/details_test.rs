use rustydocker::details::{image_rows, info_rows, HealthCheck, HealthInfo, InfoRow, InspectInfo, MountInfo, RowKind};
use rustydocker::model::{ContainerSummary, ImageSummary};

fn pairs(rows: &[InfoRow]) -> Vec<(String, String, RowKind)> {
    rows.iter().map(|r| (r.label.clone(), r.value.clone(), r.kind)).collect()
}

fn row(label: &str, value: &str, kind: RowKind) -> (String, String, RowKind) {
    (label.to_string(), value.to_string(), kind)
}

fn web() -> ContainerSummary {
    ContainerSummary {
        id: Some("0123456789abcdef".to_string()),
        names: Some(vec!["/web".to_string()]),
        image: Some("nginx".to_string()),
        state: Some("running".to_string()),
        status: Some("Up 2 hours".to_string()),
        ports: None,
        created: Some(0),
    }
}

#[test]
fn info_rows_without_inspection() {
    let rows = info_rows(&web(), None, "1970-01-01 00:00:00 UTC");
    assert_eq!(
        pairs(&rows),
        vec![
            row(" Name", "web", RowKind::Field),
            row(" ID", "0123456789ab", RowKind::Field),
            row(" Image", "nginx", RowKind::Field),
            row(" State", "running", RowKind::State),
            row(" Status", "Up 2 hours", RowKind::Field),
            row(" Ports", "None", RowKind::Field),
            row("", "", RowKind::Blank),
            row(" Created", "1970-01-01 00:00:00 UTC", RowKind::Field),
        ]
    );
}

#[test]
fn info_rows_missing_fields_read_na() {
    let c = ContainerSummary::default();
    let rows = info_rows(&c, None, "N/A");
    assert_eq!(rows[0].value, "N/A");
    assert_eq!(rows[1].value, "N/A");
    assert_eq!(rows[2].value, "N/A");
}

#[test]
fn info_rows_with_inspection() {
    let checks: Vec<HealthCheck> = (0..6)
        .map(|k| HealthCheck {
            exit_code: Some(if k == 5 { 1 } else { 0 }),
            start: Some(format!("2024-01-02T03:04:0{}.123456789Z", k)),
            output: Some(format!("  check {}  \n", k)),
        })
        .collect();
    let inspect = InspectInfo {
        cmd: vec!["nginx".to_string(), "-g".to_string(), "daemon off;".to_string()],
        entrypoint: vec![],
        working_dir: "/srv".to_string(),
        hostname: String::new(),
        platform: "linux".to_string(),
        restart_policy: Some("ALWAYS".to_string()),
        mounts: vec![MountInfo {
            typ: Some("BIND".to_string()),
            source: Some("/host".to_string()),
            destination: Some("/data".to_string()),
            rw: Some(false),
        }],
        labels: vec![("zeta".to_string(), "1".to_string()), ("alpha".to_string(), "2".to_string())],
        health: Some(HealthInfo { status: Some("HEALTHY".to_string()), log: Some(checks) }),
    };
    let rows = pairs(&info_rows(&web(), Some(&inspect), "then"));
    assert_eq!(
        rows,
        vec![
            row(" Name", "web", RowKind::Field),
            row(" ID", "0123456789ab", RowKind::Field),
            row(" Image", "nginx", RowKind::Field),
            row(" State", "running", RowKind::State),
            row(" Status", "Up 2 hours", RowKind::Field),
            row(" Command", "nginx -g daemon off;", RowKind::Field),
            row(" WorkingDir", "/srv", RowKind::Field),
            row(" Platform", "linux", RowKind::Field),
            row(" Restart", "ALWAYS", RowKind::Field),
            row(" Ports", "None", RowKind::Field),
            row("", "", RowKind::Blank),
            row(" Mounts", "", RowKind::Section),
            row("  BIND", "/host -> /data (ro)", RowKind::Detail),
            row("", "", RowKind::Blank),
            row(" Labels", "", RowKind::Section),
            row("  alpha", "2", RowKind::Detail),
            row("  zeta", "1", RowKind::Detail),
            row("", "", RowKind::Blank),
            row(" Health", "HEALTHY", RowKind::Health),
            row(" Checks", "6 recent", RowKind::Field),
            row("  ✗ 03:04:05", "check 5", RowKind::Check(false)),
            row("  ✓ 03:04:04", "check 4", RowKind::Check(true)),
            row("  ✓ 03:04:03", "check 3", RowKind::Check(true)),
            row("  ✓ 03:04:02", "check 2", RowKind::Check(true)),
            row("  ✓ 03:04:01", "check 1", RowKind::Check(true)),
            row("", "", RowKind::Blank),
            row(" Created", "then", RowKind::Field),
        ]
    );
}

#[test]
fn long_check_output_is_cut() {
    let long = "x".repeat(45);
    let inspect = InspectInfo {
        health: Some(HealthInfo {
            status: None,
            log: Some(vec![HealthCheck { exit_code: None, start: Some("short".to_string()), output: Some(long) }]),
        }),
        ..InspectInfo::default()
    };
    let rows = info_rows(&web(), Some(&inspect), "then");
    let health = rows.iter().position(|r| r.label == " Health").unwrap();
    assert_eq!(rows[health].value, "unknown");
    let check = &rows[health + 2];
    assert_eq!(check.label, "  ✗ short");
    assert_eq!(check.value, format!("{}…", "x".repeat(39)));
    assert_eq!(check.kind, RowKind::Check(false));
}

#[test]
fn image_rows_fields() {
    let image = ImageSummary {
        id: "sha256:0123456789abcdef0123".to_string(),
        repo_tags: vec!["nginx:latest".to_string()],
        size: 0,
        created: 0,
    };
    let rows = pairs(&image_rows(&image, "0 MB", "then"));
    assert_eq!(
        rows,
        vec![
            row(" Tag", "nginx:latest", RowKind::Field),
            row(" ID", "sha256:0123456789ab", RowKind::Field),
            row(" Size", "0 MB", RowKind::Field),
            row(" Created", "then", RowKind::Field),
        ]
    );
    let untagged = ImageSummary { id: "abc".to_string(), repo_tags: vec![], size: 0, created: 0 };
    assert_eq!(image_rows(&untagged, "", "").first().unwrap().value, "<none>");
}

#[test]
fn check_output_trims_unicode_white_space() {
    let inspect = InspectInfo {
        health: Some(HealthInfo {
            status: Some("HEALTHY".to_string()),
            log: Some(vec![HealthCheck {
                exit_code: Some(0),
                start: None,
                output: Some("\u{3000}\tok\u{2028}\u{200B}\n".to_string()),
            }]),
        }),
        ..InspectInfo::default()
    };
    let rows = info_rows(&web(), Some(&inspect), "then");
    let health = rows.iter().position(|r| r.label == " Health").unwrap();
    // U+200B is not white space, so it stays, and what follows it is trimmed.
    assert_eq!(rows[health + 2].value, "ok\u{2028}\u{200B}");
}
