use rustydocker::graph::build_graph_lines;

#[test]
fn test_simple_dependency_graph() {
    let services = vec![
        ("web".to_string(), vec!["api".to_string()]),
        ("api".to_string(), vec!["db".to_string()]),
        ("db".to_string(), vec![]),
    ];
    let lines = build_graph_lines(&services, Some("api"));
    let text: String = lines
        .iter()
        .map(|l| l.iter().map(|(s, _)| s.as_str()).collect::<String>())
        .collect();
    assert!(text.contains("web"));
    assert!(text.contains("api"));
    assert!(text.contains("db"));
}

#[test]
fn test_graph_no_deps() {
    let services = vec![("app".to_string(), vec![])];
    let lines = build_graph_lines(&services, None);
    let text: String = lines
        .iter()
        .map(|l| l.iter().map(|(s, _)| s.as_str()).collect::<String>())
        .collect();
    assert!(text.contains("app"));
}

fn owned(line: &[(&str, bool)]) -> Vec<(String, bool)> {
    line.iter().map(|(s, b)| (s.to_string(), *b)).collect()
}

#[test]
fn graph_levels_follow_dependencies() {
    let services = vec![
        ("web".to_string(), vec!["api".to_string()]),
        ("api".to_string(), vec!["db".to_string()]),
        ("db".to_string(), vec![]),
    ];
    let lines = build_graph_lines(&services, Some("api"));
    assert_eq!(
        lines,
        vec![
            owned(&[("[db]", false)]),
            owned(&[("  │", false), ("  ▼", false)]),
            owned(&[("[api]", true)]),
            owned(&[("  │", false), ("  ▼", false)]),
            owned(&[("[web]", false)]),
        ]
    );
}

#[test]
fn graph_independent_services_share_a_level() {
    let services = vec![("a".to_string(), vec![]), ("b".to_string(), vec![])];
    let lines = build_graph_lines(&services, None);
    assert_eq!(lines, vec![owned(&[("[a]", false), ("   ", false), ("[b]", false)])]);
}

#[test]
fn graph_cycle_is_placed_last_one_per_level() {
    let services = vec![
        ("x".to_string(), vec!["y".to_string()]),
        ("y".to_string(), vec!["x".to_string()]),
    ];
    let lines = build_graph_lines(&services, None);
    assert_eq!(
        lines,
        vec![
            owned(&[("[x]", false)]),
            owned(&[("  │", false), ("  ▼", false)]),
            owned(&[("[y]", false)]),
        ]
    );
}

#[test]
fn graph_without_services() {
    let services: Vec<(String, Vec<String>)> = vec![];
    assert_eq!(build_graph_lines(&services, None), vec![owned(&[("No services found", false)])]);
}

#[test]
fn each_service_drawn_once_with_its_flag() {
    let services = vec![
        ("web".to_string(), vec!["api".to_string(), "cache".to_string()]),
        ("api".to_string(), vec!["db".to_string()]),
        ("db".to_string(), vec![]),
        ("cache".to_string(), vec![]),
        ("a".to_string(), vec!["b".to_string()]),
        ("b".to_string(), vec!["a".to_string()]),
    ];
    let lines = build_graph_lines(&services, Some("api"));
    for (name, _) in &services {
        let label = format!("[{}]", name);
        let spans: Vec<&(String, bool)> = lines.iter().flatten().filter(|(s, _)| *s == label).collect();
        assert_eq!(spans.len(), 1, "{} drawn once", name);
        assert_eq!(spans[0].1, name == "api");
    }
}

#[test]
fn dependencies_drawn_above_dependents() {
    let services = vec![
        ("web".to_string(), vec!["api".to_string()]),
        ("api".to_string(), vec!["db".to_string()]),
        ("db".to_string(), vec![]),
    ];
    let lines = build_graph_lines(&services, None);
    let line_of = |name: &str| {
        let label = format!("[{}]", name);
        lines.iter().position(|l| l.iter().any(|(s, _)| *s == label)).unwrap()
    };
    assert!(line_of("db") < line_of("api"));
    assert!(line_of("api") < line_of("web"));
}

#[test]
fn services_of_equal_depth_share_a_line() {
    let services = vec![
        ("a".to_string(), vec![]),
        ("c".to_string(), vec!["a".to_string()]),
        ("b".to_string(), vec![]),
        ("d".to_string(), vec!["b".to_string(), "c".to_string()]),
    ];
    let lines = build_graph_lines(&services, None);
    let line_of = |name: &str| {
        let label = format!("[{}]", name);
        lines.iter().position(|l| l.iter().any(|(s, _)| *s == label)).unwrap()
    };
    assert_eq!(line_of("a"), line_of("b"));
    assert!(line_of("a") < line_of("c"));
    assert!(line_of("c") < line_of("d"));
}
