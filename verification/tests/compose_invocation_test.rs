use rustydocker::compose::{ComposeInvocation, EnvVar};

fn env_pairs(plan: &[EnvVar]) -> Vec<(String, Option<String>)> {
    plan.iter().map(|e| (e.key.clone(), e.value.clone())).collect()
}

#[test]
fn default_invocation_uses_compose_discovery() {
    let invocation = ComposeInvocation::default();

    assert_eq!(invocation.args(&["up", "-d"]), ["compose", "up", "-d"]);
}

#[test]
fn invocation_preserves_file_order_and_project_name() {
    let invocation = ComposeInvocation::new(
        vec!["compose.yml".to_string(), "compose.dev.yml".to_string()],
        Some("demo".to_string()),
        None,
    );

    assert_eq!(
        invocation.args(&["restart"]),
        [
            "compose",
            "-f",
            "compose.yml",
            "-f",
            "compose.dev.yml",
            "-p",
            "demo",
            "restart",
        ]
    );
}

#[test]
fn invocation_forwards_configured_docker_host() {
    let invocation = ComposeInvocation::new(Vec::new(), None, Some("tcp://docker.example:2375".to_string()));
    let plan = env_pairs(&invocation.env_plan());
    assert_eq!(plan, vec![("DOCKER_HOST".to_string(), Some("tcp://docker.example:2375".to_string()))]);
}

#[test]
fn invocation_forwards_context_and_profiles() {
    let invocation = ComposeInvocation::new(
        vec!["compose.yml".to_string()],
        Some("demo".to_string()),
        Some("tcp://ignored:2375".to_string()),
    )
    .with_context(Some("production".to_string()))
    .with_profiles(vec!["debug".to_string(), "metrics".to_string()]);

    assert_eq!(
        invocation.args(&["config"]),
        [
            "compose",
            "-f",
            "compose.yml",
            "-p",
            "demo",
            "--profile",
            "debug",
            "--profile",
            "metrics",
            "config",
        ]
    );
    let plan = env_pairs(&invocation.env_plan());
    assert_eq!(
        plan,
        vec![
            ("DOCKER_CONTEXT".to_string(), Some("production".to_string())),
            ("DOCKER_HOST".to_string(), None),
            ("DOCKER_TLS_VERIFY".to_string(), None),
            ("DOCKER_CERT_PATH".to_string(), None),
        ]
    );
}

#[test]
fn invocation_env_passes_tls_settings_with_host() {
    let invocation = ComposeInvocation::new(Vec::new(), None, Some("tcp://secure:2376".to_string()))
        .with_tls_cert_path(Some("/certs".to_string()));
    let plan = env_pairs(&invocation.env_plan());
    assert_eq!(
        plan,
        vec![
            ("DOCKER_HOST".to_string(), Some("tcp://secure:2376".to_string())),
            ("DOCKER_TLS_VERIFY".to_string(), Some("1".to_string())),
            ("DOCKER_CERT_PATH".to_string(), Some("/certs".to_string())),
        ]
    );
}

#[test]
fn invocation_without_endpoint_changes_no_environment() {
    let invocation = ComposeInvocation::default().with_tls_cert_path(Some("/certs".to_string()));
    assert!(invocation.env_plan().is_empty());
}

#[test]
fn first_file_is_the_project_path() {
    let invocation = ComposeInvocation::new(vec!["a.yml".to_string(), "b.yml".to_string()], None, None);
    assert_eq!(invocation.first_file(), "a.yml");
    assert_eq!(ComposeInvocation::default().first_file(), "");
}
