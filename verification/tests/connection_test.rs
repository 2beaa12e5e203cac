use rustydocker::config::AppConfig;
use rustydocker::connection::{
    connection_from_host, connection_from_host_with, missing_cert_file, validate_cert_path_with, resolve_step, resolve_with, should_query_current_context, tls_requested,
    validate_cert_path, ConnectionError, ConnectionSpec, ConnectionStep, ContextInfo, DockerEnv,
};
use std::collections::HashMap;

fn env(values: &[(&str, &str)]) -> impl Fn(&str) -> Option<String> {
    let values: HashMap<String, String> = values
        .iter()
        .map(|(key, value)| ((*key).to_string(), (*value).to_string()))
        .collect();
    move |key| values.get(key).cloned()
}

fn unix_context(host: &str) -> ContextInfo {
    ContextInfo { host: host.to_string(), skip_tls_verify: false, tls_material_entries: 0, tls_path: None }
}

#[test]
fn cli_context_wins_over_environment_and_host() {
    let config = AppConfig::default();
    let resolved = resolve_with(
        Some("cli"),
        &config,
        env(&[("DOCKER_CONTEXT", "environment"), ("DOCKER_HOST", "tcp://ignored:2375")]),
        |name| {
            assert_eq!(name, "cli");
            Ok(unix_context("unix:///tmp/docker.sock"))
        },
    )
    .unwrap();
    assert_eq!(resolved.context.as_deref(), Some("cli"));
    assert_eq!(resolved.spec, ConnectionSpec::Unix { socket: "unix:///tmp/docker.sock".to_string() });
}

#[test]
fn docker_context_wins_over_docker_host() {
    let resolved = resolve_with(
        None,
        &AppConfig::default(),
        env(&[("DOCKER_CONTEXT", "remote"), ("DOCKER_HOST", "tcp://ignored:2375")]),
        |_| Ok(unix_context("unix:///tmp/context.sock")),
    )
    .unwrap();
    assert_eq!(resolved.context.as_deref(), Some("remote"));
}

#[test]
fn plain_tcp_host_remains_explicit_http() {
    let resolved = resolve_with(None, &AppConfig::default(), env(&[("DOCKER_HOST", "tcp://daemon:2375")]), |_| {
        unreachable!()
    })
    .unwrap();
    assert_eq!(resolved.spec, ConnectionSpec::Http { host: "tcp://daemon:2375".to_string() });
}

#[test]
fn plain_tcp_context_does_not_infer_tls_from_empty_storage_directory() {
    let resolved = resolve_with(None, &AppConfig::default(), env(&[("DOCKER_CONTEXT", "plain")]), |_| {
        Ok(ContextInfo {
            host: "tcp://daemon:2375".to_string(),
            skip_tls_verify: false,
            tls_material_entries: 0,
            tls_path: Some("/tmp/empty-context-tls".to_string()),
        })
    })
    .unwrap();
    assert!(matches!(resolved.spec, ConnectionSpec::Http { .. }));
}

#[test]
fn ssh_host_carries_key_path() {
    let config = AppConfig { docker_ssh_key_path: Some("/tmp/id_ed25519".to_string()), ..AppConfig::default() };
    let resolved =
        resolve_with(None, &config, env(&[("DOCKER_HOST", "ssh://me@example.test")]), |_| unreachable!()).unwrap();
    assert_eq!(
        resolved.spec,
        ConnectionSpec::Ssh { host: "ssh://me@example.test".to_string(), key_path: Some("/tmp/id_ed25519".to_string()) }
    );
}

#[test]
fn environment_host_wins_over_configured_context() {
    let config = AppConfig { docker_context: Some("configured".to_string()), ..AppConfig::default() };
    let resolved = resolve_with(None, &config, env(&[("DOCKER_HOST", "tcp://environment:2375")]), |_| {
        panic!("configured context must not be inspected")
    })
    .unwrap();
    assert_eq!(resolved.spec, ConnectionSpec::Http { host: "tcp://environment:2375".to_string() });
}

#[test]
fn nothing_configured_is_local() {
    let resolved = resolve_with(None, &AppConfig::default(), env(&[]), |_| unreachable!()).unwrap();
    assert_eq!(resolved.spec, ConnectionSpec::Local);
    assert_eq!(resolved.context, None);
}

#[test]
fn configured_host_is_used_last() {
    let config = AppConfig { docker_host: Some("unix:///var/run/other.sock".to_string()), ..AppConfig::default() };
    let resolved = resolve_with(None, &config, env(&[]), |_| unreachable!()).unwrap();
    assert_eq!(resolved.spec, ConnectionSpec::Unix { socket: "unix:///var/run/other.sock".to_string() });
}

#[test]
fn inspect_failure_is_reported() {
    let resolved = resolve_with(Some("broken"), &AppConfig::default(), env(&[]), |_| {
        Err(ConnectionError::ContextInspect { message: "failed".to_string() })
    });
    assert_eq!(resolved.unwrap_err().message(), "failed");
}

#[test]
fn unsupported_endpoint_is_refused() {
    let error = connection_from_host("ftp://x".to_string(), None, false, None).unwrap_err();
    assert_eq!(error, ConnectionError::UnsupportedEndpoint { host: "ftp://x".to_string() });
    assert_eq!(error.message(), "Unsupported Docker endpoint: ftp://x");
}

#[test]
fn tls_without_certificates_is_refused() {
    let error = connection_from_host("https://secure:2376".to_string(), None, false, None).unwrap_err();
    assert_eq!(error, ConnectionError::MissingCertDir);
    assert!(error.message().contains("DOCKER_CERT_PATH"));
}

#[test]
fn tls_with_missing_bundle_names_first_missing_file() {
    let error = connection_from_host(
        "tcp://secure:2376".to_string(),
        Some("/nonexistent-rustydocker-certs".to_string()),
        true,
        None,
    )
    .unwrap_err();
    assert!(error.message().contains("ca.pem"));
    assert!(validate_cert_path("/nonexistent-rustydocker-certs").is_err());
}

#[test]
fn cert_verdict_names_first_missing_file() {
    assert_eq!(missing_cert_file("/c", (true, true, true)), Ok(()));
    let e = missing_cert_file("/c", (true, false, false)).unwrap_err();
    assert_eq!(e, ConnectionError::TlsFileMissing { file: "/c/cert.pem".to_string() });
    assert_eq!(e.message(), "Docker TLS file is missing: /c/cert.pem");
    let e = missing_cert_file("/c", (true, true, false)).unwrap_err();
    assert_eq!(e, ConnectionError::TlsFileMissing { file: "/c/key.pem".to_string() });
}

#[test]
fn named_pipe_and_unix_sockets() {
    assert_eq!(
        connection_from_host("npipe:////./pipe/docker".to_string(), Some("/c".to_string()), true, None).unwrap(),
        ConnectionSpec::Unix { socket: "npipe:////./pipe/docker".to_string() }
    );
}

#[test]
fn tls_requested_reads_environment_and_config() {
    let config = AppConfig::default();
    assert!(tls_requested(Some("1"), &config));
    assert!(!tls_requested(Some("0"), &config));
    assert!(!tls_requested(Some(""), &config));
    assert!(!tls_requested(None, &config));
    let config = AppConfig { docker_tls_verify: true, ..AppConfig::default() };
    assert!(tls_requested(None, &config));
}

#[test]
fn step_takes_cert_path_from_environment_first() {
    let config = AppConfig { docker_cert_path: Some("/from-config".to_string()), ..AppConfig::default() };
    let denv = DockerEnv {
        context: None,
        host: Some("tcp://h:2376".to_string()),
        cert_path: Some("/from-env".to_string()),
        tls_verify: Some("1".to_string()),
    };
    match resolve_step(None, &config, &denv) {
        ConnectionStep::Connect { host, cert_path, verify_tls } => {
            assert_eq!(host, "tcp://h:2376");
            assert_eq!(cert_path.as_deref(), Some("/from-env"));
            assert!(verify_tls);
        }
        _ => panic!("expected a connection"),
    }
    let denv = DockerEnv { cert_path: None, ..denv };
    match resolve_step(None, &config, &denv) {
        ConnectionStep::Connect { cert_path, .. } => assert_eq!(cert_path.as_deref(), Some("/from-config")),
        _ => panic!("expected a connection"),
    }
}

#[test]
fn current_context_is_asked_only_without_endpoint() {
    let empty = DockerEnv { context: None, host: None, cert_path: None, tls_verify: None };
    assert!(should_query_current_context(None, &empty, &AppConfig::default()));
    assert!(!should_query_current_context(Some("x"), &empty, &AppConfig::default()));
    let with_host = DockerEnv { host: Some("tcp://h:1".to_string()), ..empty };
    assert!(!should_query_current_context(None, &with_host, &AppConfig::default()));
}

#[test]
fn cli_environment_plan() {
    let spec = ConnectionSpec::Tls { host: "tcp://h:2376".to_string(), cert_path: "/c".to_string() };
    let plan: Vec<(String, Option<String>)> =
        spec.cli_env_plan(None).into_iter().map(|e| (e.key, e.value)).collect();
    assert_eq!(
        plan,
        vec![
            ("DOCKER_HOST".to_string(), Some("tcp://h:2376".to_string())),
            ("DOCKER_TLS_VERIFY".to_string(), Some("1".to_string())),
            ("DOCKER_CERT_PATH".to_string(), Some("/c".to_string())),
        ]
    );
    let plan: Vec<(String, Option<String>)> =
        spec.cli_env_plan(Some("prod")).into_iter().map(|e| (e.key, e.value)).collect();
    assert_eq!(plan[0], ("DOCKER_CONTEXT".to_string(), Some("prod".to_string())));
    assert_eq!(plan.len(), 4);
    assert!(ConnectionSpec::Local.cli_env_plan(None).is_empty());
    assert_eq!(ConnectionSpec::Local.host(), None);
    assert_eq!(spec.host(), Some("tcp://h:2376"));
}

#[test]
fn tls_requires_complete_certificate_bundle() {
    let directory = "/tmp/rustydocker-tls-test".to_string();
    let only_ca = |p: &str| p.ends_with("/ca.pem");
    let error =
        connection_from_host_with("tcp://secure:2376".to_string(), Some(directory.clone()), true, None, only_ca)
            .unwrap_err();
    assert!(error.message().contains("cert.pem"));

    let all = |p: &str| p.ends_with("/ca.pem") || p.ends_with("/cert.pem") || p.ends_with("/key.pem");
    assert!(matches!(
        connection_from_host_with("tcp://secure:2376".to_string(), Some(directory.clone()), true, None, all).unwrap(),
        ConnectionSpec::Tls { .. }
    ));
}

#[test]
fn cert_check_asks_for_the_three_paths() {
    let asked = std::cell::RefCell::new(Vec::new());
    let probe = |p: &str| {
        asked.borrow_mut().push(p.to_string());
        true
    };
    assert_eq!(validate_cert_path_with("/certs", probe), Ok(()));
    assert_eq!(*asked.borrow(), vec!["/certs/ca.pem", "/certs/cert.pem", "/certs/key.pem"]);
    let none = |_: &str| false;
    assert_eq!(
        validate_cert_path_with("/certs", none),
        Err(ConnectionError::TlsFileMissing { file: "/certs/ca.pem".to_string() })
    );
}

#[test]
fn plain_tcp_never_probes_files() {
    let probe = |_: &str| -> bool { panic!("no certificate check for plain tcp") };
    assert_eq!(
        connection_from_host_with("tcp://daemon:2375".to_string(), None, false, None, probe).unwrap(),
        ConnectionSpec::Http { host: "tcp://daemon:2375".to_string() }
    );
}
