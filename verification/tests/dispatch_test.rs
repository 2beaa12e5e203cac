use rustydocker::dispatch::{event_refresh, selection_needs_refresh, tick_work, EventRefresh};
use rustydocker::actions::{compose_outcome, pull_outcome};
use rustydocker::app::{AppAction, SidebarSection};
use rustydocker::config::{AppConfig, Hook};
use rustydocker::connection::{ConnectionSpec, ResolvedConnection};
use rustydocker::dispatch::{
    browser_url, bulk_status, choose_profiles, compose_plan, env_pairs, expand_command, hook_commands, hook_event,
    ids_in_state, invocation_for, stream_error_status, EventKind,
};
use rustydocker::model::{ContainerPort, ContainerSummary};

fn container(id: &str, state: &str) -> ContainerSummary {
    ContainerSummary {
        id: Some(id.to_string()),
        names: Some(vec![format!("/{}", id)]),
        state: Some(state.to_string()),
        ..Default::default()
    }
}

#[test]
fn hook_events_by_docker_event() {
    assert_eq!(hook_event(EventKind::Container, "start"), Some("container_start"));
    assert_eq!(hook_event(EventKind::Container, "stop"), Some("container_stop"));
    assert_eq!(hook_event(EventKind::Container, "die"), Some("container_die"));
    assert_eq!(hook_event(EventKind::Container, "restart"), Some("container_restart"));
    assert_eq!(hook_event(EventKind::Image, "pull"), Some("image_pull"));
    assert_eq!(hook_event(EventKind::Container, "pull"), None);
    assert_eq!(hook_event(EventKind::Volume, "start"), None);
}

#[test]
fn command_templates_are_filled() {
    assert_eq!(
        expand_command("echo {container_id} {container_name} {container_id}", "abc", "web"),
        "echo abc web abc"
    );
    assert_eq!(expand_command("plain", "abc", "web"), "plain");
}

#[test]
fn only_matching_hooks_run() {
    let hooks = vec![
        Hook { event: "container_start".to_string(), command: "notify {container_name}".to_string() },
        Hook { event: "container_stop".to_string(), command: "other".to_string() },
        Hook { event: "container_start".to_string(), command: "log {container_id}".to_string() },
    ];
    assert_eq!(hook_commands(&hooks, "container_start", "id1", "web"), vec!["notify web", "log id1"]);
    assert!(hook_commands(&hooks, "image_pull", "id1", "web").is_empty());
}

#[test]
fn bulk_status_messages() {
    assert_eq!(bulk_status(AppAction::RestartContainer, 2), Some("Restarting 2 container(s)...".to_string()));
    assert_eq!(bulk_status(AppAction::RemoveContainer, 12), Some("Removing 12 container(s)...".to_string()));
    assert_eq!(bulk_status(AppAction::StopContainer, 0), None);
    assert_eq!(bulk_status(AppAction::Quit, 3), None);
}

#[test]
fn compose_plans() {
    let up = compose_plan(AppAction::ComposeUp).unwrap();
    assert_eq!(up.args, vec!["up", "-d"]);
    assert_eq!(up.success, "Compose up complete");
    let down = compose_plan(AppAction::ComposeDown).unwrap();
    assert_eq!(down.args, vec!["down"]);
    assert_eq!(down.start_status, "Stopping Compose project...");
    assert!(compose_plan(AppAction::Quit).is_none());
}

#[test]
fn containers_in_a_state() {
    let cs = vec![container("a", "running"), container("b", "exited"), container("c", "running")];
    assert_eq!(ids_in_state(&cs, "running"), vec!["a", "c"]);
    assert_eq!(ids_in_state(&cs, "exited"), vec!["b"]);
    assert!(ids_in_state(&cs, "paused").is_empty());
}

#[test]
fn profiles_from_command_line_win() {
    let cli = vec!["a".to_string()];
    let cfg = vec!["b".to_string(), "c".to_string()];
    assert_eq!(choose_profiles(&cli, &cfg), vec!["a"]);
    assert_eq!(choose_profiles(&vec![], &cfg), vec!["b", "c"]);
}

#[test]
fn invocation_follows_connection() {
    let resolved = ResolvedConnection {
        spec: ConnectionSpec::Tls { host: "tcp://h:2376".to_string(), cert_path: "/c".to_string() },
        context: None,
    };
    let inv = invocation_for(vec!["f.yml".to_string()], None, vec![], &resolved);
    assert_eq!(inv.args(&["ps"]), ["compose", "-f", "f.yml", "ps"]);
    let env: Vec<(String, Option<String>)> = inv.env_plan().into_iter().map(|e| (e.key, e.value)).collect();
    assert_eq!(env[0], ("DOCKER_HOST".to_string(), Some("tcp://h:2376".to_string())));
    assert_eq!(env[2], ("DOCKER_CERT_PATH".to_string(), Some("/c".to_string())));
    let _ = AppConfig::default();
}

#[test]
fn stream_error_status_shortens_id() {
    assert_eq!(stream_error_status("0123456789abcdef", "gone"), "Log stream 0123456789ab: gone");
    assert_eq!(stream_error_status("abc", "gone"), "Log stream abc: gone");
}

#[test]
fn browser_urls() {
    let mut c = container("a", "running");
    assert_eq!(browser_url(&c), Err(false));
    c.ports = Some(vec![ContainerPort { ip: None, private_port: 80, public_port: None, typ: None }]);
    assert_eq!(browser_url(&c), Err(true));
    c.ports = Some(vec![
        ContainerPort { ip: None, private_port: 80, public_port: None, typ: None },
        ContainerPort { ip: None, private_port: 80, public_port: Some(8080), typ: None },
    ]);
    assert_eq!(browser_url(&c), Ok("http://localhost:8080".to_string()));
}

#[test]
fn action_outcomes() {
    let ok = compose_outcome(true, "ignored", "Compose up complete", false).unwrap();
    assert_eq!(ok.message, "Compose up complete");
    assert!(!ok.refresh_images);
    assert_eq!(compose_outcome(false, "boom", "x", true), Err("boom".to_string()));
    let pulled = pull_outcome("nginx:latest");
    assert_eq!(pulled.message, "Pulled nginx:latest");
    assert!(pulled.refresh_images);
}

#[test]
fn environment_entries_split_at_first_equals() {
    let entries = vec!["PATH=/usr/bin".to_string(), "EMPTY=".to_string(), "NOEQUALS".to_string(), "A=b=c".to_string()];
    assert_eq!(
        env_pairs(&entries),
        vec![
            ("PATH".to_string(), "/usr/bin".to_string()),
            ("EMPTY".to_string(), "".to_string()),
            ("A".to_string(), "b=c".to_string()),
        ]
    );
}

#[test]
fn compose_pull_and_rebuild_plans() {
    let pull = compose_plan(AppAction::ComposePull).unwrap();
    assert_eq!(pull.args, vec!["pull"]);
    assert_eq!(pull.start_status, "Pulling Compose images...");
    assert_eq!(pull.success, "Compose images pulled");
    assert!(pull.refresh_images);
    let rebuild = compose_plan(AppAction::ComposeRebuild).unwrap();
    assert_eq!(rebuild.args, vec!["up", "-d", "--build"]);
    assert_eq!(rebuild.start_status, "Rebuilding Compose project...");
    assert_eq!(rebuild.success, "Compose rebuild complete");
    assert!(rebuild.refresh_images);
    assert!(compose_plan(AppAction::ComposeWatchToggle).is_none());
}

#[test]
fn tick_work_cadence() {
    let w = tick_work(40);
    assert!(w.reload_lists && w.sample_stats);
    let w = tick_work(8);
    assert!(!w.reload_lists && w.sample_stats);
    let w = tick_work(7);
    assert!(!w.reload_lists && !w.sample_stats);
}

#[test]
fn selection_refresh_rules() {
    assert!(selection_needs_refresh(0, SidebarSection::Services, 1, SidebarSection::Services));
    assert!(!selection_needs_refresh(1, SidebarSection::Services, 1, SidebarSection::Services));
    assert!(!selection_needs_refresh(0, SidebarSection::Services, 0, SidebarSection::Images));
    assert!(selection_needs_refresh(0, SidebarSection::Images, 0, SidebarSection::Volumes));
}

#[test]
fn event_refresh_by_kind() {
    assert_eq!(event_refresh(EventKind::Container), EventRefresh::Containers);
    assert_eq!(event_refresh(EventKind::Image), EventRefresh::Images);
    assert_eq!(event_refresh(EventKind::Volume), EventRefresh::Volumes);
    assert_eq!(event_refresh(EventKind::Network), EventRefresh::Networks);
    assert_eq!(event_refresh(EventKind::Other), EventRefresh::Nothing);
}
