use rustydocker::app::{App, KeyCode, KeyEvent, KeyModifiers, ScreenMode, SidebarSection, Tab};
use rustydocker::config::AppConfig;
use rustydocker::layout::{centered_rect, effective_sidebar_width, Rect};
use rustydocker::logs::log_targets;
use rustydocker::model::{ContainerSummary, Volume};
use rustydocker::theme::{rule, Theme};

fn key(c: char) -> KeyEvent {
    KeyEvent::new(KeyCode::Char(c), KeyModifiers::NONE)
}

fn container(name: &str, state: &str) -> ContainerSummary {
    ContainerSummary {
        id: Some(name.to_string()),
        names: Some(vec![format!("/{}", name)]),
        state: Some(state.to_string()),
        ..Default::default()
    }
}

#[test]
fn pinned_containers_sort_first() {
    let mut app = App::new(AppConfig::default());
    app.containers = vec![container("b", "running"), container("a", "exited"), container("c", "running")];
    app.pinned_containers.insert("a".to_string());
    app.sort_containers();
    let ids: Vec<&str> = app.containers.iter().map(|c| c.id.as_deref().unwrap()).collect();
    assert_eq!(ids, vec!["a", "b", "c"]);
}

#[test]
fn sort_orders_states_and_ignores_case() {
    let mut app = App::new(AppConfig::default());
    app.containers = vec![
        container("x", "created"),
        container("Zed", "paused"),
        container("alpha", "paused"),
        container("r", "restarting"),
        container("o", "dead"),
    ];
    app.sort_containers();
    let ids: Vec<&str> = app.containers.iter().map(|c| c.id.as_deref().unwrap()).collect();
    assert_eq!(ids, vec!["r", "alpha", "Zed", "x", "o"]);
}

#[test]
fn targets_are_selection_or_cursor() {
    let mut app = App::new(AppConfig::default());
    assert!(app.target_container_ids().is_empty());
    app.containers = vec![container("c1", "running"), container("c2", "running")];
    assert_eq!(app.target_container_ids(), vec!["c1"]);
    app.selected_containers.insert("c2".to_string());
    assert_eq!(app.target_container_ids(), vec!["c2"]);
}

#[test]
fn stale_selections_are_pruned() {
    let mut app = App::new(AppConfig::default());
    app.containers = vec![container("c1", "running")];
    app.selected_containers.insert("c1".to_string());
    app.selected_containers.insert("gone".to_string());
    app.prune_stale_selections();
    assert!(app.selected_containers.contains("c1"));
    assert!(!app.selected_containers.contains("gone"));
    assert_eq!(app.selected_containers.len(), 1);
}

#[test]
fn empty_filter_keeps_every_item_in_order() {
    let mut app = App::new(AppConfig::default());
    app.containers = vec![container("web", "running"), container("db", "running")];
    app.sidebar_filter = Some(String::new());
    let shown: Vec<usize> = app.filtered_containers().iter().map(|(i, _)| *i).collect();
    assert_eq!(shown, vec![0, 1]);
    app.sidebar_filter = None;
    let shown: Vec<usize> = app.filtered_containers().iter().map(|(i, _)| *i).collect();
    assert_eq!(shown, vec![0, 1]);
}

#[test]
fn filter_drops_items_that_do_not_match() {
    let mut app = App::new(AppConfig::default());
    app.volumes = vec![
        Volume { name: "postgres-data".to_string(), ..Default::default() },
        Volume { name: "cache".to_string(), ..Default::default() },
    ];
    app.sidebar_filter = Some("pgdata".to_string());
    let shown: Vec<usize> = app.filtered_volumes().iter().map(|(i, _)| *i).collect();
    assert_eq!(shown, vec![0]);
    app.sidebar_filter = Some("zzz".to_string());
    assert!(app.filtered_volumes().is_empty());
}

#[test]
fn pushed_log_lines_accumulate() {
    let mut app = App::new(AppConfig::default());
    app.push_log("c1".to_string(), "one".to_string());
    app.push_log("c1".to_string(), "two".to_string());
    assert_eq!(app.logs.get("c1").unwrap(), &vec!["one".to_string(), "two".to_string()]);
    assert!(app.logs.get("c2").is_none());
}

#[test]
fn plus_then_underscore_restores_screen_mode() {
    let mut app = App::new(AppConfig::default());
    for mode in [ScreenMode::Normal, ScreenMode::Half, ScreenMode::Fullscreen] {
        app.screen_mode = mode;
        app.handle_key(key('+'));
        app.handle_key(key('_'));
        assert_eq!(app.screen_mode, mode);
    }
}

#[test]
fn navigation_crosses_sections() {
    let mut app = App::new(AppConfig::default());
    app.containers = vec![container("c1", "running")];
    app.next_item();
    assert_eq!(app.sidebar_section, SidebarSection::Images);
    app.prev_item();
    assert_eq!(app.sidebar_section, SidebarSection::Services);
    assert_eq!(app.selected_index, 0);
    assert_eq!(SidebarSection::Services.next().prev(), SidebarSection::Services);
    assert_eq!(SidebarSection::Services.prev(), SidebarSection::Networks);
}

#[test]
fn tab_key_cycles_through_all_tabs() {
    let mut app = App::new(AppConfig::default());
    for _ in 0..6 {
        app.handle_key(KeyEvent::new(KeyCode::Tab, KeyModifiers::NONE));
    }
    assert_eq!(app.active_tab, Tab::Logs);
}

#[test]
fn bookmarks_jump_between_lines() {
    let mut app = App::new(AppConfig::default());
    app.containers = vec![container("c1", "running")];
    app.logs.insert("c1".to_string(), (0..10).map(|i| format!("line{}", i)).collect());
    app.handle_key(key('m'));
    assert_eq!(app.log_bookmarks, vec![9]);
    app.log_scroll_offset = 5;
    app.handle_key(key('m'));
    assert_eq!(app.log_bookmarks, vec![4, 9]);
    app.handle_key(key('n'));
    assert_eq!(app.log_scroll_offset, 0);
    app.handle_key(key('N'));
    assert_eq!(app.log_scroll_offset, 5);
}

#[test]
fn log_targets_are_running_containers() {
    let mut unnamed = container("0123456789abcdef", "running");
    unnamed.names = None;
    let cs = vec![container("web", "running"), container("db", "exited"), unnamed];
    let targets = log_targets(&cs);
    assert_eq!(
        targets,
        vec![
            ("web".to_string(), "web".to_string()),
            ("0123456789abcdef".to_string(), "0123456789ab".to_string())
        ]
    );
}

#[test]
fn layout_helpers() {
    assert_eq!(effective_sidebar_width(ScreenMode::Normal, 40), 40);
    let r = centered_rect(Rect::new(0, 0, 100, 50), 20, 10);
    assert_eq!((r.x, r.y, r.width, r.height), (40, 20, 20, 10));
}

#[test]
fn theme_names() {
    assert_eq!(Theme::from_name("CLASSIC"), Theme::classic());
    assert_eq!(Theme::from_name("anything"), Theme::ember());
    assert_eq!(rule(3), "───");
}

#[test]
fn theme_from_name_defaults_to_ember() {
    let t = Theme::from_name("nonsense");
    assert_eq!(t.accent_primary, Theme::ember().accent_primary);
}

#[test]
fn theme_from_name_classic() {
    let t = Theme::from_name("classic");
    assert_eq!(t.accent_primary, Theme::classic().accent_primary);
}

#[test]
fn name_style_alert_wins() {
    let t = Theme::ember();
    let s = rustydocker::theme::styles::name_style(&t, true, true);
    assert_eq!(s.fg, Some(t.err));
    let s = rustydocker::theme::styles::name_style(&t, true, false);
    assert_eq!(s.fg, Some(t.fg_bright));
    assert!(s.bold);
}

#[test]
fn state_glyphs_and_styles() {
    let t = Theme::ember();
    let (glyph, style) = rustydocker::theme::state_style(&t, "running");
    assert_eq!(glyph, rustydocker::theme::icons::RUN);
    assert_eq!(style.fg, Some(t.ok));
    let (glyph, style) = rustydocker::theme::state_style(&t, "weird");
    assert_eq!(glyph, rustydocker::theme::icons::EXITED);
    assert_eq!(style.fg, Some(t.fg_muted));
    assert!(rustydocker::theme::styles::tab_active(&t).underlined);
}
