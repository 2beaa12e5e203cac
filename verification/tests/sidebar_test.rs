use rustydocker::model::ContainerSummary;
use rustydocker::sidebar::{container_counts, header_rule_len, shorten_status, status_color, truncate_name};
use rustydocker::theme::Theme;

#[test]
fn long_names_are_cut_with_an_ellipsis() {
    assert_eq!(truncate_name("abcdef", 4), "abc…");
    assert_eq!(truncate_name("abc", 4), "abc");
    assert_eq!(truncate_name("abcd", 4), "abcd");
    assert_eq!(truncate_name("héllo wörld", 5), "héll…");
    assert_eq!(truncate_name("ab", 0), "…");
}

#[test]
fn statuses_are_shortened() {
    assert_eq!(shorten_status("Up 5 minutes"), "up 5m");
    assert_eq!(shorten_status("Up About an hour"), "up 1h");
    assert_eq!(shorten_status("Exited (0) 2 hours ago"), "(0) 2h");
    assert_eq!(shorten_status("Exited (137) 3 days ago"), "(137) 3d");
    assert_eq!(shorten_status("Up 10 seconds"), "up 10s");
    assert_eq!(shorten_status("Up 2 weeks"), "up 2w");
    assert_eq!(shorten_status("Created"), "Created");
    assert_eq!(shorten_status("Exited (1)"), "Exited (1)");
}

#[test]
fn status_message_colours() {
    let t = Theme::ember();
    assert_eq!(status_color("Images pruned", &t), t.ok);
    assert_eq!(status_color("Error: nope", &t), t.err);
    assert_eq!(status_color("Restarting 1 container(s)...", &t), t.accent_header);
}

#[test]
fn counts_running_and_other_containers() {
    let c = |state: &str| ContainerSummary { state: Some(state.to_string()), ..Default::default() };
    let cs = vec![c("running"), c("exited"), c("running"), ContainerSummary::default()];
    assert_eq!(container_counts(&cs), (2, 2));
    assert_eq!(container_counts(&vec![]), (0, 0));
}

#[test]
fn header_rule_fills_the_rest() {
    assert_eq!(header_rule_len("CONTAINERS", 20), 7);
    assert_eq!(header_rule_len("CONTAINERS", 13), 0);
    assert_eq!(header_rule_len("CONTAINERS", 5), 0);
}
