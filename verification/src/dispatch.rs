//! What the program does with an action or a Docker event before it talks to
//! the daemon: which containers an action reaches, which Compose command runs,
//! which hooks fire, and the status messages that report it.
use vstd::prelude::*;
use vstd::string::*;
use crate::app::{AppAction, SidebarSection};
use crate::collections::views;
use crate::compose::ComposeInvocation;
use crate::config::Hook;
use crate::connection::{ConnView, ConnectionSpec, ResolvedConnection};
use crate::model::{clone_opt, opt_view, ContainerSummary};
use crate::strings::{push_char, replace, replace_all, str_eq};

verus! {

/// The decimal digits of `n`, without leading zeros.
pub open spec fn decimal(n: nat) -> Seq<char>
    decreases n,
{
    if n < 10 {
        seq![digit_char(n)]
    } else {
        decimal(n / 10).push(digit_char(n % 10))
    }
}

/// The character of a digit.
pub open spec fn digit_char(d: nat) -> char {
    if d == 0 { '0' }
    else if d == 1 { '1' }
    else if d == 2 { '2' }
    else if d == 3 { '3' }
    else if d == 4 { '4' }
    else if d == 5 { '5' }
    else if d == 6 { '6' }
    else if d == 7 { '7' }
    else if d == 8 { '8' }
    else { '9' }
}

/// The character of a digit below ten.
fn digit(d: u64) -> (c: char)
    requires
        d < 10,
    ensures
        c == digit_char(d as nat),
{
    if d == 0 { '0' }
    else if d == 1 { '1' }
    else if d == 2 { '2' }
    else if d == 3 { '3' }
    else if d == 4 { '4' }
    else if d == 5 { '5' }
    else if d == 6 { '6' }
    else if d == 7 { '7' }
    else if d == 8 { '8' }
    else { '9' }
}

/// `n` in decimal, without leading zeros.
pub(crate) fn decimal_string(n: u64) -> (r: String)
    ensures
        r@ == decimal(n as nat),
    decreases n,
{
    if n < 10 {
        let mut s = String::new();
        push_char(&mut s, digit(n));
        assert(s@ =~= seq![digit_char(n as nat)]);
        s
    } else {
        let mut s = decimal_string(n / 10);
        push_char(&mut s, digit(n % 10));
        s
    }
}

/// The kind of object a Docker event is about.
#[derive(Debug, Clone, Copy, PartialEq, Eq, Structural)]
pub enum EventKind {
    Container,
    Image,
    Volume,
    Network,
    Other,
}

/// The hook event a Docker event fires, if any.
pub open spec fn spec_hook_event(kind: EventKind, action: Seq<char>) -> Option<Seq<char>> {
    match kind {
        EventKind::Container => if action == "start"@ {
            Some("container_start"@)
        } else if action == "stop"@ {
            Some("container_stop"@)
        } else if action == "die"@ {
            Some("container_die"@)
        } else if action == "restart"@ {
            Some("container_restart"@)
        } else {
            None
        },
        EventKind::Image => if action == "pull"@ {
            Some("image_pull"@)
        } else {
            None
        },
        _ => None,
    }
}

/// The hook event a Docker event fires: container start, stop, die and
/// restart, and image pull.
pub fn hook_event(kind: EventKind, action: &str) -> (r: Option<&'static str>)
    ensures
        match r {
            Some(s) => spec_hook_event(kind, action@) == Some(s@),
            None => spec_hook_event(kind, action@) is None,
        },
{
    match kind {
        EventKind::Container => if str_eq(action, "start") {
            Some("container_start")
        } else if str_eq(action, "stop") {
            Some("container_stop")
        } else if str_eq(action, "die") {
            Some("container_die")
        } else if str_eq(action, "restart") {
            Some("container_restart")
        } else {
            None
        },
        EventKind::Image => if str_eq(action, "pull") {
            Some("image_pull")
        } else {
            None
        },
        _ => None,
    }
}

/// A command template with `{container_id}` and then `{container_name}`
/// replaced.
pub open spec fn spec_expand(template: Seq<char>, id: Seq<char>, name: Seq<char>) -> Seq<char> {
    replace_all(replace_all(template, "{container_id}"@, id), "{container_name}"@, name)
}

/// Fills a hook or custom command template with a container's id and name.
pub fn expand_command(template: &str, id: &str, name: &str) -> (r: String)
    ensures
        r@ == spec_expand(template@, id@, name@),
{
    proof {
        reveal_strlit("{container_id}");
        reveal_strlit("{container_name}");
    }
    let with_id = replace(template, "{container_id}", id);
    replace(with_id.as_str(), "{container_name}", name)
}

/// The commands of the hooks registered for `event`, filled in, in the order
/// the hooks are configured.
pub open spec fn spec_hook_commands(hooks: Seq<Hook>, event: Seq<char>, id: Seq<char>, name: Seq<char>) -> Seq<Seq<char>>
    decreases hooks.len(),
{
    if hooks.len() == 0 {
        Seq::empty()
    } else {
        let prev = spec_hook_commands(hooks.drop_last(), event, id, name);
        if hooks.last().event@ == event {
            prev.push(spec_expand(hooks.last().command@, id, name))
        } else {
            prev
        }
    }
}

/// The shell commands the hooks for `event` run.
pub fn hook_commands(hooks: &Vec<Hook>, event: &str, id: &str, name: &str) -> (r: Vec<String>)
    ensures
        views(r@) == spec_hook_commands(hooks@, event@, id@, name@),
{
    let mut r: Vec<String> = Vec::new();
    let mut i: usize = 0;
    while i < hooks.len()
        invariant
            i <= hooks@.len(),
            views(r@) == spec_hook_commands(hooks@.take(i as int), event@, id@, name@),
        decreases hooks@.len() - i,
    {
        assert(hooks@.take(i + 1).drop_last() =~= hooks@.take(i as int));
        assert(hooks@.take(i + 1).last() == hooks@[i as int]);
        if str_eq(hooks[i].event.as_str(), event) {
            let ghost before = views(r@);
            r.push(expand_command(hooks[i].command.as_str(), id, name));
            assert(views(r@) =~= before.push(spec_expand(hooks@[i as int].command@, id@, name@)));
        }
        i = i + 1;
    }
    assert(hooks@.take(i as int) =~= hooks@);
    r
}

/// The verb of an action on the targeted containers, as its status message
/// names it.
pub open spec fn spec_bulk_verb(action: AppAction) -> Option<Seq<char>> {
    match action {
        AppAction::RestartContainer => Some("Restarting"@),
        AppAction::StopContainer => Some("Stopping"@),
        AppAction::StartContainer => Some("Starting"@),
        AppAction::PauseContainer => Some("Pausing"@),
        AppAction::UnpauseContainer => Some("Unpausing"@),
        AppAction::RemoveContainer => Some("Removing"@),
        _ => None,
    }
}

/// The status message after an action was sent to `n` containers.
pub open spec fn spec_bulk_status(verb: Seq<char>, n: nat) -> Seq<char> {
    verb + " "@ + decimal(n) + " container(s)..."@
}

/// The status message of an action on `n` targeted containers: none for an
/// action that targets no containers, or where there were none.
pub fn bulk_status(action: AppAction, n: u64) -> (r: Option<String>)
    ensures
        match r {
            Some(m) => n > 0 && spec_bulk_verb(action) is Some && m@ == spec_bulk_status(spec_bulk_verb(action).unwrap(), n as nat),
            None => n == 0 || spec_bulk_verb(action) is None,
        },
{
    if n == 0 {
        return None;
    }
    let verb = match action {
        AppAction::RestartContainer => "Restarting",
        AppAction::StopContainer => "Stopping",
        AppAction::StartContainer => "Starting",
        AppAction::PauseContainer => "Pausing",
        AppAction::UnpauseContainer => "Unpausing",
        AppAction::RemoveContainer => "Removing",
        _ => return None,
    };
    let m = verb.to_owned().concat(" ").concat(decimal_string(n).as_str()).concat(" container(s)...");
    Some(m)
}

/// A Compose command an action runs in the background: its arguments, the
/// status shown while it runs, the message on success, and whether the image
/// list is read again afterwards.
pub struct ComposePlan {
    pub args: Vec<&'static str>,
    pub start_status: &'static str,
    pub success: &'static str,
    pub refresh_images: bool,
}

/// The plan of a Compose action, as plain values.
pub open spec fn spec_compose_plan(action: AppAction) -> Option<(Seq<Seq<char>>, Seq<char>, Seq<char>, bool)> {
    match action {
        AppAction::ComposeUp => Some((seq!["up"@, "-d"@], "Starting Compose project..."@, "Compose up complete"@, false)),
        AppAction::ComposeDown => Some((seq!["down"@], "Stopping Compose project..."@, "Compose down complete"@, false)),
        AppAction::ComposeRestart => Some(
            (seq!["restart"@], "Restarting Compose project..."@, "Compose restart complete"@, false),
        ),
        AppAction::ComposePull => Some((seq!["pull"@], "Pulling Compose images..."@, "Compose images pulled"@, true)),
        AppAction::ComposeRebuild => Some(
            (seq!["up"@, "-d"@, "--build"@], "Rebuilding Compose project..."@, "Compose rebuild complete"@, true),
        ),
        _ => None,
    }
}

/// The view of a Compose plan.
pub open spec fn plan_view(p: ComposePlan) -> (Seq<Seq<char>>, Seq<char>, Seq<char>, bool) {
    (p.args@.map_values(|a: &str| a@), p.start_status@, p.success@, p.refresh_images)
}

/// The Compose command an action runs, if it is a Compose action.
pub fn compose_plan(action: AppAction) -> (r: Option<ComposePlan>)
    ensures
        match r {
            Some(p) => spec_compose_plan(action) == Some(plan_view(p)),
            None => spec_compose_plan(action) is None,
        },
{
    let r = match action {
        AppAction::ComposeUp => Some(
            ComposePlan { args: vec!["up", "-d"], start_status: "Starting Compose project...", success: "Compose up complete", refresh_images: false },
        ),
        AppAction::ComposeDown => Some(
            ComposePlan { args: vec!["down"], start_status: "Stopping Compose project...", success: "Compose down complete", refresh_images: false },
        ),
        AppAction::ComposeRestart => Some(
            ComposePlan {
                args: vec!["restart"],
                start_status: "Restarting Compose project...",
                success: "Compose restart complete",
                refresh_images: false,
            },
        ),
        AppAction::ComposePull => Some(
            ComposePlan { args: vec!["pull"], start_status: "Pulling Compose images...", success: "Compose images pulled", refresh_images: true },
        ),
        AppAction::ComposeRebuild => Some(
            ComposePlan {
                args: vec!["up", "-d", "--build"],
                start_status: "Rebuilding Compose project...",
                success: "Compose rebuild complete",
                refresh_images: true,
            },
        ),
        _ => None,
    };
    proof {
        if r is Some {
            assert(r.unwrap().args@.map_values(|a: &str| a@) =~= spec_compose_plan(action).unwrap().0);
        }
    }
    r
}

/// The ids of the listed containers in `state`, in list order.
pub open spec fn spec_ids_in_state(s: Seq<ContainerSummary>, state: Seq<char>) -> Seq<Seq<char>>
    decreases s.len(),
{
    if s.len() == 0 {
        Seq::empty()
    } else {
        let prev = spec_ids_in_state(s.drop_last(), state);
        match opt_view(s.last().id) {
            Some(id) => if opt_view(s.last().state) == Some(state) {
                prev.push(id)
            } else {
                prev
            },
            None => prev,
        }
    }
}

/// The ids of the containers in `state` (`running` for stop-all, `exited` for
/// removing stopped containers).
pub fn ids_in_state(containers: &Vec<ContainerSummary>, state: &str) -> (r: Vec<String>)
    ensures
        views(r@) == spec_ids_in_state(containers@, state@),
{
    let mut r: Vec<String> = Vec::new();
    let mut i: usize = 0;
    while i < containers.len()
        invariant
            i <= containers@.len(),
            views(r@) == spec_ids_in_state(containers@.take(i as int), state@),
        decreases containers@.len() - i,
    {
        assert(containers@.take(i + 1).drop_last() =~= containers@.take(i as int));
        assert(containers@.take(i + 1).last() == containers@[i as int]);
        let c = &containers[i];
        let in_state = match &c.state {
            Some(s) => str_eq(s.as_str(), state),
            None => false,
        };
        match &c.id {
            Some(id) => if in_state {
                let ghost before = views(r@);
                r.push(id.clone());
                assert(views(r@) =~= before.push(id@));
            },
            None => {},
        }
        i = i + 1;
    }
    assert(containers@.take(i as int) =~= containers@);
    r
}

/// The Compose profiles in force: those given on the command line, else the
/// configured ones.
pub fn choose_profiles(cli: &Vec<String>, configured: &Vec<String>) -> (r: Vec<String>)
    ensures
        views(r@) == (if cli@.len() > 0 { views(cli@) } else { views(configured@) }),
{
    let src = if cli.len() > 0 { cli } else { configured };
    let mut r: Vec<String> = Vec::new();
    let mut i: usize = 0;
    while i < src.len()
        invariant
            i <= src@.len(),
            views(r@) == views(src@).take(i as int),
        decreases src@.len() - i,
    {
        let ghost before = views(r@);
        r.push(src[i].clone());
        assert(views(r@) =~= before.push(src@[i as int]@));
        assert(views(src@).take(i + 1) =~= views(src@).take(i as int).push(src@[i as int]@));
        i = i + 1;
    }
    assert(views(src@).take(i as int) =~= views(src@));
    r
}

/// The Compose invocation for a resolved connection: its host, its context,
/// and its certificate directory where it is a TLS connection.
pub fn invocation_for(files: Vec<String>, project_name: Option<String>, profiles: Vec<String>, resolved: &ResolvedConnection) -> (r:
    ComposeInvocation)
    ensures
        r@.files == views(files@),
        r@.project_name == opt_view(project_name),
        r@.docker_host == crate::connection::spec_host(resolved.spec@),
        r@.docker_context == opt_view(resolved.context),
        r@.profiles == views(profiles@),
        r@.docker_cert_path == (match resolved.spec@ {
            ConnView::Tls(_, p) => Some(p),
            _ => None,
        }),
{
    let host = match resolved.spec.host() {
        Some(h) => Some(h.to_owned()),
        None => None,
    };
    let cert = match &resolved.spec {
        ConnectionSpec::Tls { cert_path, .. } => Some(cert_path.clone()),
        _ => None,
    };
    ComposeInvocation::new(files, project_name, host).with_context(clone_opt(&resolved.context)).with_profiles(
        profiles,
    ).with_tls_cert_path(cert)
}

/// The status message for a log stream that failed: the first twelve
/// characters of the container id, then the error.
pub open spec fn spec_stream_error_status(id: Seq<char>, message: Seq<char>) -> Seq<char> {
    "Log stream "@ + id.take(if id.len() < 12 { id.len() as int } else { 12 }) + ": "@ + message
}

pub fn stream_error_status(container_id: &str, message: &str) -> (r: String)
    ensures
        r@ == spec_stream_error_status(container_id@, message@),
{
    let n = container_id.unicode_len();
    let short = if n < 12 { n } else { 12 };
    assert(container_id@.subrange(0, short as int) =~= container_id@.take(short as int));
    "Log stream ".to_owned().concat(container_id.substring_char(0, short)).concat(": ").concat(message)
}

/// The first public port of a container, if it publishes one.
pub open spec fn spec_public_port(c: ContainerSummary) -> Option<u16> {
    match c.ports {
        Some(ps) => first_public(ps@),
        None => None,
    }
}

/// The public port of the first port mapping that has one.
pub open spec fn first_public(ps: Seq<crate::model::ContainerPort>) -> Option<u16>
    decreases ps.len(),
{
    if ps.len() == 0 {
        None
    } else if ps[0].public_port is Some {
        ps[0].public_port
    } else {
        first_public(ps.drop_first())
    }
}

/// Where the browser opens a container: `http://localhost:` and the first
/// public port; `Err(true)` where it exposes ports but publishes none,
/// `Err(false)` where it exposes none.
pub fn browser_url(c: &ContainerSummary) -> (r: Result<String, bool>)
    ensures
        match r {
            Ok(u) => spec_public_port(*c) is Some && u@ == "http://localhost:"@ + decimal(spec_public_port(*c).unwrap() as nat),
            Err(exposed) => exposed == (c.ports is Some) && spec_public_port(*c) is None,
        },
{
    match &c.ports {
        None => Err(false),
        Some(ps) => {
            let mut i: usize = 0;
            assert(ps@.skip(0) =~= ps@);
            while i < ps.len()
                invariant
                    i <= ps@.len(),
                    spec_public_port(*c) == first_public(ps@),
                    first_public(ps@) == first_public(ps@.skip(i as int)),
                decreases ps@.len() - i,
            {
                assert(ps@.skip(i as int)[0] == ps@[i as int]);
                match ps[i].public_port {
                    Some(p) => {
                        assert(first_public(ps@.skip(i as int)) == Some(p));
                        assert(spec_public_port(*c) == Some(p));
                        return Ok("http://localhost:".to_owned().concat(decimal_string(p as u64).as_str()));
                    },
                    None => {},
                }
                assert(ps@.skip(i as int).drop_first() =~= ps@.skip(i + 1));
                i = i + 1;
            }
            assert(ps@.skip(i as int) =~= Seq::<crate::model::ContainerPort>::empty());
            Err(true)
        },
    }
}

/// The position of the first `=` in an environment entry.
pub open spec fn first_equals(e: Seq<char>) -> Option<int> {
    if exists|i: int| 0 <= i < e.len() && e[i] == '=' {
        Some(choose|i: int| 0 <= i < e.len() && e[i] == '=' && forall|j: int| 0 <= j < i ==> e[j] != '=')
    } else {
        None
    }
}

/// The name and value of an environment entry `NAME=value`, split at the
/// first `=`; entries without one are dropped.
pub open spec fn spec_env_pairs(entries: Seq<Seq<char>>) -> Seq<(Seq<char>, Seq<char>)>
    decreases entries.len(),
{
    if entries.len() == 0 {
        Seq::empty()
    } else {
        let prev = spec_env_pairs(entries.drop_last());
        let e = entries.last();
        match first_equals(e) {
            Some(i) => prev.push((e.take(i), e.skip(i + 1))),
            None => prev,
        }
    }
}

/// Splits an environment entry at its first `=`.
fn split_env(e: &str) -> (r: Option<(String, String)>)
    ensures
        match r {
            Some(p) => first_equals(e@) matches Some(i) && p.0@ == e@.take(i) && p.1@ == e@.skip(i + 1),
            None => first_equals(e@) is None,
        },
{
    let n = e.unicode_len();
    let mut i: usize = 0;
    while i < n
        invariant
            n == e@.len(),
            i <= n,
            forall|j: int| 0 <= j < i ==> e@[j] != '=',
        decreases n - i,
    {
        if e.get_char(i) == '=' {
            let ghost w = choose|k: int| 0 <= k < e@.len() && e@[k] == '=' && forall|j: int| 0 <= j < k ==> e@[j] != '=';
            assert(w == i) by {
                if w < i {
                    assert(e@[w] != '=');
                }
                if w > i {
                    assert(e@[i as int] != '=');
                }
            }
            assert(e@.subrange(0, i as int) =~= e@.take(i as int));
            assert(e@.subrange(i + 1, n as int) =~= e@.skip(i + 1));
            return Some((e.substring_char(0, i).to_owned(), e.substring_char(i + 1, n).to_owned()));
        }
        i = i + 1;
    }
    None
}

/// The variables of a container's environment, each split at its first `=`.
pub fn env_pairs(entries: &Vec<String>) -> (r: Vec<(String, String)>)
    ensures
        r@.map_values(|p: (String, String)| (p.0@, p.1@)) == spec_env_pairs(views(entries@)),
{
    let mut r: Vec<(String, String)> = Vec::new();
    let mut i: usize = 0;
    while i < entries.len()
        invariant
            i <= entries@.len(),
            r@.map_values(|p: (String, String)| (p.0@, p.1@)) == spec_env_pairs(views(entries@).take(i as int)),
        decreases entries@.len() - i,
    {
        assert(views(entries@).take(i + 1).drop_last() =~= views(entries@).take(i as int));
        assert(views(entries@).take(i + 1).last() == entries@[i as int]@);
        let ghost before = r@.map_values(|p: (String, String)| (p.0@, p.1@));
        match split_env(entries[i].as_str()) {
            Some(p) => {
                r.push(p);
                assert(r@.map_values(|p: (String, String)| (p.0@, p.1@)) =~= before.push(
                    (r@[r@.len() - 1].0@, r@[r@.len() - 1].1@),
                ));
            },
            None => {},
        }
        i = i + 1;
    }
    assert(views(entries@).take(i as int) =~= views(entries@));
    r
}

/// The periodic work of a tick of the main loop.
#[derive(Debug, Clone, Copy, PartialEq, Eq, Structural)]
pub struct TickWork {
    /// Reload the container and network lists (every 40th tick).
    pub reload_lists: bool,
    /// Sample container statistics and the process table (every 8th tick).
    pub sample_stats: bool,
}

/// The work the `tick`-th tick of the main loop asks for.
pub fn tick_work(tick: u64) -> (r: TickWork)
    ensures
        r.reload_lists == (tick % 40 == 0),
        r.sample_stats == (tick % 8 == 0),
{
    TickWork { reload_lists: tick % 40 == 0, sample_stats: tick % 8 == 0 }
}

/// Whether the selected container's logs and details are read again after a
/// key or a click: where the selection moved, unless it is in the image list.
pub fn selection_needs_refresh(
    prev_index: usize,
    prev_section: SidebarSection,
    index: usize,
    section: SidebarSection,
) -> (r: bool)
    ensures
        r == ((prev_index != index || prev_section != section) && section != SidebarSection::Images),
{
    (prev_index != index || prev_section != section) && section != SidebarSection::Images
}

/// The list a Docker event makes the program read again.
#[derive(Debug, Clone, Copy, PartialEq, Eq, Structural)]
pub enum EventRefresh {
    Containers,
    Images,
    Volumes,
    Networks,
    Nothing,
}

/// The list an event about an object of `kind` makes the program read again.
pub fn event_refresh(kind: EventKind) -> (r: EventRefresh)
    ensures
        r == match kind {
            EventKind::Container => EventRefresh::Containers,
            EventKind::Image => EventRefresh::Images,
            EventKind::Volume => EventRefresh::Volumes,
            EventKind::Network => EventRefresh::Networks,
            EventKind::Other => EventRefresh::Nothing,
        },
{
    match kind {
        EventKind::Container => EventRefresh::Containers,
        EventKind::Image => EventRefresh::Images,
        EventKind::Volume => EventRefresh::Volumes,
        EventKind::Network => EventRefresh::Networks,
        EventKind::Other => EventRefresh::Nothing,
    }
}

} // verus!
