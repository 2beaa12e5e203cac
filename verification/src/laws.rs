//! Properties that hold across operations of the library: navigation that
//! one key undoes, what the prompts and popups let through, which actions
//! only a confirmation releases, and the reconnect cursor's guarantees.
use vstd::prelude::*;
use crate::app::keys::{grow_mode, handle_key_spec, shrink_mode, toggle};
use crate::app::lists::{container_sort, insert_sorted, key_lt, spec_sort_key};
use crate::compose::{insert_by_name, sort_by_name, spec_compose_env, ServiceView};
use crate::graph::{arrow_line, deps_of, graph_levels, grow, has_arrows, render_level, render_upto, spec_graph_lines, is_ready, is_root, leftovers, names_of, ready_among, roots_among};
use crate::model::ContainerSummary;
use crate::app::mouse::{mouse_step, spec_sidebar_row, MouseButton, MouseEvent, MouseEventKind, SidebarRow};
use crate::strings::{lemma_seq_lt_irreflexive, lemma_seq_lt_transitive, seq_lt};
use crate::app::{AppAction, AppView, InputMode, KeyCode, KeyEvent, KeyModifiers, ScreenMode, SidebarSection, Tab};
use crate::compose::{spec_compose_args, ComposeInvocationView};
use crate::connection::{spec_checked_dir, spec_connection, spec_step, ConnView, DockerEnv, StepView};
use crate::config::AppConfig;
use crate::filter::{insert_by_score, ranked, skim_score, spec_filter_positions};
use crate::logs::{is_log_target, spec_log_timestamp, spec_tasks_to_start, spec_update_cursor, target_ids};
use crate::model::opt_view;
use crate::stats::{spec_totals, StatsCounters};
use crate::logs::spec_stream_name;
use crate::logview::{spec_log_level, LogLevel};
use crate::strings::{contains_seq, unicode_lowercase};
use crate::layout::spec_sidebar_width;

verus! {

/// A key pressed without modifiers.
pub open spec fn plain_key(c: char) -> KeyEvent {
    KeyEvent { code: KeyCode::Char(c), modifiers: KeyModifiers::NONE }
}

/// The interface takes keys through its main bindings: no prompt is being
/// typed, no popup is open and no confirmation is pending.
pub open spec fn at_main_bindings(v: AppView) -> bool {
    &&& v.input_mode == InputMode::Normal
    &&& !v.show_help
    &&& !v.show_cleanup
    &&& !v.show_bulk
    &&& !v.show_custom_commands
    &&& v.pending_confirm is None
}

/// Moving down a section and back up, or up and back down, returns to the
/// section one started from.
pub proof fn law_section_prev_undoes_next(s: SidebarSection)
    ensures
        s.spec_next().spec_prev() == s,
        s.spec_prev().spec_next() == s,
{
}

/// Six presses of Tab come back to the tab one started on, and every tab is
/// listed in `Tab::all`.
pub proof fn law_tabs_cycle(t: Tab)
    ensures
        t.spec_next().spec_next().spec_next().spec_next().spec_next().spec_next() == t,
        Tab::spec_all().contains(t),
{
    match t {
        Tab::Logs => assert(Tab::spec_all()[0] == t),
        Tab::Stats => assert(Tab::spec_all()[1] == t),
        Tab::Info => assert(Tab::spec_all()[2] == t),
        Tab::Env => assert(Tab::spec_all()[3] == t),
        Tab::Top => assert(Tab::spec_all()[4] == t),
        Tab::Graph => assert(Tab::spec_all()[5] == t),
    }
}

/// `_` undoes `+` and `+` undoes `_`: the screen modes form a cycle.
pub proof fn law_shrink_undoes_grow(m: ScreenMode)
    ensures
        shrink_mode(grow_mode(m)) == m,
        grow_mode(shrink_mode(m)) == m,
        grow_mode(grow_mode(grow_mode(m))) == m,
{
}

/// At the main bindings, pressing `+` and then `_` leaves the interface as it
/// was, and asks for nothing.
pub proof fn law_plus_then_underscore_restores(v: AppView)
    requires
        at_main_bindings(v),
    ensures
        handle_key_spec(v, plain_key('+')).1 == AppAction::Nothing,
        handle_key_spec(handle_key_spec(v, plain_key('+')).0, plain_key('_')) == (v, AppAction::Nothing),
{
    law_shrink_undoes_grow(v.screen_mode);
}

/// While the log search is typed, a key edits the query or leaves the
/// prompt, and asks for nothing; only Control+C quits, and then nothing
/// changes.
pub proof fn law_search_prompt_only_edits_query(v: AppView, key: KeyEvent)
    requires
        v.input_mode == InputMode::Search,
    ensures
        handle_key_spec(v, key).0 == (AppView {
            log_search: handle_key_spec(v, key).0.log_search,
            input_mode: handle_key_spec(v, key).0.input_mode,
            ..v
        }),
        handle_key_spec(v, key).1 == AppAction::Nothing || handle_key_spec(v, key).1 == AppAction::Quit,
        handle_key_spec(v, key).1 == AppAction::Quit <==> (key.code == KeyCode::Char('c') && key.modifiers
            == KeyModifiers::CONTROL),
{
}

/// While the sidebar filter is typed, a key edits the filter or leaves the
/// prompt, and asks for nothing; only Control+C quits.
pub proof fn law_filter_prompt_only_edits_filter(v: AppView, key: KeyEvent)
    requires
        v.input_mode == InputMode::Filter,
    ensures
        handle_key_spec(v, key).0 == (AppView {
            sidebar_filter: handle_key_spec(v, key).0.sidebar_filter,
            input_mode: handle_key_spec(v, key).0.input_mode,
            ..v
        }),
        handle_key_spec(v, key).1 == AppAction::Nothing || handle_key_spec(v, key).1 == AppAction::Quit,
        handle_key_spec(v, key).1 == AppAction::Quit <==> (key.code == KeyCode::Char('c') && key.modifiers
            == KeyModifiers::CONTROL),
{
}

/// With help open, every key but `q`, Control+C and `?` asks for nothing and
/// changes nothing, except that Esc closes help.
pub proof fn law_help_blocks_other_keys(v: AppView, key: KeyEvent)
    requires
        v.input_mode == InputMode::Normal,
        v.show_help,
        key.code != KeyCode::Char('q'),
        key.code != KeyCode::Char('?'),
        !(key.code == KeyCode::Char('c') && key.modifiers == KeyModifiers::CONTROL),
    ensures
        handle_key_spec(v, key).1 == AppAction::Nothing,
        handle_key_spec(v, key).0 == (if key.code == KeyCode::Esc {
            AppView { show_help: false, ..v }
        } else {
            v
        }),
{
}

/// A pending confirmation takes the next key: `y` or Enter releases its
/// action and closes it, `n` or Esc closes it and asks for nothing, and any
/// other key but `q`, Control+C and `?` leaves it open.
pub proof fn law_confirmation_answers(v: AppView, key: KeyEvent, message: Seq<char>, action: AppAction)
    requires
        v.input_mode == InputMode::Normal,
        !v.show_help,
        !v.show_cleanup,
        !v.show_bulk,
        !v.show_custom_commands,
        v.pending_confirm == Some((message, action)),
        key.code != KeyCode::Char('q'),
        key.code != KeyCode::Char('?'),
        !(key.code == KeyCode::Char('c') && key.modifiers == KeyModifiers::CONTROL),
    ensures
        (key.code == KeyCode::Char('y') || key.code == KeyCode::Enter) ==> handle_key_spec(v, key) == (
            AppView { pending_confirm: None, ..v },
            action,
        ),
        (key.code == KeyCode::Char('n') || key.code == KeyCode::Esc) ==> handle_key_spec(v, key) == (
            AppView { pending_confirm: None, ..v },
            AppAction::Nothing,
        ),
        !(key.code == KeyCode::Char('y') || key.code == KeyCode::Enter || key.code == KeyCode::Char('n')
            || key.code == KeyCode::Esc) ==> handle_key_spec(v, key) == (v, AppAction::Nothing),
{
}

/// The actions that destroy or stop things.
pub open spec fn is_destructive(a: AppAction) -> bool {
    a == AppAction::RemoveContainer || a == AppAction::RemoveImage || a == AppAction::ComposeDown || a == AppAction::PruneImages || a
        == AppAction::PruneVolumes || a == AppAction::StopAllContainers || a == AppAction::RemoveStoppedContainers
        || a == AppAction::PruneContainers || a == AppAction::PruneNetworks
}

/// A destructive action is only ever asked for by answering a pending
/// confirmation of that very action.
pub proof fn law_destructive_actions_need_confirmation(v: AppView, key: KeyEvent)
    requires
        is_destructive(handle_key_spec(v, key).1),
    ensures
        v.pending_confirm matches Some(p) && p.1 == handle_key_spec(v, key).1,
        key.code == KeyCode::Char('y') || key.code == KeyCode::Enter,
{
}

/// Toggling the same member twice restores a set.
pub proof fn law_toggle_twice(s: Set<Seq<char>>, x: Seq<char>)
    ensures
        toggle(toggle(s, x), x) == s,
{
    if s.contains(x) {
        assert(toggle(toggle(s, x), x) =~= s);
    } else {
        assert(toggle(toggle(s, x), x) =~= s);
    }
}

/// At the main bindings, pressing `*` twice on a container pins and unpins it
/// (or the other way round): the interface is as it was.
pub proof fn law_pin_twice_restores(v: AppView)
    requires
        at_main_bindings(v),
    ensures
        handle_key_spec(handle_key_spec(v, plain_key('*')).0, plain_key('*')) == (v, AppAction::Nothing),
{
    match v.selected_id() {
        Some(id) => {
            if v.sidebar_section == SidebarSection::Services {
                law_toggle_twice(v.pinned_containers, id);
                let w = handle_key_spec(v, plain_key('*')).0;
                assert(w.selected_id() == v.selected_id());
                assert(handle_key_spec(w, plain_key('*')).0 =~~= v);
            }
        },
        None => {},
    }
}

/// Clamping keeps the selection on an item of a non-empty list, on 0 for an
/// empty one, and a second clamp changes nothing.
pub proof fn law_clamp_in_range(v: AppView)
    ensures
        v.list_len() > 0 ==> v.clamp_selected_index().selected_index < v.list_len(),
        v.list_len() == 0 ==> v.clamp_selected_index().selected_index == 0,
        v.clamp_selected_index().clamp_selected_index() == v.clamp_selected_index(),
{
}

/// An empty filter lists every item, in list order.
pub proof fn law_empty_filter_lists_everything(choices: Seq<Seq<char>>)
    requires
        choices.len() <= usize::MAX,
    ensures
        spec_filter_positions(choices, Seq::empty()).len() == choices.len(),
        forall|i: int| 0 <= i < choices.len() ==> spec_filter_positions(choices, Seq::empty())[i] == i,
{
}

/// The reconnect cursor never moves back, and keeps only lines of its own
/// second: if every remembered line stands at the cursor before a line is
/// delivered, the same holds after.
pub proof fn law_cursor_monotone_and_seen_at_cursor(line: Seq<char>, cursor: i32, seen: Set<Seq<char>>)
    requires
        forall|l: Seq<char>| seen.contains(l) ==> spec_log_timestamp(l) == Some(cursor),
    ensures
        spec_update_cursor(line, cursor, seen).0 >= cursor,
        forall|l: Seq<char>|
            spec_update_cursor(line, cursor, seen).1.contains(l) ==> spec_log_timestamp(l) == Some(
                spec_update_cursor(line, cursor, seen).0,
            ),
{
}

/// A delivered line that carries a time stamp no earlier than the cursor is
/// recognised afterwards as a duplicate, so a reconnect does not repeat it.
pub proof fn law_delivered_line_is_duplicate(line: Seq<char>, cursor: i32, seen: Set<Seq<char>>)
    requires
        spec_log_timestamp(line) matches Some(t) && t >= cursor,
    ensures
        spec_log_timestamp(line) == Some(spec_update_cursor(line, cursor, seen).0),
        spec_update_cursor(line, cursor, seen).1.contains(line),
{
}

/// Every Compose command line starts with `compose` and ends with the
/// action's own arguments.
pub proof fn law_compose_args_frame(inv: ComposeInvocationView, action: Seq<Seq<char>>)
    ensures
        spec_compose_args(inv, action)[0] == "compose"@,
        spec_compose_args(inv, action).len() >= action.len() + 1,
        spec_compose_args(inv, action).skip(spec_compose_args(inv, action).len() - action.len()) == action,
{
    let a = spec_compose_args(inv, action);
    assert(a.skip(a.len() - action.len()) =~= action);
}

/// A context named on the command line wins over everything else.
pub proof fn law_cli_context_wins(c: Seq<char>, config: AppConfig, env: DockerEnv)
    ensures
        spec_step(Some(c), config, env) == StepView::Inspect(c),
{
}

/// Without a command-line context, `DOCKER_CONTEXT` wins over `DOCKER_HOST`,
/// and `DOCKER_HOST` over the configured context and host.
pub proof fn law_environment_precedence(config: AppConfig, env: DockerEnv)
    ensures
        opt_view(env.context) matches Some(c) ==> spec_step(None, config, env) == StepView::Inspect(c),
        env.context is None ==> (opt_view(env.host) matches Some(h) ==> (spec_step(None, config, env) matches StepView::Connect(
            h2,
            _,
            _,
        ) && h2 == h)),
{
}

/// The sort order of containers is a strict order.
proof fn lemma_key_lt_strict(a: (bool, int, Seq<char>), b: (bool, int, Seq<char>), c: (bool, int, Seq<char>))
    ensures
        !key_lt(a, a),
        key_lt(a, b) && key_lt(b, c) ==> key_lt(a, c),
{
    lemma_seq_lt_irreflexive(a.2);
    if key_lt(a, b) && key_lt(b, c) && a.0 == b.0 && b.0 == c.0 && a.1 == b.1 && b.1 == c.1 {
        lemma_seq_lt_transitive(a.2, b.2, c.2);
    }
}

/// Whether no container comes after one that sorts behind it.
pub open spec fn containers_sorted(s: Seq<ContainerSummary>, pinned: Set<Seq<char>>) -> bool {
    forall|i: int, j: int|
        0 <= i < j < s.len() ==> !key_lt(#[trigger] spec_sort_key(s[j], pinned), #[trigger] spec_sort_key(s[i], pinned))
}

/// Where `insert_sorted` puts `x`: after every container that does not sort
/// behind it.
proof fn lemma_insert_sorted_at(out: Seq<ContainerSummary>, x: ContainerSummary, pinned: Set<Seq<char>>) -> (p: int)
    ensures
        0 <= p <= out.len(),
        insert_sorted(out, x, pinned) == out.insert(p, x),
        forall|j: int| 0 <= j < p ==> !key_lt(spec_sort_key(x, pinned), #[trigger] spec_sort_key(out[j], pinned)),
        p < out.len() ==> key_lt(spec_sort_key(x, pinned), spec_sort_key(out[p], pinned)),
    decreases out.len(),
{
    if out.len() == 0 {
        assert(out.insert(0, x) =~= seq![x]);
        0
    } else if key_lt(spec_sort_key(x, pinned), spec_sort_key(out[0], pinned)) {
        assert(out.insert(0, x) =~= seq![x] + out);
        0
    } else {
        let q = lemma_insert_sorted_at(out.drop_first(), x, pinned);
        assert(out.insert(q + 1, x) =~= seq![out[0]] + out.drop_first().insert(q, x));
        assert forall|j: int| 0 <= j < q + 1 implies !key_lt(spec_sort_key(x, pinned), #[trigger] spec_sort_key(out[j], pinned)) by {
            if j > 0 {
                assert(out[j] == out.drop_first()[j - 1]);
            }
        }
        if q + 1 < out.len() {
            assert(out[q + 1] == out.drop_first()[q]);
        }
        q + 1
    }
}

proof fn lemma_insert_keeps_sorted(out: Seq<ContainerSummary>, x: ContainerSummary, pinned: Set<Seq<char>>)
    requires
        containers_sorted(out, pinned),
    ensures
        containers_sorted(insert_sorted(out, x, pinned), pinned),
        insert_sorted(out, x, pinned).to_multiset() == out.to_multiset().insert(x),
{
    broadcast use vstd::seq_lib::group_to_multiset_ensures;
    let p = lemma_insert_sorted_at(out, x, pinned);
    let r = out.insert(p, x);
    let kx = spec_sort_key(x, pinned);
    assert forall|i: int, j: int| 0 <= i < j < r.len() implies !key_lt(
        #[trigger] spec_sort_key(r[j], pinned),
        #[trigger] spec_sort_key(r[i], pinned),
    ) by {
        lemma_key_lt_strict(kx, kx, kx);
        if i < p && j < p + 1 && j != p {
            assert(r[i] == out[i] && r[j] == out[j]);
        } else if i < p && j == p {
            assert(r[i] == out[i]);
        } else if i < p {
            assert(r[i] == out[i] && r[j] == out[j - 1]);
        } else if i == p {
            assert(r[j] == out[j - 1]);
            let kj = spec_sort_key(out[j - 1], pinned);
            let kp = spec_sort_key(out[p], pinned);
            lemma_key_lt_strict(kj, kx, kp);
            lemma_key_lt_strict(kj, kj, kj);
        } else {
            assert(r[i] == out[i - 1] && r[j] == out[j - 1]);
        }
    }
}

/// Sorting the containers orders them (pinned first, then by state, then by
/// lower-cased name) and neither loses nor adds a container.
pub proof fn law_container_sort_orders_and_permutes(s: Seq<ContainerSummary>, pinned: Set<Seq<char>>)
    ensures
        containers_sorted(container_sort(s, pinned), pinned),
        container_sort(s, pinned).to_multiset() == s.to_multiset(),
    decreases s.len(),
{
    broadcast use vstd::seq_lib::group_to_multiset_ensures;
    if s.len() == 0 {
        assert(container_sort(s, pinned) =~= s);
    } else {
        law_container_sort_orders_and_permutes(s.drop_last(), pinned);
        lemma_insert_keeps_sorted(container_sort(s.drop_last(), pinned), s.last(), pinned);
        assert(s.drop_last().push(s.last()) =~= s);
    }
}

/// Whether a container's sort key is `k`.
pub open spec fn key_is(pinned: Set<Seq<char>>, k: (bool, int, Seq<char>)) -> spec_fn(ContainerSummary) -> bool {
    |c: ContainerSummary| spec_sort_key(c, pinned) == k
}

proof fn lemma_filter_none(s: Seq<ContainerSummary>, pred: spec_fn(ContainerSummary) -> bool)
    requires
        forall|i: int| 0 <= i < s.len() ==> !pred(#[trigger] s[i]),
    ensures
        s.filter(pred) == Seq::<ContainerSummary>::empty(),
    decreases s.len(),
{
    reveal(Seq::filter);
    if s.len() > 0 {
        lemma_filter_none(s.drop_last(), pred);
        assert(!pred(s[s.len() - 1]));
    } else {
        assert(s.filter(pred) =~= Seq::<ContainerSummary>::empty());
    }
}

proof fn lemma_filter_push(s: Seq<ContainerSummary>, x: ContainerSummary, pred: spec_fn(ContainerSummary) -> bool)
    ensures
        s.push(x).filter(pred) == (if pred(x) { s.filter(pred).push(x) } else { s.filter(pred) }),
{
    reveal(Seq::filter);
    assert(s.push(x).drop_last() =~= s);
}

/// Inserting `x` into a sorted list keeps the order of the containers of
/// each key, and puts `x` after those of its own key.
proof fn lemma_insert_stable(out: Seq<ContainerSummary>, x: ContainerSummary, pinned: Set<Seq<char>>, k: (bool, int, Seq<char>))
    requires
        containers_sorted(out, pinned),
    ensures
        insert_sorted(out, x, pinned).filter(key_is(pinned, k)) == (if spec_sort_key(x, pinned) == k {
            out.filter(key_is(pinned, k)).push(x)
        } else {
            out.filter(key_is(pinned, k))
        }),
{
    broadcast use Seq::filter_distributes_over_add;
    let pred = key_is(pinned, k);
    let p = lemma_insert_sorted_at(out, x, pinned);
    let a = out.take(p);
    let b = out.skip(p);
    assert(out.insert(p, x) =~= a + seq![x] + b);
    assert(out =~= a + b);
    assert(seq![x] =~= Seq::<ContainerSummary>::empty().push(x));
    lemma_filter_push(Seq::<ContainerSummary>::empty(), x, pred);
    lemma_filter_none(Seq::<ContainerSummary>::empty(), pred);
    if spec_sort_key(x, pinned) == k {
        assert forall|i: int| 0 <= i < b.len() implies !pred(#[trigger] b[i]) by {
            let kx = spec_sort_key(x, pinned);
            let kp = spec_sort_key(out[p], pinned);
            let kj = spec_sort_key(out[p + i], pinned);
            assert(b[i] == out[p + i]);
            if i > 0 {
                assert(!key_lt(kj, kp));
            }
            lemma_key_lt_strict(kx, kx, kx);
            if kj == kx {
                assert(key_lt(kx, kp));
            }
        }
        lemma_filter_none(b, pred);
        assert((a + seq![x] + b).filter(pred) =~= a.filter(pred).push(x));
        assert((a + b).filter(pred) =~= a.filter(pred));
    } else {
        assert((a + seq![x] + b).filter(pred) =~= a.filter(pred) + b.filter(pred));
    }
}

/// Sorting the containers is stable: the containers of each key come out in
/// the order they came in.
pub proof fn law_container_sort_stable(s: Seq<ContainerSummary>, pinned: Set<Seq<char>>, k: (bool, int, Seq<char>))
    ensures
        container_sort(s, pinned).filter(key_is(pinned, k)) == s.filter(key_is(pinned, k)),
    decreases s.len(),
{
    if s.len() == 0 {
        assert(container_sort(s, pinned) =~= s);
    } else {
        let rest = s.drop_last();
        law_container_sort_stable(rest, pinned, k);
        law_container_sort_orders_and_permutes(rest, pinned);
        lemma_insert_stable(container_sort(rest, pinned), s.last(), pinned, k);
        lemma_filter_push(rest, s.last(), key_is(pinned, k));
        assert(rest.push(s.last()) =~= s);
    }
}

/// Whether no service comes after one whose name sorts before it.
pub open spec fn services_sorted(s: Seq<ServiceView>) -> bool {
    forall|i: int, j: int| 0 <= i < j < s.len() ==> !seq_lt(#[trigger] s[j].name, #[trigger] s[i].name)
}

proof fn lemma_insert_by_name_at(out: Seq<ServiceView>, x: ServiceView) -> (p: int)
    ensures
        0 <= p <= out.len(),
        insert_by_name(out, x) == out.insert(p, x),
        forall|j: int| 0 <= j < p ==> !seq_lt(x.name, #[trigger] out[j].name),
        p < out.len() ==> seq_lt(x.name, out[p].name),
    decreases out.len(),
{
    if out.len() == 0 {
        assert(out.insert(0, x) =~= seq![x]);
        0
    } else if seq_lt(x.name, out[0].name) {
        assert(out.insert(0, x) =~= seq![x] + out);
        0
    } else {
        let q = lemma_insert_by_name_at(out.drop_first(), x);
        assert(out.insert(q + 1, x) =~= seq![out[0]] + out.drop_first().insert(q, x));
        assert forall|j: int| 0 <= j < q + 1 implies !seq_lt(x.name, #[trigger] out[j].name) by {
            if j > 0 {
                assert(out[j] == out.drop_first()[j - 1]);
            }
        }
        if q + 1 < out.len() {
            assert(out[q + 1] == out.drop_first()[q]);
        }
        q + 1
    }
}

proof fn lemma_insert_by_name_keeps_sorted(out: Seq<ServiceView>, x: ServiceView)
    requires
        services_sorted(out),
    ensures
        services_sorted(insert_by_name(out, x)),
        insert_by_name(out, x).to_multiset() == out.to_multiset().insert(x),
{
    broadcast use vstd::seq_lib::group_to_multiset_ensures;
    let p = lemma_insert_by_name_at(out, x);
    let r = out.insert(p, x);
    assert forall|i: int, j: int| 0 <= i < j < r.len() implies !seq_lt(#[trigger] r[j].name, #[trigger] r[i].name) by {
        lemma_seq_lt_irreflexive(x.name);
        if i < p && j < p + 1 && j != p {
            assert(r[i] == out[i] && r[j] == out[j]);
        } else if i < p && j == p {
            assert(r[i] == out[i]);
        } else if i < p {
            assert(r[i] == out[i] && r[j] == out[j - 1]);
        } else if i == p {
            assert(r[j] == out[j - 1]);
            if seq_lt(out[j - 1].name, x.name) {
                lemma_seq_lt_transitive(out[j - 1].name, x.name, out[p].name);
                lemma_seq_lt_irreflexive(out[p].name);
            }
        } else {
            assert(r[i] == out[i - 1] && r[j] == out[j - 1]);
        }
    }
}

/// The services of a Compose project come sorted by name, and none is lost
/// or added.
pub proof fn law_services_sorted_by_name(s: Seq<ServiceView>)
    ensures
        services_sorted(sort_by_name(s)),
        sort_by_name(s).to_multiset() == s.to_multiset(),
    decreases s.len(),
{
    broadcast use vstd::seq_lib::group_to_multiset_ensures;
    if s.len() == 0 {
        assert(sort_by_name(s) =~= s);
    } else {
        law_services_sorted_by_name(s.drop_last());
        lemma_insert_by_name_keeps_sorted(sort_by_name(s.drop_last()), s.last());
        assert(s.drop_last().push(s.last()) =~= s);
    }
}

/// `q` quits from everywhere but the prompts, and changes nothing.
pub proof fn law_q_quits(v: AppView)
    requires
        v.input_mode == InputMode::Normal,
    ensures
        handle_key_spec(v, plain_key('q')) == (v, AppAction::Quit),
{
}

/// Moving down within a list and back up returns to the same item.
pub proof fn law_down_then_up(v: AppView)
    requires
        v.selected_index + 1 < v.list_len(),
        v.list_len() <= usize::MAX,
    ensures
        v.next_item().prev_item() == (AppView { log_scroll_offset: 0, ..v }),
{
}

/// Where Compose runs under a context, the inherited host and TLS settings
/// are removed and the context is passed on.
pub proof fn law_compose_context_overrides_host(inv: ComposeInvocationView, c: Seq<char>)
    requires
        inv.docker_context == Some(c),
    ensures
        spec_compose_env(inv).contains(("DOCKER_CONTEXT"@, Some(c))),
        spec_compose_env(inv).contains(("DOCKER_HOST"@, None::<Seq<char>>)),
        forall|h: Seq<char>| !spec_compose_env(inv).contains(("DOCKER_HOST"@, Some(h))),
{
    reveal_strlit("DOCKER_CONTEXT");
    reveal_strlit("DOCKER_HOST");
    reveal_strlit("DOCKER_TLS_VERIFY");
    reveal_strlit("DOCKER_CERT_PATH");
    let e = spec_compose_env(inv);
    assert(e[0] == ("DOCKER_CONTEXT"@, Some(c)));
    assert(e[1] == ("DOCKER_HOST"@, None::<Seq<char>>));
    assert forall|h: Seq<char>| !e.contains(("DOCKER_HOST"@, Some(h))) by {
        if e.contains(("DOCKER_HOST"@, Some(h))) {
            let i = choose|i: int| 0 <= i < e.len() && e[i] == ("DOCKER_HOST"@, Some(h));
            assert(i == 0 || i == 1 || i == 2 || i == 3);
            assert("DOCKER_HOST"@[7] == 'H');
            assert("DOCKER_CONTEXT"@[7] == 'C');
            assert("DOCKER_TLS_VERIFY"@[7] == 'T');
            assert("DOCKER_CERT_PATH"@[7] == 'C');
            if i == 0 {
                assert(e[0].0[7] == 'C');
            } else if i == 2 {
                assert(e[2].0[7] == 'T');
            } else if i == 3 {
                assert(e[3].0[7] == 'C');
            }
        }
    }
}

/// Whether `n` stands on some level.
pub open spec fn on_some_level(levels: Seq<Seq<Seq<char>>>, n: Seq<char>) -> bool {
    exists|i: int| 0 <= i < levels.len() && #[trigger] levels[i].contains(n)
}

proof fn lemma_push_keeps_levels(levels: Seq<Seq<Seq<char>>>, extra: Seq<Seq<char>>, n: Seq<char>)
    requires
        on_some_level(levels, n),
    ensures
        on_some_level(levels.push(extra), n),
{
    let i = choose|i: int| 0 <= i < levels.len() && #[trigger] levels[i].contains(n);
    assert(levels.push(extra)[i] == levels[i]);
}

proof fn lemma_grow_places_on_levels(
    s: Seq<(Seq<char>, Seq<Seq<char>>)>,
    levels: Seq<Seq<Seq<char>>>,
    placed: Seq<Seq<char>>,
    rounds: nat,
)
    requires
        forall|n: Seq<char>| placed.contains(n) ==> on_some_level(levels, n),
    ensures
        forall|n: Seq<char>|
            grow(s, levels, placed, rounds).1.contains(n) ==> on_some_level(grow(s, levels, placed, rounds).0, n),
        forall|n: Seq<char>| on_some_level(levels, n) ==> on_some_level(grow(s, levels, placed, rounds).0, n),
    decreases rounds,
{
    if rounds > 0 {
        let next = ready_among(s, names_of(s), placed);
        if next.len() > 0 {
            let levels2 = levels.push(next);
            let placed2 = placed + next;
            assert forall|n: Seq<char>| placed2.contains(n) implies on_some_level(levels2, n) by {
                if placed.contains(n) {
                    lemma_push_keeps_levels(levels, next, n);
                } else {
                    let k = choose|k: int| 0 <= k < placed2.len() && placed2[k] == n;
                    assert(placed2[k] == next[k - placed.len()]);
                    assert(next.contains(n));
                    assert(levels2[levels.len() as int] == next);
                    assert(levels2[levels.len() as int].contains(n));
                }
            }
            assert forall|n: Seq<char>| on_some_level(levels, n) implies on_some_level(levels2, n) by {
                lemma_push_keeps_levels(levels, next, n);
            }
            lemma_grow_places_on_levels(s, levels2, placed2, (rounds - 1) as nat);
            assert(grow(s, levels, placed, rounds) == grow(s, levels2, placed2, (rounds - 1) as nat));
        }
    }
}

proof fn lemma_leftovers_place_all(names: Seq<Seq<char>>, levels: Seq<Seq<Seq<char>>>, placed: Seq<Seq<char>>)
    requires
        forall|n: Seq<char>| placed.contains(n) ==> on_some_level(levels, n),
    ensures
        forall|n: Seq<char>| names.contains(n) ==> on_some_level(leftovers(names, levels, placed), n),
        forall|n: Seq<char>| on_some_level(levels, n) ==> on_some_level(leftovers(names, levels, placed), n),
    decreases names.len(),
{
    if names.len() > 0 {
        let first = names[0];
        let rest = names.drop_first();
        if placed.contains(first) {
            lemma_leftovers_place_all(rest, levels, placed);
            assert forall|n: Seq<char>| names.contains(n) implies on_some_level(leftovers(names, levels, placed), n) by {
                let k = choose|k: int| 0 <= k < names.len() && names[k] == n;
                if k > 0 {
                    assert(rest[k - 1] == n);
                    assert(rest.contains(n));
                }
            }
        } else {
            let levels2 = levels.push(seq![first]);
            let placed2 = placed.push(first);
            assert forall|n: Seq<char>| placed2.contains(n) implies on_some_level(levels2, n) by {
                if placed.contains(n) {
                    lemma_push_keeps_levels(levels, seq![first], n);
                } else {
                    let k = choose|k: int| 0 <= k < placed2.len() && placed2[k] == n;
                    assert(n == first);
                    assert(levels2[levels.len() as int] == seq![first]);
                    assert(seq![first][0] == n);
                    assert(levels2[levels.len() as int].contains(n));
                }
            }
            lemma_leftovers_place_all(rest, levels2, placed2);
            assert forall|n: Seq<char>| names.contains(n) implies on_some_level(leftovers(names, levels, placed), n) by {
                let k = choose|k: int| 0 <= k < names.len() && names[k] == n;
                if k > 0 {
                    assert(rest[k - 1] == n);
                    assert(rest.contains(n));
                } else {
                    assert(placed2.contains(n)) by {
                        assert(placed2[placed.len() as int] == n);
                    }
                }
            }
            assert forall|n: Seq<char>| on_some_level(levels, n) implies on_some_level(leftovers(names, levels, placed), n) by {
                lemma_push_keeps_levels(levels, seq![first], n);
            }
        }
    }
}

/// Every service stands on some level of the dependency graph, cycles
/// included.
pub proof fn law_graph_shows_every_service(s: Seq<(Seq<char>, Seq<Seq<char>>)>, i: int)
    requires
        0 <= i < s.len(),
    ensures
        on_some_level(graph_levels(s), s[i].0),
{
    let names = names_of(s);
    let roots = roots_among(s, names);
    let start: (Seq<Seq<Seq<char>>>, Seq<Seq<char>>) = if roots.len() > 0 {
        (seq![roots], roots)
    } else {
        (Seq::empty(), Seq::empty())
    };
    assert forall|n: Seq<char>| start.1.contains(n) implies on_some_level(start.0, n) by {
        if roots.len() > 0 {
            assert(start.0[0] == roots);
        }
    }
    lemma_grow_places_on_levels(s, start.0, start.1, s.len());
    let grown = grow(s, start.0, start.1, s.len());
    lemma_leftovers_place_all(names, grown.0, grown.1);
    assert(names[i] == s[i].0);
    assert(names.contains(s[i].0));
}

/// The names of the levels, level after level.
pub open spec fn flat_levels(levels: Seq<Seq<Seq<char>>>) -> Seq<Seq<char>>
    decreases levels.len(),
{
    if levels.len() == 0 {
        Seq::empty()
    } else {
        flat_levels(levels.drop_last()) + levels.last()
    }
}

proof fn lemma_flat_push(levels: Seq<Seq<Seq<char>>>, l: Seq<Seq<char>>)
    ensures
        flat_levels(levels.push(l)) == flat_levels(levels) + l,
{
    assert(levels.push(l).drop_last() =~= levels);
}

/// Two sequences without repeats and without a common element make one
/// without repeats.
proof fn lemma_concat_no_duplicates(a: Seq<Seq<char>>, b: Seq<Seq<char>>)
    requires
        a.no_duplicates(),
        b.no_duplicates(),
        forall|x: Seq<char>| b.contains(x) ==> !a.contains(x),
    ensures
        (a + b).no_duplicates(),
{
    let c = a + b;
    assert forall|i: int, j: int| 0 <= i < c.len() && 0 <= j < c.len() && i != j implies c[i] != c[j] by {
        if i < a.len() && j >= a.len() {
            assert(b[j - a.len()] == c[j]);
            assert(b.contains(c[j]));
            assert(a.contains(c[i]));
        } else if i >= a.len() && j < a.len() {
            assert(b[i - a.len()] == c[i]);
            assert(b.contains(c[i]));
            assert(a.contains(c[j]));
        } else if i >= a.len() && j >= a.len() {
            assert(c[i] == b[i - a.len()] && c[j] == b[j - a.len()]);
        }
    }
}

/// The services that became ready are names not yet placed, each once where
/// the names are distinct.
proof fn lemma_ready_among_fresh(
    s: Seq<(Seq<char>, Seq<Seq<char>>)>,
    names: Seq<Seq<char>>,
    placed: Seq<Seq<char>>,
)
    ensures
        forall|x: Seq<char>| ready_among(s, names, placed).contains(x) ==> names.contains(x) && !placed.contains(x),
        names.no_duplicates() ==> ready_among(s, names, placed).no_duplicates(),
    decreases names.len(),
{
    if names.len() > 0 {
        let init = names.drop_last();
        lemma_ready_among_fresh(s, init, placed);
        let prev = ready_among(s, init, placed);
        let n = names.last();
        assert forall|x: Seq<char>| init.contains(x) implies names.contains(x) by {
            let k = choose|k: int| 0 <= k < init.len() && init[k] == x;
            assert(names[k] == x);
        }
        if !placed.contains(n) && is_ready(s, placed, n) {
            assert forall|x: Seq<char>| prev.push(n).contains(x) implies names.contains(x) && !placed.contains(x) by {
                let k = choose|k: int| 0 <= k < prev.push(n).len() && prev.push(n)[k] == x;
                if k < prev.len() {
                    assert(prev[k] == x);
                    assert(prev.contains(x));
                } else {
                    assert(names[names.len() - 1] == x);
                }
            }
            if names.no_duplicates() {
                assert(init.no_duplicates()) by {
                    assert forall|i: int, j: int| 0 <= i < init.len() && 0 <= j < init.len() && i != j implies init[i] != init[j] by {
                        assert(init[i] == names[i] && init[j] == names[j]);
                    }
                }
                assert(!init.contains(n)) by {
                    if init.contains(n) {
                        let k = choose|k: int| 0 <= k < init.len() && init[k] == n;
                        assert(names[k] == names[names.len() - 1]);
                    }
                }
                assert(!prev.contains(n));
                lemma_concat_no_duplicates(prev, seq![n]);
                assert(prev + seq![n] =~= prev.push(n));
            }
        }
    }
}

/// The roots are names, each once where the names are distinct.
proof fn lemma_roots_among_fresh(s: Seq<(Seq<char>, Seq<Seq<char>>)>, names: Seq<Seq<char>>)
    ensures
        forall|x: Seq<char>| roots_among(s, names).contains(x) ==> names.contains(x),
        names.no_duplicates() ==> roots_among(s, names).no_duplicates(),
    decreases names.len(),
{
    if names.len() > 0 {
        let init = names.drop_last();
        lemma_roots_among_fresh(s, init);
        let prev = roots_among(s, init);
        let n = names.last();
        assert forall|x: Seq<char>| init.contains(x) implies names.contains(x) by {
            let k = choose|k: int| 0 <= k < init.len() && init[k] == x;
            assert(names[k] == x);
        }
        if is_root(s, n) {
            assert forall|x: Seq<char>| prev.push(n).contains(x) implies names.contains(x) by {
                let k = choose|k: int| 0 <= k < prev.push(n).len() && prev.push(n)[k] == x;
                if k < prev.len() {
                    assert(prev[k] == x);
                    assert(prev.contains(x));
                } else {
                    assert(names[names.len() - 1] == x);
                }
            }
            if names.no_duplicates() {
                assert(init.no_duplicates()) by {
                    assert forall|i: int, j: int| 0 <= i < init.len() && 0 <= j < init.len() && i != j implies init[i] != init[j] by {
                        assert(init[i] == names[i] && init[j] == names[j]);
                    }
                }
                assert(!init.contains(n)) by {
                    if init.contains(n) {
                        let k = choose|k: int| 0 <= k < init.len() && init[k] == n;
                        assert(names[k] == names[names.len() - 1]);
                    }
                }
                assert(!prev.contains(n));
                lemma_concat_no_duplicates(prev, seq![n]);
                assert(prev + seq![n] =~= prev.push(n));
            }
        }
    }
}

proof fn lemma_grow_no_duplicates(
    s: Seq<(Seq<char>, Seq<Seq<char>>)>,
    levels: Seq<Seq<Seq<char>>>,
    placed: Seq<Seq<char>>,
    rounds: nat,
)
    requires
        names_of(s).no_duplicates(),
        flat_levels(levels) == placed,
        placed.no_duplicates(),
    ensures
        flat_levels(grow(s, levels, placed, rounds).0) == grow(s, levels, placed, rounds).1,
        grow(s, levels, placed, rounds).1.no_duplicates(),
    decreases rounds,
{
    if rounds > 0 {
        let next = ready_among(s, names_of(s), placed);
        if next.len() > 0 {
            lemma_ready_among_fresh(s, names_of(s), placed);
            lemma_flat_push(levels, next);
            lemma_concat_no_duplicates(placed, next);
            lemma_grow_no_duplicates(s, levels.push(next), placed + next, (rounds - 1) as nat);
        }
    }
}

proof fn lemma_leftovers_no_duplicates(names: Seq<Seq<char>>, levels: Seq<Seq<Seq<char>>>, placed: Seq<Seq<char>>)
    requires
        names.no_duplicates(),
        flat_levels(levels) == placed,
        placed.no_duplicates(),
    ensures
        flat_levels(leftovers(names, levels, placed)).no_duplicates(),
    decreases names.len(),
{
    if names.len() == 0 {
    } else {
        let rest = names.drop_first();
        assert(rest.no_duplicates()) by {
            assert forall|i: int, j: int| 0 <= i < rest.len() && 0 <= j < rest.len() && i != j implies rest[i] != rest[j] by {
                assert(rest[i] == names[i + 1] && rest[j] == names[j + 1]);
            }
        }
        if placed.contains(names[0]) {
            lemma_leftovers_no_duplicates(rest, levels, placed);
        } else {
            let first = names[0];
            lemma_flat_push(levels, seq![first]);
            lemma_concat_no_duplicates(placed, seq![first]);
            assert(placed + seq![first] =~= placed.push(first));
            lemma_leftovers_no_duplicates(rest, levels.push(seq![first]), placed.push(first));
        }
    }
}

/// Where the service names are distinct, no service stands twice in the
/// dependency graph: with `law_graph_shows_every_service`, each stands on
/// exactly one level, once.
pub proof fn law_graph_shows_each_service_once(s: Seq<(Seq<char>, Seq<Seq<char>>)>)
    requires
        names_of(s).no_duplicates(),
    ensures
        flat_levels(graph_levels(s)).no_duplicates(),
{
    let names = names_of(s);
    let roots = roots_among(s, names);
    lemma_roots_among_fresh(s, names);
    let start: (Seq<Seq<Seq<char>>>, Seq<Seq<char>>) = if roots.len() > 0 {
        (seq![roots], roots)
    } else {
        (Seq::empty(), Seq::empty())
    };
    if roots.len() > 0 {
        lemma_flat_push(Seq::empty(), roots);
        assert(Seq::<Seq<Seq<char>>>::empty().push(roots) =~= seq![roots]);
        assert(flat_levels(Seq::<Seq<Seq<char>>>::empty()) =~= Seq::<Seq<char>>::empty());
        assert(Seq::<Seq<char>>::empty() + roots =~= roots);
    } else {
        assert(flat_levels(start.0) =~= start.1);
    }
    lemma_grow_no_duplicates(s, start.0, start.1, s.len());
    let grown = grow(s, start.0, start.1, s.len());
    lemma_leftovers_no_duplicates(names, grown.0, grown.1);
}

/// Whether `d` stands on a level above level `i`.
pub open spec fn above_level(levels: Seq<Seq<Seq<char>>>, i: int, d: Seq<char>) -> bool {
    exists|j: int| 0 <= j < i && #[trigger] levels[j].contains(d)
}

/// Whether every dependency of every service on the levels stands on a
/// level above it.
pub open spec fn deps_above(s: Seq<(Seq<char>, Seq<Seq<char>>)>, levels: Seq<Seq<Seq<char>>>) -> bool {
    forall|i: int, n: Seq<char>|
        0 <= i < levels.len() && #[trigger] levels[i].contains(n) ==> match deps_of(s, n) {
            Some(ds) => forall|k: int| 0 <= k < ds.len() ==> above_level(levels, i, #[trigger] ds[k]),
            None => true,
        }
}

/// The levels that growth builds, before the services it never placed.
pub open spec fn grown_levels(s: Seq<(Seq<char>, Seq<Seq<char>>)>) -> Seq<Seq<Seq<char>>> {
    let roots = roots_among(s, names_of(s));
    let start = if roots.len() > 0 {
        (seq![roots], roots)
    } else {
        (Seq::empty(), Seq::empty())
    };
    grow(s, start.0, start.1, s.len()).0
}

proof fn lemma_ready_among_ready(s: Seq<(Seq<char>, Seq<Seq<char>>)>, names: Seq<Seq<char>>, placed: Seq<Seq<char>>)
    ensures
        forall|x: Seq<char>| #[trigger] ready_among(s, names, placed).contains(x) ==> is_ready(s, placed, x),
    decreases names.len(),
{
    if names.len() > 0 {
        lemma_ready_among_ready(s, names.drop_last(), placed);
        let prev = ready_among(s, names.drop_last(), placed);
        let n = names.last();
        if !placed.contains(n) && is_ready(s, placed, n) {
            assert forall|x: Seq<char>| #[trigger] prev.push(n).contains(x) implies is_ready(s, placed, x) by {
                let k = choose|k: int| 0 <= k < prev.push(n).len() && prev.push(n)[k] == x;
                if k < prev.len() {
                    assert(prev[k] == x);
                    assert(prev.contains(x));
                }
            }
        }
    }
}

proof fn lemma_roots_among_roots(s: Seq<(Seq<char>, Seq<Seq<char>>)>, names: Seq<Seq<char>>)
    ensures
        forall|x: Seq<char>| #[trigger] roots_among(s, names).contains(x) ==> is_root(s, x),
    decreases names.len(),
{
    if names.len() > 0 {
        lemma_roots_among_roots(s, names.drop_last());
        let prev = roots_among(s, names.drop_last());
        let n = names.last();
        if is_root(s, n) {
            assert forall|x: Seq<char>| #[trigger] prev.push(n).contains(x) implies is_root(s, x) by {
                let k = choose|k: int| 0 <= k < prev.push(n).len() && prev.push(n)[k] == x;
                if k < prev.len() {
                    assert(prev[k] == x);
                    assert(prev.contains(x));
                }
            }
        }
    }
}

proof fn lemma_grow_deps_above(
    s: Seq<(Seq<char>, Seq<Seq<char>>)>,
    levels: Seq<Seq<Seq<char>>>,
    placed: Seq<Seq<char>>,
    rounds: nat,
)
    requires
        deps_above(s, levels),
        forall|x: Seq<char>| #[trigger] placed.contains(x) ==> above_level(levels, levels.len() as int, x),
    ensures
        deps_above(s, grow(s, levels, placed, rounds).0),
    decreases rounds,
{
    if rounds > 0 {
        let next = ready_among(s, names_of(s), placed);
        if next.len() > 0 {
            let levels2 = levels.push(next);
            let placed2 = placed + next;
            let m = levels.len() as int;
            lemma_ready_among_ready(s, names_of(s), placed);
            assert forall|i: int, n: Seq<char>| 0 <= i < levels2.len() && #[trigger] levels2[i].contains(n) implies match deps_of(s, n) {
                Some(ds) => forall|k: int| 0 <= k < ds.len() ==> above_level(levels2, i, #[trigger] ds[k]),
                None => true,
            } by {
                if i < m {
                    assert(levels2[i] == levels[i]);
                    if deps_of(s, n) is Some {
                        let ds = deps_of(s, n).unwrap();
                        assert forall|k: int| 0 <= k < ds.len() implies above_level(levels2, i, #[trigger] ds[k]) by {
                            assert(above_level(levels, i, ds[k]));
                            let j = choose|j: int| 0 <= j < i && #[trigger] levels[j].contains(ds[k]);
                            assert(levels2[j] == levels[j]);
                        }
                    }
                } else {
                    assert(levels2[i] == next);
                    assert(is_ready(s, placed, n));
                    if deps_of(s, n) is Some {
                        let ds = deps_of(s, n).unwrap();
                        assert forall|k: int| 0 <= k < ds.len() implies above_level(levels2, i, #[trigger] ds[k]) by {
                            assert(placed.contains(ds[k]));
                            let j = choose|j: int| 0 <= j < m && #[trigger] levels[j].contains(ds[k]);
                            assert(levels2[j] == levels[j]);
                        }
                    }
                }
            }
            assert forall|x: Seq<char>| #[trigger] placed2.contains(x) implies above_level(levels2, levels2.len() as int, x) by {
                let k = choose|k: int| 0 <= k < placed2.len() && placed2[k] == x;
                if k < placed.len() {
                    assert(placed[k] == x);
                    assert(placed.contains(x));
                    let j = choose|j: int| 0 <= j < m && #[trigger] levels[j].contains(x);
                    assert(levels2[j] == levels[j]);
                } else {
                    assert(next[k - placed.len()] == x);
                    assert(levels2[m] == next);
                    assert(levels2[m].contains(x));
                }
            }
            lemma_grow_deps_above(s, levels2, placed2, (rounds - 1) as nat);
        }
    }
}

proof fn lemma_leftovers_extend(names: Seq<Seq<char>>, levels: Seq<Seq<Seq<char>>>, placed: Seq<Seq<char>>)
    ensures
        leftovers(names, levels, placed).len() >= levels.len(),
        forall|i: int| 0 <= i < levels.len() ==> #[trigger] leftovers(names, levels, placed)[i] == levels[i],
    decreases names.len(),
{
    if names.len() > 0 {
        let rest = names.drop_first();
        if placed.contains(names[0]) {
            lemma_leftovers_extend(rest, levels, placed);
        } else {
            let levels2 = levels.push(seq![names[0]]);
            lemma_leftovers_extend(rest, levels2, placed.push(names[0]));
            assert forall|i: int| 0 <= i < levels.len() implies #[trigger] leftovers(names, levels, placed)[i] == levels[i] by {
                assert(levels2[i] == levels[i]);
            }
        }
    }
}

/// The levels that growth builds come first in the graph, and on them every
/// service stands below everything it depends on: a service is drawn only
/// once all its dependencies are drawn above it. (Services caught in a cycle,
/// or depending on one, are never grown; they follow, one per level.)
pub proof fn law_graph_dependencies_above(s: Seq<(Seq<char>, Seq<Seq<char>>)>)
    ensures
        deps_above(s, grown_levels(s)),
        grown_levels(s).len() <= graph_levels(s).len(),
        forall|i: int| 0 <= i < grown_levels(s).len() ==> #[trigger] graph_levels(s)[i] == grown_levels(s)[i],
{
    let names = names_of(s);
    let roots = roots_among(s, names);
    lemma_roots_among_roots(s, names);
    let start: (Seq<Seq<Seq<char>>>, Seq<Seq<char>>) = if roots.len() > 0 {
        (seq![roots], roots)
    } else {
        (Seq::empty(), Seq::empty())
    };
    assert forall|i: int, n: Seq<char>| 0 <= i < start.0.len() && #[trigger] start.0[i].contains(n) implies match deps_of(s, n) {
        Some(ds) => forall|k: int| 0 <= k < ds.len() ==> above_level(start.0, i, #[trigger] ds[k]),
        None => true,
    } by {
        assert(start.0[0] == roots);
        assert(is_root(s, n));
    }
    assert forall|x: Seq<char>| #[trigger] start.1.contains(x) implies above_level(start.0, start.0.len() as int, x) by {
        assert(start.0[0] == roots);
        assert(start.0[0].contains(x));
    }
    lemma_grow_deps_above(s, start.0, start.1, s.len());
    let grown = grow(s, start.0, start.1, s.len());
    lemma_leftovers_extend(names, grown.0, grown.1);
}

/// The spans of the drawing, line after line.
pub open spec fn flat_spans(lines: Seq<Seq<(Seq<char>, bool)>>) -> Seq<(Seq<char>, bool)>
    decreases lines.len(),
{
    if lines.len() == 0 {
        Seq::empty()
    } else {
        flat_spans(lines.drop_last()) + lines.last()
    }
}

/// Whether a span draws a service: its text opens with `[`.
pub open spec fn is_item_span(sp: (Seq<char>, bool)) -> bool {
    sp.0.len() > 0 && sp.0[0] == '['
}

/// The test of a service span, as a predicate.
pub open spec fn item_pred() -> spec_fn((Seq<char>, bool)) -> bool {
    |sp: (Seq<char>, bool)| is_item_span(sp)
}

/// How a service is drawn: its name in brackets, marked where it is the
/// selected one.
pub open spec fn service_span(n: Seq<char>, selected: Option<Seq<char>>) -> (Seq<char>, bool) {
    ("["@ + n + "]"@, selected == Some(n))
}

pub open spec fn service_spans(names: Seq<Seq<char>>, selected: Option<Seq<char>>) -> Seq<(Seq<char>, bool)> {
    names.map_values(|n: Seq<char>| service_span(n, selected))
}

/// Whether every span that draws no service is unmarked.
pub open spec fn others_unmarked(spans: Seq<(Seq<char>, bool)>) -> bool {
    forall|k: int| 0 <= k < spans.len() && !is_item_span(#[trigger] spans[k]) ==> !spans[k].1
}

proof fn lemma_strlits()
    ensures
        "["@.len() == 1 && "["@[0] == '[',
        "   "@.len() == 3 && "   "@[0] == ' ',
        "  │"@.len() == 3 && "  │"@[0] == ' ',
        "  ▼"@.len() == 3 && "  ▼"@[0] == ' ',
{
    reveal_strlit("[");
    reveal_strlit("   ");
    reveal_strlit("  │");
    reveal_strlit("  ▼");
}

proof fn lemma_filter_push_span(s: Seq<(Seq<char>, bool)>, x: (Seq<char>, bool))
    ensures
        s.push(x).filter(item_pred()) == (if is_item_span(x) {
            s.filter(item_pred()).push(x)
        } else {
            s.filter(item_pred())
        }),
{
    reveal(Seq::filter);
    assert(s.push(x).drop_last() =~= s);
}

proof fn lemma_render_level_items(level: Seq<Seq<char>>, selected: Option<Seq<char>>)
    ensures
        render_level(level, selected).filter(item_pred()) == service_spans(level, selected),
        others_unmarked(render_level(level, selected)),
    decreases level.len(),
{
    lemma_strlits();
    let r = render_level(level, selected);
    if level.len() == 0 {
        reveal(Seq::filter);
        assert(service_spans(level, selected) =~= Seq::<(Seq<char>, bool)>::empty());
    } else {
        let init = level.drop_last();
        lemma_render_level_items(init, selected);
        let prev = render_level(init, selected);
        let item = service_span(level.last(), selected);
        assert(("["@ + level.last() + "]"@)[0] == '[');
        assert(is_item_span(item));
        let sep = ("   "@, false);
        assert(!is_item_span(sep));
        assert(service_spans(level, selected) =~= service_spans(init, selected).push(item));
        if level.len() > 1 {
            lemma_filter_push_span(prev, sep);
            lemma_filter_push_span(prev.push(sep), item);
            assert forall|k: int| 0 <= k < r.len() && !is_item_span(#[trigger] r[k]) implies !r[k].1 by {
                if k < prev.len() {
                    assert(r[k] == prev[k]);
                }
            }
        } else {
            lemma_filter_push_span(prev, item);
            assert forall|k: int| 0 <= k < r.len() && !is_item_span(#[trigger] r[k]) implies !r[k].1 by {
                if k < prev.len() {
                    assert(r[k] == prev[k]);
                }
            }
        }
    }
}

proof fn lemma_flat_spans_push(lines: Seq<Seq<(Seq<char>, bool)>>, l: Seq<(Seq<char>, bool)>)
    ensures
        flat_spans(lines.push(l)) == flat_spans(lines) + l,
{
    assert(lines.push(l).drop_last() =~= lines);
}

proof fn lemma_others_unmarked_concat(a: Seq<(Seq<char>, bool)>, b: Seq<(Seq<char>, bool)>)
    requires
        others_unmarked(a),
        others_unmarked(b),
    ensures
        others_unmarked(a + b),
{
    let c = a + b;
    assert forall|k: int| 0 <= k < c.len() && !is_item_span(#[trigger] c[k]) implies !c[k].1 by {
        if k < a.len() {
            assert(c[k] == a[k]);
        } else {
            assert(c[k] == b[k - a.len()]);
        }
    }
}

proof fn lemma_render_upto_items(
    s: Seq<(Seq<char>, Seq<Seq<char>>)>,
    levels: Seq<Seq<Seq<char>>>,
    selected: Option<Seq<char>>,
    i: nat,
)
    requires
        i <= levels.len(),
    ensures
        flat_spans(render_upto(s, levels, selected, i)).filter(item_pred())
            == service_spans(flat_levels(levels.take(i as int)), selected),
        others_unmarked(flat_spans(render_upto(s, levels, selected, i))),
    decreases i,
{
    broadcast use Seq::filter_distributes_over_add;
    lemma_strlits();
    if i == 0 {
        reveal(Seq::filter);
        assert(levels.take(0) =~= Seq::<Seq<Seq<char>>>::empty());
        assert(service_spans(flat_levels(levels.take(0)), selected) =~= Seq::<(Seq<char>, bool)>::empty());
    } else {
        let k = (i - 1) as int;
        lemma_render_upto_items(s, levels, selected, (i - 1) as nat);
        let prev = render_upto(s, levels, selected, (i - 1) as nat);
        let line = render_level(levels[k], selected);
        lemma_render_level_items(levels[k], selected);
        lemma_flat_spans_push(prev, line);
        lemma_flat_push(levels.take(k), levels[k]);
        assert(levels.take(k).push(levels[k]) =~= levels.take(i as int));
        assert(service_spans(flat_levels(levels.take(k)) + levels[k], selected) =~= service_spans(
            flat_levels(levels.take(k)),
            selected,
        ) + service_spans(levels[k], selected));
        lemma_others_unmarked_concat(flat_spans(prev), line);
        if k + 1 < levels.len() && has_arrows(s, levels[k], levels[k + 1]) {
            let arrows = arrow_line();
            lemma_flat_spans_push(prev.push(line), arrows);
            let e = Seq::<(Seq<char>, bool)>::empty();
            assert(!is_item_span(arrows[0]) && !is_item_span(arrows[1]));
            assert(arrows =~= e.push(arrows[0]).push(arrows[1]));
            lemma_filter_push_span(e, arrows[0]);
            lemma_filter_push_span(e.push(arrows[0]), arrows[1]);
            assert(e.filter(item_pred()) =~= e) by {
                reveal(Seq::filter);
            }
            assert(arrows.filter(item_pred()) =~= e);
            assert(others_unmarked(arrows));
            lemma_others_unmarked_concat(flat_spans(prev) + line, arrows);
        }
    }
}

/// What the drawing of the dependency graph shows: the spans that draw a
/// service are each service's name in brackets, level after level, marked
/// exactly where it is the selected service; every other span (the gaps
/// between names and the arrows) is unmarked. With distinct names each
/// service is thus drawn once (`law_graph_shows_each_service_once`,
/// `law_graph_shows_every_service`).
pub proof fn law_graph_drawing_spans(s: Seq<(Seq<char>, Seq<Seq<char>>)>, selected: Option<Seq<char>>)
    requires
        s.len() > 0,
    ensures
        flat_spans(spec_graph_lines(s, selected)).filter(item_pred()) == service_spans(
            flat_levels(graph_levels(s)),
            selected,
        ),
        others_unmarked(flat_spans(spec_graph_lines(s, selected))),
{
    let levels = graph_levels(s);
    lemma_render_upto_items(s, levels, selected, levels.len());
    assert(levels.take(levels.len() as int) =~= levels);
}

/// Whether each service on the levels stands on the level just below the
/// deepest of its dependencies: services on the first level depend on
/// nothing, and each service on a later level depends on one on the level
/// right above it. With `deps_above`, a service's level is its dependency
/// depth: 0 without dependencies, else one more than the deepest of them.
pub open spec fn levels_are_depths(s: Seq<(Seq<char>, Seq<Seq<char>>)>, levels: Seq<Seq<Seq<char>>>) -> bool {
    forall|i: int, n: Seq<char>|
        0 <= i < levels.len() && #[trigger] levels[i].contains(n) ==> if i == 0 {
            is_root(s, n)
        } else {
            exists|d: Seq<char>|
                #![trigger levels[i - 1].contains(d)]
                deps_of(s, n) is Some && deps_of(s, n).unwrap().contains(d) && levels[i - 1].contains(d)
        }
}

/// The services placed before the last level.
pub open spec fn placed_before_last(levels: Seq<Seq<Seq<char>>>) -> Seq<Seq<char>> {
    if levels.len() == 0 {
        Seq::empty()
    } else {
        flat_levels(levels.drop_last())
    }
}

proof fn lemma_ready_among_complete(
    s: Seq<(Seq<char>, Seq<Seq<char>>)>,
    names: Seq<Seq<char>>,
    placed: Seq<Seq<char>>,
    x: Seq<char>,
)
    requires
        names.contains(x),
        !placed.contains(x),
        is_ready(s, placed, x),
    ensures
        ready_among(s, names, placed).contains(x),
    decreases names.len(),
{
    let init = names.drop_last();
    let prev = ready_among(s, init, placed);
    if names.last() == x {
        assert(ready_among(s, names, placed) == prev.push(x));
        assert(prev.push(x)[prev.len() as int] == x);
    } else {
        let k = choose|k: int| 0 <= k < names.len() && names[k] == x;
        assert(init[k] == x);
        lemma_ready_among_complete(s, init, placed, x);
        let j = choose|j: int| 0 <= j < prev.len() && prev[j] == x;
        if !placed.contains(names.last()) && is_ready(s, placed, names.last()) {
            assert(prev.push(names.last())[j] == x);
        }
    }
}

proof fn lemma_roots_among_complete(s: Seq<(Seq<char>, Seq<Seq<char>>)>, names: Seq<Seq<char>>, x: Seq<char>)
    requires
        names.contains(x),
        is_root(s, x),
    ensures
        roots_among(s, names).contains(x),
    decreases names.len(),
{
    let init = names.drop_last();
    let prev = roots_among(s, init);
    if names.last() == x {
        assert(prev.push(x)[prev.len() as int] == x);
    } else {
        let k = choose|k: int| 0 <= k < names.len() && names[k] == x;
        assert(init[k] == x);
        lemma_roots_among_complete(s, init, x);
        let j = choose|j: int| 0 <= j < prev.len() && prev[j] == x;
        if is_root(s, names.last()) {
            assert(prev.push(names.last())[j] == x);
        }
    }
}

proof fn lemma_flat_contains(levels: Seq<Seq<Seq<char>>>, x: Seq<char>)
    ensures
        flat_levels(levels).contains(x) <==> exists|i: int| 0 <= i < levels.len() && #[trigger] levels[i].contains(x),
    decreases levels.len(),
{
    if levels.len() > 0 {
        let init = levels.drop_last();
        lemma_flat_contains(init, x);
        let a = flat_levels(init);
        let b = levels.last();
        if (a + b).contains(x) {
            let k = choose|k: int| 0 <= k < (a + b).len() && (a + b)[k] == x;
            if k < a.len() {
                assert(a[k] == x);
                let i = choose|i: int| 0 <= i < init.len() && #[trigger] init[i].contains(x);
                assert(levels[i] == init[i]);
            } else {
                assert(b[k - a.len()] == x);
                assert(levels[levels.len() - 1].contains(x));
            }
        }
        if exists|i: int| 0 <= i < levels.len() && #[trigger] levels[i].contains(x) {
            let i = choose|i: int| 0 <= i < levels.len() && #[trigger] levels[i].contains(x);
            if i < levels.len() - 1 {
                assert(init[i] == levels[i]);
                assert(a.contains(x));
                let k = choose|k: int| 0 <= k < a.len() && a[k] == x;
                assert((a + b)[k] == x);
            } else {
                let k = choose|k: int| 0 <= k < b.len() && b[k] == x;
                assert((a + b)[a.len() + k] == x);
            }
        }
    }
}

proof fn lemma_grow_depths(
    s: Seq<(Seq<char>, Seq<Seq<char>>)>,
    levels: Seq<Seq<Seq<char>>>,
    placed: Seq<Seq<char>>,
    rounds: nat,
)
    requires
        placed == flat_levels(levels),
        levels_are_depths(s, levels),
        forall|x: Seq<char>|
            names_of(s).contains(x) && !placed.contains(x) ==> !is_ready(s, placed_before_last(levels), x),
        levels.len() > 0 || placed.len() == 0,
    ensures
        levels_are_depths(s, grow(s, levels, placed, rounds).0),
    decreases rounds,
{
    if rounds > 0 {
        let names = names_of(s);
        let next = ready_among(s, names, placed);
        if next.len() > 0 {
            let m = levels.len() as int;
            let levels2 = levels.push(next);
            let placed2 = placed + next;
            lemma_flat_push(levels, next);
            lemma_ready_among_fresh(s, names, placed);
            lemma_ready_among_ready(s, names, placed);
            assert(levels2.drop_last() =~= levels);
            assert forall|i: int, n: Seq<char>| 0 <= i < levels2.len() && #[trigger] levels2[i].contains(n) implies (if i == 0 {
                is_root(s, n)
            } else {
                exists|d: Seq<char>|
                    #![trigger levels2[i - 1].contains(d)]
                    deps_of(s, n) is Some && deps_of(s, n).unwrap().contains(d) && levels2[i - 1].contains(d)
            }) by {
                if i < m {
                    assert(levels2[i] == levels[i]);
                    if i > 0 {
                        assert(levels2[i - 1] == levels[i - 1]);
                        let d = choose|d: Seq<char>|
                            #![trigger levels[i - 1].contains(d)]
                            deps_of(s, n) is Some && deps_of(s, n).unwrap().contains(d) && levels[i - 1].contains(d);
                        assert(levels2[i - 1].contains(d));
                    }
                } else {
                    assert(levels2[i] == next);
                    assert(names.contains(n) && !placed.contains(n));
                    assert(is_ready(s, placed, n));
                    assert(!is_ready(s, placed_before_last(levels), n));
                    if m == 0 {
                        assert(placed.len() == 0);
                        if deps_of(s, n) is Some {
                            let ds = deps_of(s, n).unwrap();
                            if ds.len() > 0 {
                                assert(placed.contains(ds[0]));
                            }
                        }
                    } else {
                        let pb = placed_before_last(levels);
                        let ds = deps_of(s, n).unwrap();
                        let k = choose|k: int| 0 <= k < ds.len() && !pb.contains(#[trigger] ds[k]);
                        let d = ds[k];
                        assert(placed.contains(d));
                        lemma_flat_contains(levels, d);
                        lemma_flat_contains(levels.drop_last(), d);
                        let j = choose|j: int| 0 <= j < levels.len() && #[trigger] levels[j].contains(d);
                        if j < m - 1 {
                            assert(levels.drop_last()[j] == levels[j]);
                        }
                        assert(j == m - 1);
                        assert(levels2[i - 1] == levels[m - 1]);
                        assert(ds.contains(d));
                        assert(levels2[i - 1].contains(d));
                    }
                }
            }
            assert forall|x: Seq<char>| names.contains(x) && !placed2.contains(x) implies !is_ready(
                s,
                placed_before_last(levels2),
                x,
            ) by {
                assert(placed_before_last(levels2) == placed);
                if is_ready(s, placed, x) {
                    if !placed.contains(x) {
                        lemma_ready_among_complete(s, names, placed, x);
                        let k = choose|k: int| 0 <= k < next.len() && next[k] == x;
                        assert(placed2[placed.len() + k] == x);
                    } else {
                        let k = choose|k: int| 0 <= k < placed.len() && placed[k] == x;
                        assert(placed2[k] == x);
                    }
                }
            }
            lemma_grow_depths(s, levels2, placed2, (rounds - 1) as nat);
        }
    }
}

/// On the levels that growth builds, each service's level is its dependency
/// depth: services without dependencies stand on the first level, and every
/// other one on the level right below the deepest of its dependencies
/// (`levels_are_depths` with `deps_above`). Two services thus share a line
/// of the drawing exactly where their depths are equal.
pub proof fn law_graph_levels_are_depths(s: Seq<(Seq<char>, Seq<Seq<char>>)>)
    ensures
        levels_are_depths(s, grown_levels(s)),
        deps_above(s, grown_levels(s)),
{
    law_graph_dependencies_above(s);
    let names = names_of(s);
    let roots = roots_among(s, names);
    lemma_roots_among_roots(s, names);
    if roots.len() > 0 {
        let levels = seq![roots];
        lemma_flat_push(Seq::empty(), roots);
        assert(Seq::<Seq<Seq<char>>>::empty().push(roots) =~= levels);
        assert(flat_levels(Seq::<Seq<Seq<char>>>::empty()) =~= Seq::<Seq<char>>::empty());
        assert(flat_levels(levels) =~= roots);
        assert forall|i: int, n: Seq<char>| 0 <= i < levels.len() && #[trigger] levels[i].contains(n) implies (if i == 0 {
            is_root(s, n)
        } else {
            exists|d: Seq<char>|
                #![trigger levels[i - 1].contains(d)]
                deps_of(s, n) is Some && deps_of(s, n).unwrap().contains(d) && levels[i - 1].contains(d)
        }) by {
            assert(levels[0] == roots);
        }
        assert(levels.drop_last() =~= Seq::<Seq<Seq<char>>>::empty());
        assert(placed_before_last(levels) =~= Seq::<Seq<char>>::empty());
        assert forall|x: Seq<char>| names.contains(x) && !roots.contains(x) implies !is_ready(
            s,
            placed_before_last(levels),
            x,
        ) by {
            if is_ready(s, Seq::<Seq<char>>::empty(), x) {
                if deps_of(s, x) is Some {
                    let ds = deps_of(s, x).unwrap();
                    if ds.len() > 0 {
                        assert(Seq::<Seq<char>>::empty().contains(ds[0]));
                    }
                }
                lemma_roots_among_complete(s, names, x);
            }
        }
        lemma_grow_depths(s, levels, roots, s.len());
    } else {
        let levels = Seq::<Seq<Seq<char>>>::empty();
        assert(flat_levels(levels) =~= Seq::<Seq<char>>::empty());
        assert forall|x: Seq<char>| names.contains(x) && !Seq::<Seq<char>>::empty().contains(x) implies !is_ready(
            s,
            placed_before_last(levels),
            x,
        ) by {
            if is_ready(s, Seq::<Seq<char>>::empty(), x) {
                if deps_of(s, x) is Some {
                    let ds = deps_of(s, x).unwrap();
                    if ds.len() > 0 {
                        assert(Seq::<Seq<char>>::empty().contains(ds[0]));
                    }
                }
                lemma_roots_among_complete(s, names, x);
            }
        }
        lemma_grow_depths(s, levels, Seq::<Seq<char>>::empty(), s.len());
    }
}

proof fn lemma_insert_by_score_at(out: Seq<(i64, usize)>, x: (i64, usize)) -> (p: int)
    ensures
        0 <= p <= out.len(),
        insert_by_score(out, x) == out.insert(p, x),
    decreases out.len(),
{
    if out.len() == 0 {
        assert(out.insert(0, x) =~= seq![x]);
        0
    } else if out[0].0 < x.0 {
        assert(out.insert(0, x) =~= seq![x] + out);
        0
    } else {
        let q = lemma_insert_by_score_at(out.drop_first(), x);
        assert(out.insert(q + 1, x) =~= seq![out[0]] + out.drop_first().insert(q, x));
        q + 1
    }
}

/// Whether the ranked entries point into a list of `n` items, each item at
/// most once.
pub open spec fn ranked_indices_ok(r: Seq<(i64, usize)>, n: int) -> bool {
    &&& forall|k: int| 0 <= k < r.len() ==> #[trigger] r[k].1 < n
    &&& forall|i: int, j: int| 0 <= i < j < r.len() ==> #[trigger] r[i].1 != #[trigger] r[j].1
}

proof fn lemma_ranked_indices(scores: Seq<Option<i64>>)
    requires
        scores.len() <= usize::MAX,
    ensures
        ranked_indices_ok(ranked(scores), scores.len() as int),
    decreases scores.len(),
{
    if scores.len() > 0 {
        let prev = ranked(scores.drop_last());
        lemma_ranked_indices(scores.drop_last());
        match scores.last() {
            Some(sc) => {
                let x = (sc, (scores.len() - 1) as usize);
                let p = lemma_insert_by_score_at(prev, x);
                let r = prev.insert(p, x);
                assert(ranked(scores) == r);
                assert forall|k: int| 0 <= k < r.len() implies #[trigger] r[k].1 < scores.len() by {
                    if k < p {
                        assert(r[k] == prev[k]);
                    } else if k > p {
                        assert(r[k] == prev[k - 1]);
                    }
                }
                assert forall|i: int, j: int| 0 <= i < j < r.len() implies #[trigger] r[i].1 != #[trigger] r[j].1 by {
                    if i < p && j < p {
                        assert(r[i] == prev[i] && r[j] == prev[j]);
                    } else if i < p && j == p {
                        assert(r[i] == prev[i]);
                    } else if i < p {
                        assert(r[i] == prev[i] && r[j] == prev[j - 1]);
                    } else if i == p {
                        assert(r[j] == prev[j - 1]);
                    } else {
                        assert(r[i] == prev[i - 1] && r[j] == prev[j - 1]);
                    }
                }
            },
            None => {},
        }
    }
}

/// The filtered list points into the full list and shows each item at most
/// once, whatever the filter.
pub proof fn law_filter_positions_distinct_in_range(choices: Seq<Seq<char>>, filter: Seq<char>)
    requires
        choices.len() <= usize::MAX,
    ensures
        forall|k: int|
            0 <= k < spec_filter_positions(choices, filter).len() ==> #[trigger] spec_filter_positions(choices, filter)[k]
                < choices.len(),
        spec_filter_positions(choices, filter).no_duplicates(),
{
    let r = spec_filter_positions(choices, filter);
    if filter.len() > 0 {
        let scores = choices.map_values(|c: Seq<char>| skim_score(c, filter));
        lemma_ranked_indices(scores);
        let rk = ranked(scores);
        assert forall|i: int, j: int| 0 <= i < r.len() && 0 <= j < r.len() && i != j implies r[i] != r[j] by {
            if i < j {
                assert(rk[i].1 != rk[j].1);
            } else {
                assert(rk[j].1 != rk[i].1);
            }
        }
        assert forall|k: int| 0 <= k < r.len() implies #[trigger] r[k] < choices.len() by {
            assert(rk[k].1 < scores.len());
        }
    }
}

/// Whether the selection is on an item of its list, or on 0 for an empty
/// list.
pub open spec fn selection_in_range(v: AppView) -> bool {
    (v.list_len() == 0 && v.selected_index == 0) || v.selected_index < v.list_len()
}

/// A click on a sidebar row selects an item of the list it belongs to.
proof fn lemma_sidebar_row_in_list(c: int, i: int, vl: int, n: int, row: int)
    requires
        0 <= c,
        0 <= i,
        0 <= vl,
        0 <= n,
        0 <= row <= u16::MAX,
    ensures
        spec_sidebar_row(c, i, vl, n, row) matches SidebarRow::Item(section, index) ==> (match section {
            SidebarSection::Services => index < c,
            SidebarSection::Images => index < i,
            SidebarSection::Volumes => index < vl,
            SidebarSection::Networks => index < n,
        }),
{
}

/// Clamping always leaves the selection in range.
proof fn lemma_clamp_gives_range(x: AppView)
    ensures
        selection_in_range(x.clamp_selected_index()),
{
}

/// A left click on a sidebar row keeps the selection in range.
proof fn lemma_sidebar_click_in_range(v: AppView, row: int)
    requires
        selection_in_range(v),
        0 <= row <= u16::MAX,
    ensures
        selection_in_range(
            {
                let v1 = AppView { focus: crate::app::Focus::Sidebar, ..v };
                match spec_sidebar_row(
                    v.containers.len() as int,
                    v.images.len() as int,
                    v.volumes.len() as int,
                    v.networks.len() as int,
                    row,
                ) {
                    SidebarRow::Header => v1,
                    SidebarRow::Item(section, index) => if section == SidebarSection::Services {
                        AppView { sidebar_section: section, selected_index: index, log_scroll_offset: 0, ..v1 }
                    } else {
                        AppView { sidebar_section: section, selected_index: index, ..v1 }
                    },
                    SidebarRow::Blank => v1.clamp_selected_index(),
                }
            },
        ),
{
    let v1 = AppView { focus: crate::app::Focus::Sidebar, ..v };
    lemma_sidebar_row_in_list(
        v.containers.len() as int,
        v.images.len() as int,
        v.volumes.len() as int,
        v.networks.len() as int,
        row,
    );
    lemma_clamp_gives_range(v1);
}

/// Every mouse event keeps the selection on an item of the list it is in:
/// clicks on items and headers, and scrolling, in the sidebar or the main
/// panel.
#[verifier::spinoff_prover]
#[verifier::rlimit(60)]
pub proof fn law_mouse_keeps_selection_in_range(v: AppView, m: MouseEvent, height: u16)
    requires
        selection_in_range(v),
    ensures
        selection_in_range(mouse_step(v, m, height)),
{
    let sw = crate::layout::spec_sidebar_width(v.screen_mode, v.sidebar_width);
    let in_sidebar = sw > 0 && m.column < sw;
    match m.kind {
        MouseEventKind::Down(MouseButton::Left) => {
            if in_sidebar && m.row > 0 && m.row < height - 1 {
                lemma_sidebar_click_in_range(v, m.row - 1);
            } else if !in_sidebar {
                let v1 = AppView { focus: crate::app::Focus::MainPanel, ..v };
                if m.row <= 1 && v.sidebar_section == SidebarSection::Services {
                    lemma_clamp_gives_range(
                        AppView { active_tab: crate::app::mouse::spec_tab_at(m.column - sw - 1), ..v1 },
                    );
                } else {
                    lemma_clamp_gives_range(v1);
                }
            } else {
                lemma_clamp_gives_range(v);
            }
        },
        MouseEventKind::ScrollDown => {
            if in_sidebar {
                lemma_clamp_gives_range(v.next_item());
            } else {
                lemma_clamp_gives_range(
                    AppView {
                        log_scroll_offset: (if v.log_scroll_offset > 3 { v.log_scroll_offset - 3 } else { 0 }) as u16,
                        ..v
                    },
                );
            }
        },
        MouseEventKind::ScrollUp => {
            if in_sidebar {
                lemma_clamp_gives_range(v.prev_item());
            } else {
                lemma_clamp_gives_range(
                    AppView {
                        log_scroll_offset: (if v.log_scroll_offset + 3 > u16::MAX { u16::MAX as int } else {
                            v.log_scroll_offset + 3
                        }) as u16,
                        ..v
                    },
                );
            }
        },
        _ => {
            lemma_clamp_gives_range(v);
        },
    }
}

proof fn lemma_is_target_last(tv: Seq<(Seq<char>, Seq<char>)>, x: Seq<char>)
    requires
        tv.len() > 0,
    ensures
        is_log_target(tv, x) <==> (is_log_target(tv.drop_last(), x) || tv.last().0 == x),
{
    let init = tv.drop_last();
    if is_log_target(tv, x) {
        let k = choose|k: int| 0 <= k < tv.len() && #[trigger] tv[k].0 == x;
        if k < tv.len() - 1 {
            assert(init[k] == tv[k]);
        }
    }
    if is_log_target(init, x) {
        let k = choose|k: int| 0 <= k < init.len() && #[trigger] init[k].0 == x;
        assert(tv[k] == init[k]);
    }
    if tv.last().0 == x {
        assert(tv[tv.len() - 1].0 == x);
    }
}

/// After a log sync the live tasks are exactly one per target: where the
/// kept tasks are all of targets, every target id has a kept task or a new
/// one, every new one is for a target, no id gets two new tasks, and no new
/// task duplicates a kept one.
pub proof fn law_sync_one_task_per_target(tv: Seq<(Seq<char>, Seq<char>)>, kept: Seq<Seq<char>>)
    requires
        forall|k: Seq<char>| kept.contains(k) ==> is_log_target(tv, k),
    ensures
        forall|x: Seq<char>|
            is_log_target(tv, x) <==> (kept.contains(x) || #[trigger] target_ids(spec_tasks_to_start(tv, kept)).contains(x)),
        target_ids(spec_tasks_to_start(tv, kept)).no_duplicates(),
        forall|x: Seq<char>| #[trigger] target_ids(spec_tasks_to_start(tv, kept)).contains(x) ==> !kept.contains(x),
{
    lemma_sync_prefix(tv, kept);
}

/// The new tasks are one per target id without a kept task.
proof fn lemma_sync_prefix(tv: Seq<(Seq<char>, Seq<char>)>, kept: Seq<Seq<char>>)
    ensures
        forall|x: Seq<char>|
            (is_log_target(tv, x) && !kept.contains(x)) <==> #[trigger] target_ids(spec_tasks_to_start(tv, kept)).contains(x),
        target_ids(spec_tasks_to_start(tv, kept)).no_duplicates(),
        forall|x: Seq<char>| #[trigger] target_ids(spec_tasks_to_start(tv, kept)).contains(x) ==> !kept.contains(x),
    decreases tv.len(),
{
    let st = spec_tasks_to_start(tv, kept);
    let ids = target_ids(st);
    if tv.len() == 0 {
        assert(ids =~= Seq::<Seq<char>>::empty());
    } else {
        let init = tv.drop_last();
        let y = tv.last();
        lemma_sync_prefix(init, kept);
        let prev = spec_tasks_to_start(init, kept);
        let pids = target_ids(prev);
        if kept.contains(y.0) || pids.contains(y.0) {
            assert(st == prev);
            assert forall|x: Seq<char>| (is_log_target(tv, x) && !kept.contains(x)) <==> #[trigger] ids.contains(x) by {
                lemma_is_target_last(tv, x);
            }
        } else {
            assert(st == prev.push(y));
            assert(ids =~= pids.push(y.0));
            assert forall|x: Seq<char>| (is_log_target(tv, x) && !kept.contains(x)) <==> #[trigger] ids.contains(x) by {
                lemma_is_target_last(tv, x);
                if ids.contains(x) && x != y.0 {
                    let k = choose|k: int| 0 <= k < ids.len() && ids[k] == x;
                    assert(pids[k] == x);
                }
                if pids.contains(x) {
                    let k = choose|k: int| 0 <= k < pids.len() && pids[k] == x;
                    assert(ids[k] == x);
                }
                if x == y.0 {
                    assert(ids[ids.len() - 1] == x);
                }
            }
            assert forall|i: int, j: int| 0 <= i < ids.len() && 0 <= j < ids.len() && i != j implies ids[i] != ids[j] by {
                if i < pids.len() && j < pids.len() {
                    assert(ids[i] == pids[i] && ids[j] == pids[j]);
                } else if i < pids.len() {
                    assert(ids[i] == pids[i]);
                    assert(pids.contains(pids[i]));
                } else if j < pids.len() {
                    assert(ids[j] == pids[j]);
                    assert(pids.contains(pids[j]));
                }
            }
            assert forall|x: Seq<char>| #[trigger] ids.contains(x) implies !kept.contains(x) by {
                if x != y.0 {
                    let k = choose|k: int| 0 <= k < ids.len() && ids[k] == x;
                    assert(pids[k] == x);
                    assert(pids.contains(x));
                }
            }
        }
    }
}

/// A TLS connection is made only with the complete certificate bundle: where
/// an address gives a TLS connection, its certificate directory was checked
/// and all of `ca.pem`, `cert.pem` and `key.pem` were found; where any is
/// missing, the address gives an error and never falls back to plain HTTP.
pub proof fn law_tls_needs_complete_bundle(
    host: Seq<char>,
    cert_path: Option<Seq<char>>,
    verify_tls: bool,
    ssh_key_path: Option<Seq<char>>,
    present: (bool, bool, bool),
)
    ensures
        spec_connection(host, cert_path, verify_tls, ssh_key_path, present) matches Ok(ConnView::Tls(h, p)) ==> {
            &&& spec_checked_dir(host, cert_path, verify_tls) == Some(p)
            &&& present == (true, true, true)
        },
        spec_checked_dir(host, cert_path, verify_tls) is Some && present != (true, true, true) ==> spec_connection(
            host,
            cert_path,
            verify_tls,
            ssh_key_path,
            present,
        ) is Err,
{
}

/// The number of CPUs of a stats sample: the online CPU count where the
/// daemon reports one, whatever the process count says; the process count
/// only where it does not; one where neither is reported.
pub proof fn law_stats_cpus_prefer_online_count(s: StatsCounters)
    ensures
        s.online_cpus matches Some(n) ==> spec_totals(s).cpus == n,
        s.online_cpus is None ==> (s.num_procs matches Some(m) ==> spec_totals(s).cpus == m),
        s.online_cpus is None && s.num_procs is None ==> spec_totals(s).cpus == 1,
{
}

/// With the custom-commands popup open, pressing digit `d` (from 1 to the
/// number of commands) runs the command listed as `d`, which is the one at
/// position `d - 1`, and closes the popup.
pub proof fn law_custom_command_digit_runs_listed_command(v: AppView, c: char, m: KeyModifiers)
    requires
        v.input_mode == InputMode::Normal,
        !v.show_help,
        !v.show_cleanup,
        !v.show_bulk,
        v.show_custom_commands,
        '1' <= c <= '9',
        (c as int) - ('0' as int) <= v.custom_commands.len(),
    ensures
        handle_key_spec(v, KeyEvent { code: KeyCode::Char(c), modifiers: m }).1 == AppAction::RunCustomCommand(
            ((c as int) - ('1' as int)) as usize,
        ),
        !handle_key_spec(v, KeyEvent { code: KeyCode::Char(c), modifiers: m }).0.show_custom_commands,
{
}

/// `k` slashes.
pub open spec fn slashes(k: nat) -> Seq<char> {
    Seq::new(k, |i: int| '/')
}

/// `s` as some leading slashes followed by what `trim_slashes` leaves, which
/// does not start with a slash.
proof fn lemma_trim_slashes_shape(s: Seq<char>) -> (k: nat)
    ensures
        k <= s.len(),
        s == slashes(k) + crate::app::lists::trim_slashes(s),
        crate::app::lists::trim_slashes(s).len() == 0 || crate::app::lists::trim_slashes(s)[0] != '/',
    decreases s.len(),
{
    if s.len() > 0 && s[0] == '/' {
        let k = lemma_trim_slashes_shape(s.drop_first());
        let t = crate::app::lists::trim_slashes(s.drop_first());
        assert(s =~= slashes(k + 1) + t) by {
            assert forall|i: int| 0 <= i < s.len() implies s[i] == (slashes(k + 1) + t)[i] by {
                if i > 0 {
                    assert(s[i] == s.drop_first()[i - 1]);
                    assert(s.drop_first()[i - 1] == (slashes(k) + t)[i - 1]);
                }
            }
        }
        k + 1
    } else {
        assert(s =~= slashes(0) + s);
        0
    }
}

/// The name a container's log lines are shown under: for a container with
/// a name, its first name with its leading slashes removed (the first name
/// is some slashes followed by the stream name, which starts with no slash);
/// for one without, the first twelve characters of its id.
pub proof fn law_stream_name_is_first_name(c: ContainerSummary, id: Seq<char>)
    ensures
        c.names is Some && c.names.unwrap()@.len() > 0 ==> {
            let first = c.names.unwrap()@[0]@;
            let name = spec_stream_name(c, id);
            &&& exists|k: nat| k <= first.len() && first == #[trigger] slashes(k) + name
            &&& name.len() == 0 || name[0] != '/'
        },
        (c.names is None || c.names.unwrap()@.len() == 0) ==> spec_stream_name(c, id) == id.subrange(
            0,
            if id.len() < 12 { id.len() as int } else { 12 },
        ),
{
    if c.names is Some && c.names.unwrap()@.len() > 0 {
        let first = c.names.unwrap()@[0]@;
        let k = lemma_trim_slashes_shape(first);
        assert(spec_stream_name(c, id) == crate::app::lists::trim_slashes(first));
    }
}

/// A left click in the sidebar on the row of a container selects that
/// container: with the header on the sidebar's first row under its border
/// (terminal row 1), the container at position `i` is on terminal row `i + 2`.
pub proof fn law_sidebar_click_selects_container(v: AppView, m: MouseEvent, height: u16)
    requires
        m.kind == MouseEventKind::Down(MouseButton::Left),
        spec_sidebar_width(v.screen_mode, v.sidebar_width) > 0,
        m.column < spec_sidebar_width(v.screen_mode, v.sidebar_width),
        m.row < height - 1,
        1 <= m.row - 1 <= v.containers.len(),
    ensures
        mouse_step(v, m, height).sidebar_section == SidebarSection::Services,
        mouse_step(v, m, height).selected_index == m.row - 2,
{
}

/// A log line is shown as an error wherever its lower-cased text mentions
/// an error, `err]`, `fatal`, `panic` or `critical`.
pub proof fn law_error_words_give_error_level(line: Seq<char>)
    ensures
        contains_seq(unicode_lowercase(line), "fatal"@) ==> spec_log_level(line) == LogLevel::Error,
        contains_seq(unicode_lowercase(line), "error"@) ==> spec_log_level(line) == LogLevel::Error,
        contains_seq(unicode_lowercase(line), "err]"@) ==> spec_log_level(line) == LogLevel::Error,
        contains_seq(unicode_lowercase(line), "panic"@) ==> spec_log_level(line) == LogLevel::Error,
        contains_seq(unicode_lowercase(line), "critical"@) ==> spec_log_level(line) == LogLevel::Error,
{
}

} // verus!
