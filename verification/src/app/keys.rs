//! What each key does, by input mode and by open popup.
use vstd::prelude::*;
use vstd::string::*;
use crate::app::{
    opt_views, sat_sub, App, AppAction, AppView, Focus, InputMode, KeyCode, KeyEvent,
    KeyModifiers, PendingConfirm, ScreenMode, SidebarSection, Tab,
};
use crate::collections::views;
use crate::model::opt_view;
use crate::sorting::{sort_usizes, sorted_usizes};
use crate::strings::{pop_char, push_char, str_eq};

verus! {

/// Control together with `c`, which quits from every mode.
pub open spec fn is_ctrl_c(key: KeyEvent) -> bool {
    key.code == KeyCode::Char('c') && key.modifiers == KeyModifiers::CONTROL
}

/// `q` without its last character, if it has one.
pub open spec fn pop_last(q: Seq<char>) -> Seq<char> {
    if q.len() > 0 {
        q.drop_last()
    } else {
        q
    }
}

/// Keys while the log search query is being typed.
pub open spec fn search_step(v: AppView, key: KeyEvent) -> (AppView, AppAction) {
    if is_ctrl_c(key) {
        (v, AppAction::Quit)
    } else {
        match key.code {
            KeyCode::Esc => (AppView { input_mode: InputMode::Normal, log_search: None, ..v }, AppAction::Nothing),
            KeyCode::Enter => (AppView { input_mode: InputMode::Normal, ..v }, AppAction::Nothing),
            KeyCode::Backspace => (
                AppView {
                    log_search: match v.log_search {
                        Some(q) => Some(pop_last(q)),
                        None => None,
                    },
                    ..v
                },
                AppAction::Nothing,
            ),
            KeyCode::Char(c) => (
                AppView {
                    log_search: match v.log_search {
                        Some(q) => Some(q.push(c)),
                        None => None,
                    },
                    ..v
                },
                AppAction::Nothing,
            ),
            _ => (v, AppAction::Nothing),
        }
    }
}

/// Keys while the sidebar filter is being typed; erasing its last character
/// leaves filter mode.
pub open spec fn filter_step(v: AppView, key: KeyEvent) -> (AppView, AppAction) {
    if is_ctrl_c(key) {
        (v, AppAction::Quit)
    } else {
        match key.code {
            KeyCode::Esc => (AppView { input_mode: InputMode::Normal, sidebar_filter: None, ..v }, AppAction::Nothing),
            KeyCode::Enter => (AppView { input_mode: InputMode::Normal, ..v }, AppAction::Nothing),
            KeyCode::Backspace => (
                match v.sidebar_filter {
                    Some(q) => if pop_last(q).len() == 0 {
                        AppView { sidebar_filter: None, input_mode: InputMode::Normal, ..v }
                    } else {
                        AppView { sidebar_filter: Some(pop_last(q)), ..v }
                    },
                    None => v,
                },
                AppAction::Nothing,
            ),
            KeyCode::Char(c) => (
                AppView {
                    sidebar_filter: match v.sidebar_filter {
                        Some(q) => Some(q.push(c)),
                        None => None,
                    },
                    ..v
                },
                AppAction::Nothing,
            ),
            _ => (v, AppAction::Nothing),
        }
    }
}

/// Opens a confirmation with the given question for the given action.
pub open spec fn ask(v: AppView, message: Seq<char>, action: AppAction) -> AppView {
    AppView { pending_confirm: Some((message, action)), ..v }
}

/// Keys while the cleanup popup is open.
pub open spec fn cleanup_step(v: AppView, key: KeyEvent) -> AppView {
    match key.code {
        KeyCode::Esc => AppView { show_cleanup: false, ..v },
        KeyCode::Char(c) => if c == 'i' {
            ask(AppView { show_cleanup: false, ..v }, "Prune dangling images? (y/n)"@, AppAction::PruneImages)
        } else if c == 'v' {
            ask(AppView { show_cleanup: false, ..v }, "Prune unused volumes? (y/n)"@, AppAction::PruneVolumes)
        } else {
            v
        },
        _ => v,
    }
}

/// Keys while the bulk-actions popup is open.
pub open spec fn bulk_step(v: AppView, key: KeyEvent) -> AppView {
    let closed = AppView { show_bulk: false, ..v };
    match key.code {
        KeyCode::Esc => closed,
        KeyCode::Char(c) => if c == 's' {
            ask(closed, "Stop all containers? (y/n)"@, AppAction::StopAllContainers)
        } else if c == 'r' {
            ask(closed, "Remove stopped containers? (y/n)"@, AppAction::RemoveStoppedContainers)
        } else if c == 'c' {
            ask(closed, "Prune containers? (y/n)"@, AppAction::PruneContainers)
        } else if c == 'i' {
            ask(closed, "Prune dangling images? (y/n)"@, AppAction::PruneImages)
        } else if c == 'v' {
            ask(closed, "Prune unused volumes? (y/n)"@, AppAction::PruneVolumes)
        } else if c == 'n' {
            ask(closed, "Prune networks? (y/n)"@, AppAction::PruneNetworks)
        } else {
            v
        },
        _ => v,
    }
}

/// An ASCII decimal digit.
pub open spec fn is_digit(c: char) -> bool {
    '0' <= c && c <= '9'
}

/// The value of a decimal digit character.
pub open spec fn digit_value(c: char) -> int {
    (c as int) - 48
}

/// Keys while the custom-commands popup is open: a digit from 1 to the
/// number of commands runs that command.
pub open spec fn custom_step(v: AppView, key: KeyEvent) -> (AppView, AppAction) {
    match key.code {
        KeyCode::Esc => (AppView { show_custom_commands: false, ..v }, AppAction::Nothing),
        KeyCode::Char(c) => if is_digit(c) && 0 < digit_value(c) && digit_value(c)
            <= v.custom_commands.len() {
            (
                AppView { show_custom_commands: false, ..v },
                AppAction::RunCustomCommand((digit_value(c) - 1) as usize),
            )
        } else {
            (v, AppAction::Nothing)
        },
        _ => (v, AppAction::Nothing),
    }
}

/// Keys while a confirmation is pending: `y` or Enter releases its action,
/// `n` or Esc drops it, any other key keeps it open.
pub open spec fn confirm_step(v: AppView, key: KeyEvent) -> (AppView, AppAction) {
    let action = match v.pending_confirm {
        Some(p) => p.1,
        None => AppAction::Nothing,
    };
    if key.code == KeyCode::Char('y') || key.code == KeyCode::Enter {
        (AppView { pending_confirm: None, ..v }, action)
    } else if key.code == KeyCode::Char('n') || key.code == KeyCode::Esc {
        (AppView { pending_confirm: None, ..v }, AppAction::Nothing)
    } else {
        (v, AppAction::Nothing)
    }
}

/// The position of the first `x` in `s`.
pub open spec fn first_pos(s: Seq<usize>, x: usize) -> int {
    choose|i: int| 0 <= i < s.len() && s[i] == x && forall|j: int| 0 <= j < i ==> s[j] != x
}

/// The first element of `s` greater than `x`.
pub open spec fn first_greater(s: Seq<usize>, x: int) -> Option<usize>
    decreases s.len(),
{
    if s.len() == 0 {
        None
    } else if s[0] > x {
        Some(s[0])
    } else {
        first_greater(s.drop_first(), x)
    }
}

/// The last element of `s` smaller than `x`.
pub open spec fn last_less(s: Seq<usize>, x: int) -> Option<usize>
    decreases s.len(),
{
    if s.len() == 0 {
        None
    } else if s.last() < x {
        Some(s.last())
    } else {
        last_less(s.drop_last(), x)
    }
}

/// Number of log lines kept for the selected container.
pub open spec fn selected_log_len(v: AppView) -> int {
    match v.selected_id() {
        Some(id) => if v.logs.contains_key(id) {
            v.logs[id].len() as int
        } else {
            0
        },
        None => 0,
    }
}

/// The log line the view is scrolled to: the last one when following the tail.
pub open spec fn current_line(v: AppView, log_len: int) -> int {
    if v.log_scroll_offset == 0 {
        sat_sub(log_len, 1)
    } else {
        sat_sub(log_len, v.log_scroll_offset + 1)
    }
}

/// The scroll offset that brings line `b` to the bottom of the view.
pub open spec fn offset_for(log_len: int, b: usize) -> u16 {
    sat_sub(log_len, b + 1) as u16
}

/// Bookmarks with `line` added, or taken away where it already was; added
/// bookmarks keep the list ascending.
pub open spec fn toggle_bookmark(bm: Seq<usize>, line: usize) -> Seq<usize> {
    if bm.contains(line) {
        bm.remove(first_pos(bm, line))
    } else {
        sorted_usizes(bm.push(line))
    }
}

/// `s` with `x` added if absent, removed if present.
pub open spec fn toggle(s: Set<Seq<char>>, x: Seq<char>) -> Set<Seq<char>> {
    if s.contains(x) {
        s.remove(x)
    } else {
        s.insert(x)
    }
}

/// `m`: bookmark the current log line, or drop the bookmark that is there.
pub open spec fn bookmark_step(v: AppView) -> AppView {
    if v.active_tab == Tab::Logs && v.selected_id() is Some && selected_log_len(v) > 0 {
        AppView {
            log_bookmarks: toggle_bookmark(
                v.log_bookmarks,
                current_line(v, selected_log_len(v)) as usize,
            ),
            ..v
        }
    } else {
        v
    }
}

/// `n`: scroll to the next bookmark below the current line, wrapping to the first.
pub open spec fn next_bookmark_step(v: AppView) -> AppView {
    if v.active_tab == Tab::Logs && v.log_bookmarks.len() > 0 && v.selected_id() is Some {
        let len = selected_log_len(v);
        let target = match first_greater(v.log_bookmarks, current_line(v, len)) {
            Some(b) => b,
            None => v.log_bookmarks[0],
        };
        AppView { log_scroll_offset: offset_for(len, target), ..v }
    } else {
        v
    }
}

/// `N`: scroll to the previous bookmark above the current line, wrapping to the last.
pub open spec fn prev_bookmark_step(v: AppView) -> AppView {
    if v.active_tab == Tab::Logs && v.log_bookmarks.len() > 0 && v.selected_id() is Some {
        let len = selected_log_len(v);
        let target = match last_less(v.log_bookmarks, current_line(v, len)) {
            Some(b) => b,
            None => v.log_bookmarks.last(),
        };
        AppView { log_scroll_offset: offset_for(len, target), ..v }
    } else {
        v
    }
}

/// `T`: take a snapshot of the selected log, then show what is new since it,
/// then leave the comparison.
pub open spec fn snapshot_step(v: AppView) -> AppView {
    if v.active_tab != Tab::Logs {
        v
    } else if v.show_log_diff {
        AppView { show_log_diff: false, log_snapshot: None, ..v }
    } else if v.log_snapshot is Some {
        AppView { show_log_diff: true, ..v }
    } else {
        match v.selected_id() {
            Some(id) => AppView {
                log_snapshot: if v.logs.contains_key(id) {
                    Some(v.logs[id])
                } else {
                    None
                },
                ..v
            },
            None => v,
        }
    }
}

/// `p`: pause a running container, unpause a paused one.
pub open spec fn pause_action(v: AppView) -> AppAction {
    match v.selected_container() {
        Some(c) => match opt_view(c.state) {
            Some(s) => if s == "paused"@ {
                AppAction::UnpauseContainer
            } else if s == "running"@ {
                AppAction::PauseContainer
            } else {
                AppAction::Nothing
            },
            None => AppAction::Nothing,
        },
        None => AppAction::Nothing,
    }
}

/// The screen mode after `+`: normal, half, fullscreen, round again.
pub open spec fn grow_mode(m: ScreenMode) -> ScreenMode {
    match m {
        ScreenMode::Normal => ScreenMode::Half,
        ScreenMode::Half => ScreenMode::Fullscreen,
        ScreenMode::Fullscreen => ScreenMode::Normal,
    }
}

/// The screen mode after `_`: the other way round.
pub open spec fn shrink_mode(m: ScreenMode) -> ScreenMode {
    match m {
        ScreenMode::Normal => ScreenMode::Fullscreen,
        ScreenMode::Fullscreen => ScreenMode::Half,
        ScreenMode::Half => ScreenMode::Normal,
    }
}

/// Character keys in normal mode with no popup open.
pub open spec fn char_step(v: AppView, c: char) -> (AppView, AppAction) {
    let none = AppAction::Nothing;
    if c == 'j' {
        (v.next_item(), none)
    } else if c == 'k' {
        (v.prev_item(), none)
    } else if c == 'h' {
        (AppView { focus: Focus::Sidebar, ..v }, none)
    } else if c == 'l' {
        (AppView { focus: Focus::MainPanel, ..v }, none)
    } else if c == '1' {
        (AppView { active_tab: Tab::Logs, ..v }, none)
    } else if c == '2' {
        (AppView { active_tab: Tab::Stats, ..v }, none)
    } else if c == '3' {
        (AppView { active_tab: Tab::Info, ..v }, none)
    } else if c == '4' {
        (AppView { active_tab: Tab::Env, ..v }, none)
    } else if c == '5' {
        (AppView { active_tab: Tab::Top, ..v }, none)
    } else if c == '6' {
        (AppView { active_tab: Tab::Graph, ..v }, none)
    } else if c == 'r' {
        (v, AppAction::RestartContainer)
    } else if c == 's' {
        (v, AppAction::StopContainer)
    } else if c == 'u' {
        (v, AppAction::StartContainer)
    } else if c == 'd' {
        if v.sidebar_section == SidebarSection::Images {
            (ask(v, "Remove this image? (y/n)"@, AppAction::RemoveImage), none)
        } else {
            (ask(v, "Remove this container? (y/n)"@, AppAction::RemoveContainer), none)
        }
    } else if c == 'p' {
        (v, pause_action(v))
    } else if c == 'w' {
        (v, AppAction::OpenInBrowser)
    } else if c == 'e' {
        (v, AppAction::ExecShell)
    } else if c == 'a' {
        (v, AppAction::AttachContainer)
    } else if c == 'U' {
        (v, AppAction::ComposeUp)
    } else if c == 'D' {
        (ask(v, "Docker compose down? (y/n)"@, AppAction::ComposeDown), none)
    } else if c == 'R' {
        (v, AppAction::ComposeRestart)
    } else if c == 'P' {
        if v.sidebar_section == SidebarSection::Images {
            (v, AppAction::PullImage)
        } else {
            (v, AppAction::ComposePull)
        }
    } else if c == 'B' {
        (v, AppAction::ComposeRebuild)
    } else if c == 'W' {
        (v, AppAction::ComposeWatchToggle)
    } else if c == 'L' {
        (
            AppView {
                show_all_logs: !v.show_all_logs,
                active_tab: if !v.show_all_logs { Tab::Logs } else { v.active_tab },
                ..v
            },
            none,
        )
    } else if c == 'S' {
        (v, AppAction::ExportLogs)
    } else if c == '+' {
        (AppView { screen_mode: grow_mode(v.screen_mode), ..v }, none)
    } else if c == '_' {
        (AppView { screen_mode: shrink_mode(v.screen_mode), ..v }, none)
    } else if c == 'x' {
        (AppView { show_cleanup: !v.show_cleanup, ..v }, none)
    } else if c == ' ' {
        if v.sidebar_section == SidebarSection::Services {
            let toggled = match v.selected_id() {
                Some(id) => AppView {
                    selected_containers: toggle(v.selected_containers, id),
                    ..v
                },
                None => v,
            };
            (toggled.next_item(), none)
        } else {
            (v, none)
        }
    } else if c == '*' {
        match v.selected_id() {
            Some(id) => if v.sidebar_section == SidebarSection::Services {
                (AppView { pinned_containers: toggle(v.pinned_containers, id), ..v }, none)
            } else {
                (v, none)
            },
            None => (v, none),
        }
    } else if c == 'c' {
        if v.custom_commands.len() > 0 {
            (AppView { show_custom_commands: !v.show_custom_commands, ..v }, none)
        } else {
            (v, none)
        }
    } else if c == 'b' {
        (AppView { show_bulk: !v.show_bulk, ..v }, none)
    } else if c == '/' {
        if v.focus == Focus::Sidebar {
            (AppView { sidebar_filter: Some(Seq::empty()), input_mode: InputMode::Filter, ..v }, none)
        } else {
            (AppView { log_search: Some(Seq::empty()), input_mode: InputMode::Search, ..v }, none)
        }
    } else if c == 'm' {
        (bookmark_step(v), none)
    } else if c == 'n' {
        (next_bookmark_step(v), none)
    } else if c == 'T' {
        (snapshot_step(v), none)
    } else if c == 'C' {
        if v.sidebar_section == SidebarSection::Services {
            if v.compare_container_id is Some {
                (AppView { compare_container_id: None, ..v }, none)
            } else {
                (AppView { compare_container_id: v.selected_id(), ..v }, none)
            }
        } else {
            (v, none)
        }
    } else if c == 'N' {
        (prev_bookmark_step(v), none)
    } else {
        (v, none)
    }
}

/// Keys in normal mode with no popup open.
pub open spec fn main_step(v: AppView, key: KeyEvent) -> (AppView, AppAction) {
    match key.code {
        KeyCode::Down => (v.next_item(), AppAction::Nothing),
        KeyCode::Up => (v.prev_item(), AppAction::Nothing),
        KeyCode::Left => (AppView { focus: Focus::Sidebar, ..v }, AppAction::Nothing),
        KeyCode::Right => (AppView { focus: Focus::MainPanel, ..v }, AppAction::Nothing),
        KeyCode::Tab => (AppView { active_tab: v.active_tab.spec_next(), ..v }, AppAction::Nothing),
        KeyCode::Char(c) => char_step(v, c),
        _ => (v, AppAction::Nothing),
    }
}

/// The effect of one key on the interface state, and the action it asks for.
///
/// The search and filter prompts take every key but Ctrl+C; `q` and Ctrl+C
/// quit from everywhere else; `?` toggles help; an open popup (help, cleanup,
/// bulk actions, custom commands, in that order) or a pending confirmation
/// takes the key before the main bindings do.
pub open spec fn handle_key_spec(v: AppView, key: KeyEvent) -> (AppView, AppAction) {
    if v.input_mode == InputMode::Search {
        search_step(v, key)
    } else if v.input_mode == InputMode::Filter {
        filter_step(v, key)
    } else if key.code == KeyCode::Char('q') || is_ctrl_c(key) {
        (v, AppAction::Quit)
    } else if key.code == KeyCode::Char('?') {
        (AppView { show_help: !v.show_help, ..v }, AppAction::Nothing)
    } else if v.show_help {
        (if key.code == KeyCode::Esc { AppView { show_help: false, ..v } } else { v }, AppAction::Nothing)
    } else if v.show_cleanup {
        (cleanup_step(v, key), AppAction::Nothing)
    } else if v.show_bulk {
        (bulk_step(v, key), AppAction::Nothing)
    } else if v.show_custom_commands {
        custom_step(v, key)
    } else if v.pending_confirm is Some {
        confirm_step(v, key)
    } else {
        main_step(v, key)
    }
}

/// Where `x` first occurs in `s`, if it does.
fn position(s: &Vec<usize>, x: usize) -> (r: Option<usize>)
    ensures
        r matches Some(i) ==> i < s@.len() && s@.contains(x) && i as int == first_pos(s@, x),
        r is None ==> !s@.contains(x),
{
    let mut i: usize = 0;
    while i < s.len()
        invariant
            i <= s@.len(),
            forall|j: int| 0 <= j < i ==> s@[j] != x,
        decreases s@.len() - i,
    {
        if s[i] == x {
            proof {
                let k = first_pos(s@, x);
                assert(s@[i as int] == x);
                assert(exists|k: int| 0 <= k < s@.len() && s@[k] == x && forall|j: int| 0 <= j < k ==> s@[j] != x);
                if k < i {
                } else if k > i {
                }
                assert(k == i);
            }
            return Some(i);
        }
        i = i + 1;
    }
    None
}

proof fn lemma_first_greater_skip(s: Seq<usize>, x: int, i: int)
    requires
        0 <= i <= s.len(),
        forall|j: int| 0 <= j < i ==> s[j] <= x,
    ensures
        first_greater(s, x) == first_greater(s.skip(i), x),
    decreases i,
{
    if i > 0 {
        lemma_first_greater_skip(s, x, i - 1);
        assert(s.skip(i - 1).drop_first() =~= s.skip(i));
        assert(s.skip(i - 1)[0] == s[i - 1]);
        assert(first_greater(s.skip(i - 1), x) == first_greater(s.skip(i - 1).drop_first(), x));
    } else {
        assert(s.skip(0) =~= s);
    }
}

/// The first element of `s` greater than `x`.
fn find_first_greater(s: &Vec<usize>, x: usize) -> (r: Option<usize>)
    ensures
        r == first_greater(s@, x as int),
{
    let mut i: usize = 0;
    while i < s.len()
        invariant
            i <= s@.len(),
            forall|j: int| 0 <= j < i ==> s@[j] <= x,
        decreases s@.len() - i,
    {
        if s[i] > x {
            proof {
                lemma_first_greater_skip(s@, x as int, i as int);
            }
            return Some(s[i]);
        }
        i = i + 1;
    }
    proof {
        lemma_first_greater_skip(s@, x as int, i as int);
    }
    None
}

proof fn lemma_last_less_take(s: Seq<usize>, x: int, i: int)
    requires
        0 <= i <= s.len(),
        forall|j: int| i <= j < s.len() ==> s[j] >= x,
    ensures
        last_less(s, x) == last_less(s.take(i), x),
    decreases s.len() - i,
{
    if i < s.len() {
        lemma_last_less_take(s, x, i + 1);
        assert(s.take(i + 1).drop_last() =~= s.take(i));
    } else {
        assert(s.take(i) =~= s);
    }
}

/// The last element of `s` smaller than `x`.
fn find_last_less(s: &Vec<usize>, x: usize) -> (r: Option<usize>)
    ensures
        r == last_less(s@, x as int),
{
    let mut i: usize = s.len();
    while i > 0
        invariant
            i <= s@.len(),
            forall|j: int| i <= j < s@.len() ==> s@[j] >= x,
        decreases i,
    {
        if s[i - 1] < x {
            proof {
                lemma_last_less_take(s@, x as int, i as int);
            }
            return Some(s[i - 1]);
        }
        i = i - 1;
    }
    proof {
        lemma_last_less_take(s@, x as int, 0);
    }
    None
}

/// `a - b`, or 0 where `b` is larger.
fn sub_or_zero(a: usize, b: usize) -> (r: usize)
    ensures
        r == sat_sub(a as int, b as int),
{
    if a > b {
        a - b
    } else {
        0
    }
}

/// A copy of a list of strings.
fn clone_lines(v: &Vec<String>) -> (r: Vec<String>)
    ensures
        views(r@) == views(v@),
{
    let c = v.clone();
    assert forall|i: int| 0 <= i < v@.len() implies c@[i] == v@[i] by {
        assert(cloned::<String>(v[i], c[i]));
    }
    assert(c@ =~= v@);
    c
}

impl App {
    #[verifier::rlimit(40)]
    fn search_key(&mut self, key: KeyEvent) -> (r: AppAction)
        ensures
            (final(self)@, r) == search_step(old(self)@, key),
    {
        if key.code == KeyCode::Char('c') && key.modifiers.contains(KeyModifiers::CONTROL) {
            return AppAction::Quit;
        }
        match key.code {
            KeyCode::Esc => {
                self.input_mode = InputMode::Normal;
                self.log_search = None;
            },
            KeyCode::Enter => {
                self.input_mode = InputMode::Normal;
            },
            KeyCode::Backspace => {
                match self.log_search.take() {
                    Some(mut q) => {
                        pop_char(&mut q);
                        self.log_search = Some(q);
                    },
                    None => {},
                }
            },
            KeyCode::Char(c) => {
                match self.log_search.take() {
                    Some(mut q) => {
                        push_char(&mut q, c);
                        self.log_search = Some(q);
                    },
                    None => {},
                }
            },
            _ => {},
        }
        AppAction::Nothing
    }

    fn filter_backspace(&mut self)
        ensures
            final(self)@ == filter_step(old(self)@, KeyEvent { code: KeyCode::Backspace, modifiers: KeyModifiers::NONE }).0,
    {
        match self.sidebar_filter.take() {
            Some(mut q) => {
                pop_char(&mut q);
                if q.as_str().is_empty() {
                    self.sidebar_filter = None;
                    self.input_mode = InputMode::Normal;
                } else {
                    self.sidebar_filter = Some(q);
                }
            },
            None => {},
        }
    }

    #[verifier::rlimit(40)]
    fn filter_key(&mut self, key: KeyEvent) -> (r: AppAction)
        ensures
            (final(self)@, r) == filter_step(old(self)@, key),
    {
        if key.code == KeyCode::Char('c') && key.modifiers.contains(KeyModifiers::CONTROL) {
            return AppAction::Quit;
        }
        match key.code {
            KeyCode::Esc => {
                self.input_mode = InputMode::Normal;
                self.sidebar_filter = None;
            },
            KeyCode::Enter => {
                self.input_mode = InputMode::Normal;
            },
            KeyCode::Backspace => {
                self.filter_backspace();
            },
            KeyCode::Char(c) => {
                match self.sidebar_filter.take() {
                    Some(mut q) => {
                        push_char(&mut q, c);
                        self.sidebar_filter = Some(q);
                    },
                    None => {},
                }
            },
            _ => {},
        }
        AppAction::Nothing
    }

    fn ask(&mut self, message: &str, action: AppAction)
        ensures
            final(self)@ == ask(old(self)@, message@, action),
    {
        self.pending_confirm = Some(PendingConfirm { message: message.to_owned(), action });
    }

    fn cleanup_key(&mut self, key: KeyEvent)
        ensures
            final(self)@ == cleanup_step(old(self)@, key),
    {
        match key.code {
            KeyCode::Esc => self.show_cleanup = false,
            KeyCode::Char(c) => {
                if c == 'i' {
                    self.show_cleanup = false;
                    self.ask("Prune dangling images? (y/n)", AppAction::PruneImages);
                } else if c == 'v' {
                    self.show_cleanup = false;
                    self.ask("Prune unused volumes? (y/n)", AppAction::PruneVolumes);
                }
            },
            _ => {},
        }
    }

    #[verifier::rlimit(40)]
    fn bulk_key(&mut self, key: KeyEvent)
        ensures
            final(self)@ == bulk_step(old(self)@, key),
    {
        match key.code {
            KeyCode::Esc => self.show_bulk = false,
            KeyCode::Char(c) => {
                if c == 's' {
                    self.show_bulk = false;
                    self.ask("Stop all containers? (y/n)", AppAction::StopAllContainers);
                } else if c == 'r' {
                    self.show_bulk = false;
                    self.ask("Remove stopped containers? (y/n)", AppAction::RemoveStoppedContainers);
                } else if c == 'c' {
                    self.show_bulk = false;
                    self.ask("Prune containers? (y/n)", AppAction::PruneContainers);
                } else if c == 'i' {
                    self.show_bulk = false;
                    self.ask("Prune dangling images? (y/n)", AppAction::PruneImages);
                } else if c == 'v' {
                    self.show_bulk = false;
                    self.ask("Prune unused volumes? (y/n)", AppAction::PruneVolumes);
                } else if c == 'n' {
                    self.show_bulk = false;
                    self.ask("Prune networks? (y/n)", AppAction::PruneNetworks);
                }
            },
            _ => {},
        }
    }

    fn custom_key(&mut self, key: KeyEvent) -> (r: AppAction)
        ensures
            (final(self)@, r) == custom_step(old(self)@, key),
    {
        match key.code {
            KeyCode::Esc => {
                self.show_custom_commands = false;
            },
            KeyCode::Char(c) => {
                if '0' <= c && c <= '9' {
                    let idx: usize = (c as u32 - 48) as usize;
                    if idx > 0 && idx <= self.custom_commands.len() {
                        self.show_custom_commands = false;
                        return AppAction::RunCustomCommand(idx - 1);
                    }
                }
            },
            _ => {},
        }
        AppAction::Nothing
    }

    fn confirm_key(&mut self, key: KeyEvent) -> (r: AppAction)
        requires
            old(self).pending_confirm is Some,
        ensures
            (final(self)@, r) == confirm_step(old(self)@, key),
    {
        let action = match &self.pending_confirm {
            Some(p) => p.action,
            None => AppAction::Nothing,
        };
        if key.code == KeyCode::Char('y') || key.code == KeyCode::Enter {
            self.pending_confirm = None;
            action
        } else if key.code == KeyCode::Char('n') || key.code == KeyCode::Esc {
            self.pending_confirm = None;
            AppAction::Nothing
        } else {
            AppAction::Nothing
        }
    }

    /// Number of log lines kept for the selected container.
    fn selected_log_len(&self) -> (r: usize)
        ensures
            r == selected_log_len(self@),
    {
        match self.selected_container_id() {
            Some(id) => match self.logs.get(id) {
                Some(lines) => {
                    assert(views(lines@).len() == lines@.len());
                    lines.len()
                },
                None => 0,
            },
            None => 0,
        }
    }

    fn current_line(&self, log_len: usize) -> (r: usize)
        ensures
            r == current_line(self@, log_len as int),
    {
        if self.log_scroll_offset == 0 {
            sub_or_zero(log_len, 1)
        } else {
            sub_or_zero(log_len, self.log_scroll_offset as usize + 1)
        }
    }

    fn bookmark_key(&mut self)
        ensures
            final(self)@ == bookmark_step(old(self)@),
    {
        if self.active_tab == Tab::Logs && self.selected_container_id().is_some() {
            let log_len = self.selected_log_len();
            if log_len > 0 {
                let line_idx = self.current_line(log_len);
                match position(&self.log_bookmarks, line_idx) {
                    Some(pos) => {
                        self.log_bookmarks.remove(pos);
                    },
                    None => {
                        self.log_bookmarks.push(line_idx);
                        sort_usizes(&mut self.log_bookmarks);
                    },
                }
            }
        }
    }

    /// The scroll offset that brings line `b` to the bottom of the view.
    fn offset_for(log_len: usize, b: usize) -> (r: u16)
        ensures
            r == offset_for(log_len as int, b),
    {
        let d: usize = if b < log_len { log_len - b - 1 } else { 0 };
        d as u16
    }

    fn next_bookmark_key(&mut self)
        ensures
            final(self)@ == next_bookmark_step(old(self)@),
    {
        if self.active_tab == Tab::Logs && self.log_bookmarks.len() > 0
            && self.selected_container_id().is_some() {
            let log_len = self.selected_log_len();
            let current = self.current_line(log_len);
            let target = match find_first_greater(&self.log_bookmarks, current) {
                Some(b) => b,
                None => self.log_bookmarks[0],
            };
            self.log_scroll_offset = App::offset_for(log_len, target);
        }
    }

    fn prev_bookmark_key(&mut self)
        ensures
            final(self)@ == prev_bookmark_step(old(self)@),
    {
        if self.active_tab == Tab::Logs && self.log_bookmarks.len() > 0
            && self.selected_container_id().is_some() {
            let log_len = self.selected_log_len();
            let current = self.current_line(log_len);
            let target = match find_last_less(&self.log_bookmarks, current) {
                Some(b) => b,
                None => self.log_bookmarks[self.log_bookmarks.len() - 1],
            };
            self.log_scroll_offset = App::offset_for(log_len, target);
        }
    }

    fn snapshot_key(&mut self)
        ensures
            final(self)@ == snapshot_step(old(self)@),
    {
        if self.active_tab == Tab::Logs {
            if self.show_log_diff {
                self.show_log_diff = false;
                self.log_snapshot = None;
            } else if self.log_snapshot.is_some() {
                self.show_log_diff = true;
            } else {
                let snap = match self.selected_container_id() {
                    Some(id) => Some(
                        match self.logs.get(id) {
                            Some(lines) => Some(clone_lines(lines)),
                            None => None,
                        },
                    ),
                    None => None,
                };
                match snap {
                    Some(s) => {
                        self.log_snapshot = s;
                    },
                    None => {},
                }
            }
        }
    }

    fn pause_action(&self) -> (r: AppAction)
        ensures
            r == pause_action(self@),
    {
        match self.selected_container() {
            Some(c) => match &c.state {
                Some(s) => if str_eq(s.as_str(), "paused") {
                    AppAction::UnpauseContainer
                } else if str_eq(s.as_str(), "running") {
                    AppAction::PauseContainer
                } else {
                    AppAction::Nothing
                },
                None => AppAction::Nothing,
            },
            None => AppAction::Nothing,
        }
    }

    fn toggle_selected_key(&mut self)
        ensures
            final(self)@ == char_step(old(self)@, ' ').0,
    {
        if self.sidebar_section == SidebarSection::Services {
            let id = match self.selected_container_id() {
                Some(id) => Some(id.to_owned()),
                None => None,
            };
            match id {
                Some(id) => {
                    if self.selected_containers.contains(id.as_str()) {
                        self.selected_containers.remove(id.as_str());
                    } else {
                        self.selected_containers.insert(id);
                    }
                },
                None => {},
            }
            self.next_item();
        }
    }

    fn toggle_pin_key(&mut self)
        ensures
            final(self)@ == char_step(old(self)@, '*').0,
    {
        if self.sidebar_section == SidebarSection::Services {
            let id = match self.selected_container_id() {
                Some(id) => Some(id.to_owned()),
                None => None,
            };
            match id {
                Some(id) => {
                    if self.pinned_containers.contains(id.as_str()) {
                        self.pinned_containers.remove(id.as_str());
                    } else {
                        self.pinned_containers.insert(id);
                    }
                },
                None => {},
            }
        }
    }

    fn compare_key(&mut self)
        ensures
            final(self)@ == char_step(old(self)@, 'C').0,
    {
        if self.sidebar_section == SidebarSection::Services {
            if self.compare_container_id.is_some() {
                self.compare_container_id = None;
            } else {
                self.compare_container_id = match self.selected_container_id() {
                    Some(id) => Some(id.to_owned()),
                    None => None,
                };
            }
        }
    }

    fn prompt_key(&mut self)
        ensures
            final(self)@ == char_step(old(self)@, '/').0,
    {
        if self.focus == Focus::Sidebar {
            self.sidebar_filter = Some(String::new());
            self.input_mode = InputMode::Filter;
        } else {
            self.log_search = Some(String::new());
            self.input_mode = InputMode::Search;
        }
    }

    fn all_logs_key(&mut self)
        ensures
            final(self)@ == char_step(old(self)@, 'L').0,
    {
        self.show_all_logs = !self.show_all_logs;
        if self.show_all_logs {
            self.active_tab = Tab::Logs;
        }
    }

    fn screen_key(&mut self, grow: bool)
        ensures
            final(self)@ == char_step(old(self)@, if grow { '+' } else { '_' }).0,
    {
        self.screen_mode = if grow {
            match self.screen_mode {
                ScreenMode::Normal => ScreenMode::Half,
                ScreenMode::Half => ScreenMode::Fullscreen,
                ScreenMode::Fullscreen => ScreenMode::Normal,
            }
        } else {
            match self.screen_mode {
                ScreenMode::Normal => ScreenMode::Fullscreen,
                ScreenMode::Fullscreen => ScreenMode::Half,
                ScreenMode::Half => ScreenMode::Normal,
            }
        };
    }

    fn tab_key(&mut self, c: char) -> (handled: bool)
        ensures
            handled == ('1' <= c && c <= '6'),
            handled ==> final(self)@ == char_step(old(self)@, c).0,
            !handled ==> final(self)@ == old(self)@,
    {
        if c == '1' {
            self.active_tab = Tab::Logs;
        } else if c == '2' {
            self.active_tab = Tab::Stats;
        } else if c == '3' {
            self.active_tab = Tab::Info;
        } else if c == '4' {
            self.active_tab = Tab::Env;
        } else if c == '5' {
            self.active_tab = Tab::Top;
        } else if c == '6' {
            self.active_tab = Tab::Graph;
        } else {
            return false;
        }
        true
    }

    #[verifier::rlimit(80)]
    fn char_key(&mut self, c: char) -> (r: AppAction)
        ensures
            (final(self)@, r) == char_step(old(self)@, c),
    {
        if c == 'j' {
            self.next_item();
        } else if c == 'k' {
            self.prev_item();
        } else if c == 'h' {
            self.focus = Focus::Sidebar;
        } else if c == 'l' {
            self.focus = Focus::MainPanel;
        } else if self.tab_key(c) {
        } else if c == 'r' {
            return AppAction::RestartContainer;
        } else if c == 's' {
            return AppAction::StopContainer;
        } else if c == 'u' {
            return AppAction::StartContainer;
        } else if c == 'd' {
            if self.sidebar_section == SidebarSection::Images {
                self.ask("Remove this image? (y/n)", AppAction::RemoveImage);
            } else {
                self.ask("Remove this container? (y/n)", AppAction::RemoveContainer);
            }
        } else if c == 'p' {
            return self.pause_action();
        } else if c == 'w' {
            return AppAction::OpenInBrowser;
        } else if c == 'e' {
            return AppAction::ExecShell;
        } else if c == 'a' {
            return AppAction::AttachContainer;
        } else if c == 'U' {
            return AppAction::ComposeUp;
        } else if c == 'D' {
            self.ask("Docker compose down? (y/n)", AppAction::ComposeDown);
        } else if c == 'R' {
            return AppAction::ComposeRestart;
        } else if c == 'P' {
            if self.sidebar_section == SidebarSection::Images {
                return AppAction::PullImage;
            }
            return AppAction::ComposePull;
        } else if c == 'B' {
            return AppAction::ComposeRebuild;
        } else if c == 'W' {
            return AppAction::ComposeWatchToggle;
        } else if c == 'L' {
            self.all_logs_key();
        } else if c == 'S' {
            return AppAction::ExportLogs;
        } else if c == '+' {
            self.screen_key(true);
        } else if c == '_' {
            self.screen_key(false);
        } else if c == 'x' {
            self.show_cleanup = !self.show_cleanup;
        } else if c == ' ' {
            self.toggle_selected_key();
        } else if c == '*' {
            self.toggle_pin_key();
        } else if c == 'c' {
            if self.custom_commands.len() > 0 {
                self.show_custom_commands = !self.show_custom_commands;
            }
        } else if c == 'b' {
            self.show_bulk = !self.show_bulk;
        } else if c == '/' {
            self.prompt_key();
        } else if c == 'm' {
            self.bookmark_key();
        } else if c == 'n' {
            self.next_bookmark_key();
        } else if c == 'T' {
            self.snapshot_key();
        } else if c == 'C' {
            self.compare_key();
        } else if c == 'N' {
            self.prev_bookmark_key();
        }
        AppAction::Nothing
    }

    fn main_key(&mut self, key: KeyEvent) -> (r: AppAction)
        ensures
            (final(self)@, r) == main_step(old(self)@, key),
    {
        match key.code {
            KeyCode::Down => self.next_item(),
            KeyCode::Up => self.prev_item(),
            KeyCode::Left => self.focus = Focus::Sidebar,
            KeyCode::Right => self.focus = Focus::MainPanel,
            KeyCode::Tab => self.next_tab(),
            KeyCode::Char(c) => {
                return self.char_key(c);
            },
            _ => {},
        }
        AppAction::Nothing
    }

    /// Applies one key to the interface state and says what the program
    /// should do next.
    pub fn handle_key(&mut self, key: KeyEvent) -> (r: AppAction)
        ensures
            (final(self)@, r) == handle_key_spec(old(self)@, key),
    {
        if self.input_mode == InputMode::Search {
            return self.search_key(key);
        }
        if self.input_mode == InputMode::Filter {
            return self.filter_key(key);
        }
        if key.code == KeyCode::Char('q') {
            return AppAction::Quit;
        }
        if key.code == KeyCode::Char('c') && key.modifiers.contains(KeyModifiers::CONTROL) {
            return AppAction::Quit;
        }
        if key.code == KeyCode::Char('?') {
            self.show_help = !self.show_help;
            return AppAction::Nothing;
        }
        if self.show_help {
            if key.code == KeyCode::Esc {
                self.show_help = false;
            }
            return AppAction::Nothing;
        }
        if self.show_cleanup {
            self.cleanup_key(key);
            return AppAction::Nothing;
        }
        if self.show_bulk {
            self.bulk_key(key);
            return AppAction::Nothing;
        }
        if self.show_custom_commands {
            return self.custom_key(key);
        }
        if self.pending_confirm.is_some() {
            return self.confirm_key(key);
        }
        self.main_key(key)
    }
} 

} // verus!
