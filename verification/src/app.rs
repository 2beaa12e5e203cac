//! The interface state and the rules by which keys, mouse clicks and list
//! refreshes change it.
pub mod keys;
pub mod lists;
pub mod mouse;

use vstd::prelude::*;
use vstd::string::*;
use crate::clock;
use crate::collections::{views, StringSet, LogStore};
use crate::compose::ComposeProject;
use crate::config::{AppConfig, CustomCommand, Hook};
use crate::model::{opt_view, ContainerSummary, ImageSummary, Network, Volume};
use crate::theme::Theme;

verus! {

/// The panels of the main area, in the order in which `Tab` cycles through them.
#[derive(Debug, Clone, Copy, PartialEq, Eq, Structural)]
pub enum Tab {
    Logs,
    Stats,
    Info,
    Env,
    Top,
    Graph,
}

impl Tab {
    pub open spec fn spec_next(self) -> Tab {
        match self {
            Tab::Logs => Tab::Stats,
            Tab::Stats => Tab::Info,
            Tab::Info => Tab::Env,
            Tab::Env => Tab::Top,
            Tab::Top => Tab::Graph,
            Tab::Graph => Tab::Logs,
        }
    }

    pub open spec fn spec_label(self) -> &'static str {
        match self {
            Tab::Logs => "Logs",
            Tab::Stats => "Stats",
            Tab::Info => "Info",
            Tab::Env => "Env",
            Tab::Top => "Top",
            Tab::Graph => "Graph",
        }
    }

    /// Every tab, in display order.
    pub open spec fn spec_all() -> Seq<Tab> {
        seq![Tab::Logs, Tab::Stats, Tab::Info, Tab::Env, Tab::Top, Tab::Graph]
    }

    /// The tab after this one; the last wraps round to the first.
    pub fn next(&self) -> (r: Tab)
        ensures
            r == self.spec_next(),
    {
        match self {
            Tab::Logs => Tab::Stats,
            Tab::Stats => Tab::Info,
            Tab::Info => Tab::Env,
            Tab::Env => Tab::Top,
            Tab::Top => Tab::Graph,
            Tab::Graph => Tab::Logs,
        }
    }

    /// The tab's title in the tab bar.
    pub fn label(&self) -> (r: &'static str)
        ensures
            r == self.spec_label(),
    {
        match self {
            Tab::Logs => "Logs",
            Tab::Stats => "Stats",
            Tab::Info => "Info",
            Tab::Env => "Env",
            Tab::Top => "Top",
            Tab::Graph => "Graph",
        }
    }

    /// Every tab, in display order.
    pub fn all() -> (r: Vec<Tab>)
        ensures
            r@ == Tab::spec_all(),
    {
        let r = vec![Tab::Logs, Tab::Stats, Tab::Info, Tab::Env, Tab::Top, Tab::Graph];
        assert(r@ =~= Tab::spec_all());
        r
    }
}

/// The four lists of the sidebar, in the order in which navigation runs
/// through them.
#[derive(Debug, Clone, Copy, PartialEq, Eq, Structural)]
pub enum SidebarSection {
    Services,
    Images,
    Volumes,
    Networks,
}

impl SidebarSection {
    pub open spec fn spec_next(self) -> SidebarSection {
        match self {
            SidebarSection::Services => SidebarSection::Images,
            SidebarSection::Images => SidebarSection::Volumes,
            SidebarSection::Volumes => SidebarSection::Networks,
            SidebarSection::Networks => SidebarSection::Services,
        }
    }

    pub open spec fn spec_prev(self) -> SidebarSection {
        match self {
            SidebarSection::Services => SidebarSection::Networks,
            SidebarSection::Images => SidebarSection::Services,
            SidebarSection::Volumes => SidebarSection::Images,
            SidebarSection::Networks => SidebarSection::Volumes,
        }
    }

    /// The section below this one; the last wraps round to the first.
    pub fn next(&self) -> (r: SidebarSection)
        ensures
            r == self.spec_next(),
    {
        match self {
            SidebarSection::Services => SidebarSection::Images,
            SidebarSection::Images => SidebarSection::Volumes,
            SidebarSection::Volumes => SidebarSection::Networks,
            SidebarSection::Networks => SidebarSection::Services,
        }
    }

    /// The section above this one; the first wraps round to the last.
    pub fn prev(&self) -> (r: SidebarSection)
        ensures
            r == self.spec_prev(),
    {
        match self {
            SidebarSection::Services => SidebarSection::Networks,
            SidebarSection::Images => SidebarSection::Services,
            SidebarSection::Volumes => SidebarSection::Images,
            SidebarSection::Networks => SidebarSection::Volumes,
        }
    }
}

/// How much room the sidebar takes.
#[derive(Debug, Clone, Copy, PartialEq, Eq, Structural)]
pub enum ScreenMode {
    /// Sidebar and main panel.
    Normal,
    /// Narrow sidebar and main panel.
    Half,
    /// Main panel only.
    Fullscreen,
}

/// Which side of the screen has the keyboard focus.
#[derive(Debug, Clone, Copy, PartialEq, Eq, Structural)]
pub enum Focus {
    Sidebar,
    MainPanel,
}

/// Whether keys go to the application, to the log search or to the sidebar filter.
#[derive(Debug, Clone, Copy, PartialEq, Eq, Structural)]
pub enum InputMode {
    Normal,
    Search,
    Filter,
}

/// What the program is asked to do after a key.
#[derive(Debug, Clone, Copy, PartialEq, Eq, Structural)]
pub enum AppAction {
    /// Nothing for the program to do.
    Nothing,
    Quit,
    RestartContainer,
    StopContainer,
    StartContainer,
    RemoveContainer,
    ExecShell,
    AttachContainer,
    PauseContainer,
    UnpauseContainer,
    PruneImages,
    PruneVolumes,
    /// Remove the selected image.
    RemoveImage,
    /// Pull the selected image.
    PullImage,
    ComposeUp,
    ComposeDown,
    ComposeRestart,
    ComposePull,
    /// `docker compose up -d --build`.
    ComposeRebuild,
    /// Start `docker compose watch`, or stop it where it runs.
    ComposeWatchToggle,
    OpenInBrowser,
    StopAllContainers,
    RemoveStoppedContainers,
    PruneContainers,
    PruneNetworks,
    ExportLogs,
    RunCustomCommand(usize),
}

/// A question awaiting `y` or `n`, and the action that `y` releases.
#[derive(Debug, Clone, PartialEq)]
pub struct PendingConfirm {
    pub message: String,
    pub action: AppAction,
}

/// A key on the keyboard, as far as the interface tells keys apart.
#[derive(Debug, Clone, Copy, PartialEq, Eq, Structural)]
pub enum KeyCode {
    Char(char),
    Esc,
    Enter,
    Backspace,
    Tab,
    Up,
    Down,
    Left,
    Right,
    /// Any key the interface gives no meaning.
    Other,
}

/// The modifier key held with a key (the interface only asks for Control).
#[derive(Debug, Clone, Copy, PartialEq, Eq, Structural)]
pub enum KeyModifiers {
    NONE,
    SHIFT,
    CONTROL,
    ALT,
}

impl KeyModifiers {
    /// Whether `other` is held: no modifier is always held.
    pub fn contains(&self, other: KeyModifiers) -> (r: bool)
        ensures
            r == (other == KeyModifiers::NONE || *self == other),
    {
        match other {
            KeyModifiers::NONE => true,
            _ => *self == other,
        }
    }
}

/// A key press.
#[derive(Debug, Clone, Copy, PartialEq, Eq, Structural)]
pub struct KeyEvent {
    pub code: KeyCode,
    pub modifiers: KeyModifiers,
}

impl KeyEvent {
    pub fn new(code: KeyCode, modifiers: KeyModifiers) -> (r: KeyEvent)
        ensures
            r.code == code,
            r.modifiers == modifiers,
    {
        KeyEvent { code, modifiers }
    }
}

/// The whole interface state.
pub struct App {
    pub running: bool,
    pub focus: Focus,
    pub active_tab: Tab,
    pub sidebar_section: SidebarSection,
    pub selected_index: usize,
    pub containers: Vec<ContainerSummary>,
    pub images: Vec<ImageSummary>,
    pub volumes: Vec<Volume>,
    pub networks: Vec<Network>,
    pub projects: Vec<ComposeProject>,
    pub logs: LogStore,
    pub log_search: Option<String>,
    pub sidebar_filter: Option<String>,
    pub log_scroll_offset: u16,
    pub show_help: bool,
    pub show_cleanup: bool,
    pub show_bulk: bool,
    pub pending_confirm: Option<PendingConfirm>,
    pub input_mode: InputMode,
    pub status_message: Option<String>,
    pub status_message_at: Option<std::time::Instant>,
    pub container_env: Option<Vec<(String, String)>>,
    pub container_top: Option<Vec<Vec<String>>>,
    pub sidebar_width: u16,
    pub log_tail_lines: String,
    pub screen_mode: ScreenMode,
    pub selected_containers: StringSet,
    pub pinned_containers: StringSet,
    pub log_bookmarks: Vec<usize>,
    pub show_all_logs: bool,
    pub log_snapshot: Option<Vec<String>>,
    pub show_log_diff: bool,
    pub show_custom_commands: bool,
    pub custom_commands: Vec<CustomCommand>,
    pub compare_container_id: Option<String>,
    pub hooks: Vec<Hook>,
    pub docker_host: Option<String>,
    pub theme: Theme,
}

/// The interface state with every string and collection taken by its view.
pub struct AppView {
    pub running: bool,
    pub focus: Focus,
    pub active_tab: Tab,
    pub sidebar_section: SidebarSection,
    pub selected_index: usize,
    pub containers: Seq<ContainerSummary>,
    pub images: Seq<ImageSummary>,
    pub volumes: Seq<Volume>,
    pub networks: Seq<Network>,
    pub projects: Seq<ComposeProject>,
    pub logs: Map<Seq<char>, Seq<Seq<char>>>,
    pub log_search: Option<Seq<char>>,
    pub sidebar_filter: Option<Seq<char>>,
    pub log_scroll_offset: u16,
    pub show_help: bool,
    pub show_cleanup: bool,
    pub show_bulk: bool,
    pub pending_confirm: Option<(Seq<char>, AppAction)>,
    pub input_mode: InputMode,
    pub status_message: Option<Seq<char>>,
    pub status_message_at: Option<std::time::Instant>,
    pub container_env: Option<Vec<(String, String)>>,
    pub container_top: Option<Vec<Vec<String>>>,
    pub sidebar_width: u16,
    pub log_tail_lines: Seq<char>,
    pub screen_mode: ScreenMode,
    pub selected_containers: Set<Seq<char>>,
    pub pinned_containers: Set<Seq<char>>,
    pub log_bookmarks: Seq<usize>,
    pub show_all_logs: bool,
    pub log_snapshot: Option<Seq<Seq<char>>>,
    pub show_log_diff: bool,
    pub show_custom_commands: bool,
    pub custom_commands: Seq<CustomCommand>,
    pub compare_container_id: Option<Seq<char>>,
    pub hooks: Seq<Hook>,
    pub docker_host: Option<Seq<char>>,
    pub theme: Theme,
}

/// The view of an optional list of strings.
pub open spec fn opt_views(s: Option<Vec<String>>) -> Option<Seq<Seq<char>>> {
    match s {
        Some(v) => Some(views(v@)),
        None => None,
    }
}

impl View for App {
    type V = AppView;

    open spec fn view(&self) -> AppView {
        AppView {
            running: self.running,
            focus: self.focus,
            active_tab: self.active_tab,
            sidebar_section: self.sidebar_section,
            selected_index: self.selected_index,
            containers: self.containers@,
            images: self.images@,
            volumes: self.volumes@,
            networks: self.networks@,
            projects: self.projects@,
            logs: self.logs@,
            log_search: opt_view(self.log_search),
            sidebar_filter: opt_view(self.sidebar_filter),
            log_scroll_offset: self.log_scroll_offset,
            show_help: self.show_help,
            show_cleanup: self.show_cleanup,
            show_bulk: self.show_bulk,
            pending_confirm: match self.pending_confirm {
                Some(p) => Some((p.message@, p.action)),
                None => None,
            },
            input_mode: self.input_mode,
            status_message: opt_view(self.status_message),
            status_message_at: self.status_message_at,
            container_env: self.container_env,
            container_top: self.container_top,
            sidebar_width: self.sidebar_width,
            log_tail_lines: self.log_tail_lines@,
            screen_mode: self.screen_mode,
            selected_containers: self.selected_containers@,
            pinned_containers: self.pinned_containers@,
            log_bookmarks: self.log_bookmarks@,
            show_all_logs: self.show_all_logs,
            log_snapshot: opt_views(self.log_snapshot),
            show_log_diff: self.show_log_diff,
            show_custom_commands: self.show_custom_commands,
            custom_commands: self.custom_commands@,
            compare_container_id: opt_view(self.compare_container_id),
            hooks: self.hooks@,
            docker_host: opt_view(self.docker_host),
            theme: self.theme,
        }
    }
}

/// `a - b`, or 0 where `b` exceeds `a` (`usize::saturating_sub`).
pub open spec fn sat_sub(a: int, b: int) -> int {
    if a > b {
        a - b
    } else {
        0
    }
}

impl AppView {
    /// Length of the list the selection is in.
    pub open spec fn list_len_of(self, section: SidebarSection) -> int {
        match section {
            SidebarSection::Services => self.containers.len() as int,
            SidebarSection::Images => self.images.len() as int,
            SidebarSection::Volumes => self.volumes.len() as int,
            SidebarSection::Networks => self.networks.len() as int,
        }
    }

    pub open spec fn list_len(self) -> int {
        self.list_len_of(self.sidebar_section)
    }

    /// The container under the selection, when the selection is in the
    /// container list and on an item.
    pub open spec fn selected_container(self) -> Option<ContainerSummary> {
        if self.sidebar_section == SidebarSection::Services && self.selected_index
            < self.containers.len() {
            Some(self.containers[self.selected_index as int])
        } else {
            None
        }
    }

    /// The id of the selected container, if it has one.
    pub open spec fn selected_id(self) -> Option<Seq<char>> {
        match self.selected_container() {
            Some(c) => opt_view(c.id),
            None => None,
        }
    }

    /// Moves the selection one item down, into the next section past the end.
    pub open spec fn next_item(self) -> AppView {
        let len = self.list_len();
        if len > 0 && self.selected_index + 1 < len {
            AppView { log_scroll_offset: 0, selected_index: (self.selected_index + 1) as usize, ..self }
        } else {
            AppView {
                log_scroll_offset: 0,
                sidebar_section: self.sidebar_section.spec_next(),
                selected_index: 0,
                ..self
            }
        }
    }

    /// Moves the selection one item up, onto the last item of the previous
    /// section past the start.
    pub open spec fn prev_item(self) -> AppView {
        if self.selected_index == 0 {
            let section = self.sidebar_section.spec_prev();
            AppView {
                log_scroll_offset: 0,
                sidebar_section: section,
                selected_index: sat_sub(self.list_len_of(section), 1) as usize,
                ..self
            }
        } else {
            AppView { log_scroll_offset: 0, selected_index: (self.selected_index - 1) as usize, ..self }
        }
    }

    /// Keeps the selection on an item of its list, or on 0 for an empty list.
    pub open spec fn clamp_selected_index(self) -> AppView {
        let len = self.list_len();
        if len == 0 {
            AppView { selected_index: 0, ..self }
        } else if self.selected_index >= len {
            AppView { selected_index: (len - 1) as usize, ..self }
        } else {
            self
        }
    }
}

/// The state of a freshly started interface.
pub open spec fn spec_new(config: AppConfig, theme: Theme) -> AppView {
    AppView {
        running: true,
        focus: Focus::Sidebar,
        active_tab: Tab::Logs,
        sidebar_section: SidebarSection::Services,
        selected_index: 0,
        containers: Seq::empty(),
        images: Seq::empty(),
        volumes: Seq::empty(),
        networks: Seq::empty(),
        projects: Seq::empty(),
        logs: Map::empty(),
        log_search: None,
        sidebar_filter: None,
        log_scroll_offset: 0,
        show_help: false,
        show_cleanup: false,
        show_bulk: false,
        pending_confirm: None,
        input_mode: InputMode::Normal,
        status_message: None,
        status_message_at: None,
        container_env: None,
        container_top: None,
        sidebar_width: config.sidebar_width,
        log_tail_lines: config.log_tail_lines@,
        screen_mode: ScreenMode::Normal,
        selected_containers: Set::empty(),
        pinned_containers: Set::empty(),
        log_bookmarks: Seq::empty(),
        show_all_logs: false,
        log_snapshot: None,
        show_log_diff: false,
        show_custom_commands: false,
        custom_commands: config.custom_commands@,
        compare_container_id: None,
        hooks: config.hooks@,
        docker_host: None,
        theme: theme,
    }
}

/// Clones a list, keeping every element.
impl App {
    pub fn new(config: AppConfig) -> (r: App)
        ensures
            r@ == spec_new(config, Theme::spec_from_name(config.theme@)),
    {
        let theme = Theme::from_name(config.theme.as_str());
        let r = App {
            running: true,
            focus: Focus::Sidebar,
            active_tab: Tab::Logs,
            sidebar_section: SidebarSection::Services,
            selected_index: 0,
            containers: Vec::new(),
            images: Vec::new(),
            volumes: Vec::new(),
            networks: Vec::new(),
            projects: Vec::new(),
            logs: LogStore::new(),
            log_search: None,
            sidebar_filter: None,
            log_scroll_offset: 0,
            show_help: false,
            show_cleanup: false,
            show_bulk: false,
            pending_confirm: None,
            input_mode: InputMode::Normal,
            status_message: None,
            status_message_at: None,
            container_env: None,
            container_top: None,
            sidebar_width: config.sidebar_width,
            log_tail_lines: config.log_tail_lines,
            screen_mode: ScreenMode::Normal,
            selected_containers: StringSet::new(),
            pinned_containers: StringSet::new(),
            log_bookmarks: Vec::new(),
            show_all_logs: false,
            log_snapshot: None,
            show_log_diff: false,
            show_custom_commands: false,
            custom_commands: config.custom_commands,
            compare_container_id: None,
            hooks: config.hooks,
            docker_host: None,
            theme: theme,
        };
        assert(r@.containers =~= Seq::<ContainerSummary>::empty());
        assert(r@.images =~= Seq::<ImageSummary>::empty());
        assert(r@.volumes =~= Seq::<Volume>::empty());
        assert(r@.networks =~= Seq::<Network>::empty());
        assert(r@.projects =~= Seq::<ComposeProject>::empty());
        assert(r@.log_bookmarks =~= Seq::<usize>::empty());
        r
    }

    /// Shows `msg` in the status bar and notes when it was shown.
    pub fn set_status(&mut self, msg: &str)
        ensures
            final(self)@ == (AppView {
                status_message: Some(msg@),
                status_message_at: final(self)@.status_message_at,
                ..old(self)@
            }),
            final(self).status_message_at is Some,
    {
        self.status_message = Some(msg.to_owned());
        self.status_message_at = Some(clock::now());
    }

    /// Clears the status message once it has been shown for four seconds or more.
    pub open spec fn spec_clear_status_if_older(v: AppView, elapsed_secs: u64) -> AppView {
        if v.status_message_at is Some && elapsed_secs >= 4 {
            AppView { status_message: None, status_message_at: None, ..v }
        } else {
            v
        }
    }

    /// Clears the status message if it was shown `elapsed_secs` seconds ago
    /// or longer.
    pub fn clear_status_if_older(&mut self, elapsed_secs: u64)
        ensures
            final(self)@ == App::spec_clear_status_if_older(old(self)@, elapsed_secs),
    {
        if self.status_message_at.is_some() && elapsed_secs >= 4 {
            self.status_message = None;
            self.status_message_at = None;
        }
    }

    /// Clears the status message once it has been shown for four seconds or
    /// more; how long that was is read from the clock.
    pub fn clear_expired_status(&mut self)
        ensures
            final(self)@ == old(self)@ || final(self)@ == (AppView {
                status_message: None,
                status_message_at: None,
                ..old(self)@
            }),
            old(self).status_message_at is None ==> final(self)@ == old(self)@,
    {
        let elapsed = match &self.status_message_at {
            Some(at) => clock::whole_secs(&clock::elapsed(at)),
            None => 0,
        };
        self.clear_status_if_older(elapsed);
    }

    pub fn selected_container(&self) -> (r: Option<&ContainerSummary>)
        ensures
            r == (match self@.selected_container() {
                Some(c) => Some(&c),
                None => None,
            }),
    {
        if self.sidebar_section == SidebarSection::Services && self.selected_index
            < self.containers.len() {
            Some(&self.containers[self.selected_index])
        } else {
            None
        }
    }

    pub fn selected_container_id(&self) -> (r: Option<&str>)
        ensures
            opt_str_view(r) == self@.selected_id(),
    {
        match self.selected_container() {
            Some(c) => match &c.id {
                Some(id) => Some(id.as_str()),
                None => None,
            },
            None => None,
        }
    }

    fn current_list_len(&self) -> (r: usize)
        ensures
            r == self@.list_len(),
    {
        match self.sidebar_section {
            SidebarSection::Services => self.containers.len(),
            SidebarSection::Images => self.images.len(),
            SidebarSection::Volumes => self.volumes.len(),
            SidebarSection::Networks => self.networks.len(),
        }
    }

    pub fn clamp_selected_index(&mut self)
        ensures
            final(self)@ == old(self)@.clamp_selected_index(),
    {
        let len = self.current_list_len();
        if len == 0 {
            self.selected_index = 0;
        } else if self.selected_index >= len {
            self.selected_index = len - 1;
        }
    }

    pub fn next_item(&mut self)
        ensures
            final(self)@ == old(self)@.next_item(),
    {
        self.log_scroll_offset = 0;
        let len = self.current_list_len();
        if len > 0 {
            if self.selected_index >= len - 1 {
                self.sidebar_section = self.sidebar_section.next();
                self.selected_index = 0;
            } else {
                self.selected_index = self.selected_index + 1;
            }
        } else {
            self.sidebar_section = self.sidebar_section.next();
            self.selected_index = 0;
        }
    }

    pub fn prev_item(&mut self)
        ensures
            final(self)@ == old(self)@.prev_item(),
    {
        self.log_scroll_offset = 0;
        if self.selected_index == 0 {
            self.sidebar_section = self.sidebar_section.prev();
            let len = self.current_list_len();
            self.selected_index = if len > 0 { len - 1 } else { 0 };
        } else {
            self.selected_index = self.selected_index - 1;
        }
    }

    pub fn next_tab(&mut self)
        ensures
            final(self)@ == (AppView { active_tab: old(self)@.active_tab.spec_next(), ..old(self)@ }),
    {
        self.active_tab = self.active_tab.next();
    }
}

/// The view of an optional string slice.
pub open spec fn opt_str_view(s: Option<&str>) -> Option<Seq<char>> {
    match s {
        Some(v) => Some(v@),
        None => None,
    }
}

} // verus!
