//! What a mouse click or scroll does: sidebar rows select items, the tab bar
//! switches tabs, the wheel moves the selection or scrolls the log.
use vstd::prelude::*;
use vstd::string::*;
use crate::app::{App, AppView, Focus, SidebarSection, Tab};
use crate::layout::{effective_sidebar_width, spec_sidebar_width, Rect};

verus! {

/// A mouse button.
#[derive(Debug, Clone, Copy, PartialEq, Eq, Structural)]
pub enum MouseButton {
    Left,
    Right,
    Middle,
}

/// What the mouse did.
#[derive(Debug, Clone, Copy, PartialEq, Eq, Structural)]
pub enum MouseEventKind {
    Down(MouseButton),
    Up(MouseButton),
    Drag(MouseButton),
    Moved,
    ScrollDown,
    ScrollUp,
    ScrollLeft,
    ScrollRight,
}

/// A mouse event at a terminal cell.
#[derive(Debug, Clone, Copy, PartialEq, Eq, Structural)]
pub struct MouseEvent {
    pub kind: MouseEventKind,
    pub column: u16,
    pub row: u16,
}

/// What a row of the sidebar shows.
#[derive(Debug, Clone, Copy, PartialEq, Eq, Structural)]
pub enum SidebarRow {
    /// A section header.
    Header,
    /// The item at an index of a section.
    Item(SidebarSection, usize),
    /// A separator, or a row below the last section.
    Blank,
}

/// The sidebar row at `row` (counted below its top border) for lists of the
/// given lengths: each section is a header, its items, then a separator.
pub open spec fn spec_sidebar_row(c: int, i: int, v: int, n: int, row: int) -> SidebarRow {
    if row == 0 {
        SidebarRow::Header
    } else if row <= c {
        SidebarRow::Item(SidebarSection::Services, (row - 1) as usize)
    } else if row == c + 1 {
        SidebarRow::Blank
    } else if row == c + 2 {
        SidebarRow::Header
    } else if row <= c + 2 + i {
        SidebarRow::Item(SidebarSection::Images, (row - c - 3) as usize)
    } else if row == c + i + 3 {
        SidebarRow::Blank
    } else if row == c + i + 4 {
        SidebarRow::Header
    } else if row <= c + i + 4 + v {
        SidebarRow::Item(SidebarSection::Volumes, (row - c - i - 5) as usize)
    } else if row == c + i + v + 5 {
        SidebarRow::Blank
    } else if row == c + i + v + 6 {
        SidebarRow::Header
    } else if row <= c + i + v + 6 + n {
        SidebarRow::Item(SidebarSection::Networks, (row - c - i - v - 7) as usize)
    } else {
        SidebarRow::Blank
    }
}

/// The tab whose title covers column `x` of the tab bar (counted from its
/// first title); the separator after a title counts for the next tab, and
/// every column past the last title for the last tab.
pub open spec fn spec_tab_at(x: int) -> Tab {
    if x < 6 {
        Tab::Logs
    } else if x < 16 {
        Tab::Stats
    } else if x < 25 {
        Tab::Info
    } else if x < 33 {
        Tab::Env
    } else if x < 41 {
        Tab::Top
    } else {
        Tab::Graph
    }
}

/// Where tab `k` of the bar starts.
pub open spec fn tab_start(k: int) -> int {
    if k <= 0 {
        0
    } else if k == 1 {
        9
    } else if k == 2 {
        19
    } else if k == 3 {
        28
    } else if k == 4 {
        36
    } else if k == 5 {
        44
    } else {
        51
    }
}

/// The state after a mouse event, for a terminal `height` rows tall.
pub open spec fn mouse_step(v: AppView, m: MouseEvent, height: u16) -> AppView {
    let sw = spec_sidebar_width(v.screen_mode, v.sidebar_width);
    let in_sidebar = sw > 0 && m.column < sw;
    match m.kind {
        MouseEventKind::Down(MouseButton::Left) => if in_sidebar && m.row > 0 && m.row < height - 1 {
            let v1 = AppView { focus: Focus::Sidebar, ..v };
            match spec_sidebar_row(
                v.containers.len() as int,
                v.images.len() as int,
                v.volumes.len() as int,
                v.networks.len() as int,
                m.row - 1,
            ) {
                SidebarRow::Header => v1,
                SidebarRow::Item(section, index) => if section == SidebarSection::Services {
                    AppView { sidebar_section: section, selected_index: index, log_scroll_offset: 0, ..v1 }
                } else {
                    AppView { sidebar_section: section, selected_index: index, ..v1 }
                },
                SidebarRow::Blank => v1.clamp_selected_index(),
            }
        } else if !in_sidebar {
            let v1 = AppView { focus: Focus::MainPanel, ..v };
            let v2 = if m.row <= 1 && v.sidebar_section == SidebarSection::Services {
                AppView { active_tab: spec_tab_at(m.column - sw - 1), ..v1 }
            } else {
                v1
            };
            v2.clamp_selected_index()
        } else {
            v.clamp_selected_index()
        },
        MouseEventKind::ScrollDown => if in_sidebar {
            v.next_item().clamp_selected_index()
        } else {
            AppView {
                log_scroll_offset: (if v.log_scroll_offset > 3 { v.log_scroll_offset - 3 } else { 0 }) as u16,
                ..v
            }.clamp_selected_index()
        },
        MouseEventKind::ScrollUp => if in_sidebar {
            v.prev_item().clamp_selected_index()
        } else {
            AppView {
                log_scroll_offset: (if v.log_scroll_offset + 3 > u16::MAX { u16::MAX as int } else {
                    v.log_scroll_offset + 3
                }) as u16,
                ..v
            }.clamp_selected_index()
        },
        _ => v.clamp_selected_index(),
    }
}

/// The sidebar row at `row` for the current list lengths.
fn sidebar_row(c: usize, i: usize, v: usize, n: usize, row: usize) -> (r: SidebarRow)
    ensures
        r == spec_sidebar_row(c as int, i as int, v as int, n as int, row as int),
{
    let mut r = row;
    if r == 0 {
        return SidebarRow::Header;
    }
    r = r - 1;
    if r < c {
        return SidebarRow::Item(SidebarSection::Services, r);
    }
    r = r - c;
    if r == 0 {
        return SidebarRow::Blank;
    }
    r = r - 1;
    if r == 0 {
        return SidebarRow::Header;
    }
    r = r - 1;
    if r < i {
        return SidebarRow::Item(SidebarSection::Images, r);
    }
    r = r - i;
    if r == 0 {
        return SidebarRow::Blank;
    }
    r = r - 1;
    if r == 0 {
        return SidebarRow::Header;
    }
    r = r - 1;
    if r < v {
        return SidebarRow::Item(SidebarSection::Volumes, r);
    }
    r = r - v;
    if r == 0 {
        return SidebarRow::Blank;
    }
    r = r - 1;
    if r == 0 {
        return SidebarRow::Header;
    }
    r = r - 1;
    if r < n {
        return SidebarRow::Item(SidebarSection::Networks, r);
    }
    SidebarRow::Blank
}

proof fn lemma_label_lens()
    ensures
        Tab::Logs.spec_label()@.len() == 4,
        Tab::Stats.spec_label()@.len() == 5,
        Tab::Info.spec_label()@.len() == 4,
        Tab::Env.spec_label()@.len() == 3,
        Tab::Top.spec_label()@.len() == 3,
        Tab::Graph.spec_label()@.len() == 5,
{
    reveal_strlit("Logs");
    reveal_strlit("Stats");
    reveal_strlit("Info");
    reveal_strlit("Env");
    reveal_strlit("Top");
    reveal_strlit("Graph");
}

/// Width of a tab's title with its padding.
fn tab_width(t: Tab) -> (r: usize)
    ensures
        r == t.spec_label()@.len() + 2,
        r <= 7,
{
    proof {
        lemma_label_lens();
    }
    t.label().unicode_len() + 2
}

/// Where the title of tab `k` ends.
pub open spec fn tab_end(k: int) -> int {
    if k <= 0 {
        6
    } else if k == 1 {
        16
    } else if k == 2 {
        25
    } else if k == 3 {
        33
    } else if k == 4 {
        41
    } else {
        51
    }
}

/// The tab under column `x` of the tab bar.
pub fn tab_at(x: usize) -> (r: Tab)
    ensures
        r == spec_tab_at(x as int),
{
    let tabs = Tab::all();
    assert(tabs@.len() == 6);
    let mut pos: usize = 0;
    let mut k: usize = 0;
    while k < tabs.len()
        invariant
            tabs@ == Tab::spec_all(),
            tabs@.len() == 6,
            k <= 6,
            pos == tab_start(k as int),
            k == 0 || x >= tab_end(k - 1),
        decreases 6 - k,
    {
        let t = tabs[k];
        let w = tab_width(t);
        proof {
            lemma_label_lens();
            assert(t == Tab::spec_all()[k as int]);
            if k == 0 {
                assert(t == Tab::Logs);
            } else if k == 1 {
                assert(t == Tab::Stats);
            } else if k == 2 {
                assert(t == Tab::Info);
            } else if k == 3 {
                assert(t == Tab::Env);
            } else if k == 4 {
                assert(t == Tab::Top);
            } else {
                assert(t == Tab::Graph);
            }
            assert(pos + w == tab_end(k as int));
        }
        let sep: usize = if k < tabs.len() - 1 { 3 } else { 0 };
        if x < pos + w {
            return t;
        }
        pos = pos + w + sep;
        k = k + 1;
    }
    tabs[tabs.len() - 1]
}

impl App {
    fn sidebar_click(&mut self, row: usize)
        ensures
            final(self)@ == (match spec_sidebar_row(
                old(self)@.containers.len() as int,
                old(self)@.images.len() as int,
                old(self)@.volumes.len() as int,
                old(self)@.networks.len() as int,
                row as int,
            ) {
                SidebarRow::Header => AppView { focus: Focus::Sidebar, ..old(self)@ },
                SidebarRow::Item(section, index) => if section == SidebarSection::Services {
                    AppView { focus: Focus::Sidebar, sidebar_section: section, selected_index: index, log_scroll_offset: 0, ..old(self)@ }
                } else {
                    AppView { focus: Focus::Sidebar, sidebar_section: section, selected_index: index, ..old(self)@ }
                },
                SidebarRow::Blank => AppView { focus: Focus::Sidebar, ..old(self)@ }.clamp_selected_index(),
            }),
    {
        self.focus = Focus::Sidebar;
        match sidebar_row(
            self.containers.len(),
            self.images.len(),
            self.volumes.len(),
            self.networks.len(),
            row,
        ) {
            SidebarRow::Header => {},
            SidebarRow::Item(section, index) => {
                self.sidebar_section = section;
                self.selected_index = index;
                if section == SidebarSection::Services {
                    self.log_scroll_offset = 0;
                }
            },
            SidebarRow::Blank => {
                self.clamp_selected_index();
            },
        }
    }

    fn main_panel_click(&mut self, x: u16, y: u16, sidebar_width: u16)
        requires
            y <= 1 && old(self).sidebar_section == SidebarSection::Services ==> sidebar_width < u16::MAX,
        ensures
            final(self)@ == ({
                let v1 = AppView { focus: Focus::MainPanel, ..old(self)@ };
                let v2 = if y <= 1 && old(self)@.sidebar_section == SidebarSection::Services {
                    AppView { active_tab: spec_tab_at(x - sidebar_width - 1), ..v1 }
                } else {
                    v1
                };
                v2.clamp_selected_index()
            }),
    {
        self.focus = Focus::MainPanel;
        if y <= 1 && self.sidebar_section == SidebarSection::Services {
            let tab_x: usize = if x > sidebar_width + 1 {
                (x - (sidebar_width + 1)) as usize
            } else {
                0
            };
            self.active_tab = tab_at(tab_x);
        }
        self.clamp_selected_index();
    }

    /// Applies a mouse event; `terminal_size` is the whole terminal.
    #[verifier::rlimit(40)]
    pub fn handle_mouse(&mut self, mouse: MouseEvent, terminal_size: Rect)
        requires
            !(mouse.kind == MouseEventKind::Down(MouseButton::Left) && spec_sidebar_width(
                old(self).screen_mode,
                old(self).sidebar_width,
            ) == u16::MAX && mouse.column == u16::MAX && mouse.row <= 1 && old(self).sidebar_section
                == SidebarSection::Services),
            mouse.kind == MouseEventKind::Down(MouseButton::Left) && mouse.row > 0
                && mouse.column < spec_sidebar_width(old(self).screen_mode, old(self).sidebar_width)
                ==> terminal_size.height > 0,
        ensures
            final(self)@ == mouse_step(old(self)@, mouse, terminal_size.height),
    {
        let x = mouse.column;
        let y = mouse.row;
        let sidebar_width = effective_sidebar_width(self.screen_mode, self.sidebar_width);
        let in_sidebar = sidebar_width > 0 && x < sidebar_width;
        match mouse.kind {
            MouseEventKind::Down(MouseButton::Left) => {
                if in_sidebar && y > 0 && y < terminal_size.height - 1 {
                    self.sidebar_click((y - 1) as usize);
                    return ;
                } else if !in_sidebar {
                    self.main_panel_click(x, y, sidebar_width);
                    return ;
                }
            },
            MouseEventKind::ScrollDown => {
                if in_sidebar {
                    self.next_item();
                } else {
                    self.log_scroll_offset = if self.log_scroll_offset > 3 {
                        self.log_scroll_offset - 3
                    } else {
                        0
                    };
                }
            },
            MouseEventKind::ScrollUp => {
                if in_sidebar {
                    self.prev_item();
                } else {
                    self.log_scroll_offset = if self.log_scroll_offset > u16::MAX - 3 {
                        u16::MAX
                    } else {
                        self.log_scroll_offset + 3
                    };
                }
            },
            _ => {},
        }
        self.clamp_selected_index();
    }
}

} // verus!
