//! Screen geometry: rectangles, popup placement and the sidebar's width.
use vstd::prelude::*;
use crate::app::ScreenMode;

verus! {

/// A rectangle of terminal cells.
#[derive(Debug, Clone, Copy, PartialEq, Eq, Structural, Default)]
pub struct Rect {
    pub x: u16,
    pub y: u16,
    pub width: u16,
    pub height: u16,
}

impl Rect {
    pub fn new(x: u16, y: u16, width: u16, height: u16) -> (r: Rect)
        ensures
            r == (Rect { x, y, width, height }),
    {
        Rect { x, y, width, height }
    }
}

/// The sidebar's width in a screen mode: all of it, half of it, or none.
pub open spec fn spec_sidebar_width(mode: ScreenMode, width: u16) -> u16 {
    match mode {
        ScreenMode::Normal => width,
        ScreenMode::Half => (width / 2) as u16,
        ScreenMode::Fullscreen => 0,
    }
}

pub fn effective_sidebar_width(mode: ScreenMode, width: u16) -> (r: u16)
    ensures
        r == spec_sidebar_width(mode, width),
{
    match mode {
        ScreenMode::Normal => width,
        ScreenMode::Half => width / 2,
        ScreenMode::Fullscreen => 0,
    }
}

/// A `width` by `height` rectangle centred in `area` (flush with its top-left
/// corner where `area` is the smaller).
pub open spec fn spec_centered_rect(area: Rect, width: u16, height: u16) -> Rect {
    Rect {
        x: (area.x + (if area.width > width { area.width - width } else { 0 }) / 2) as u16,
        y: (area.y + (if area.height > height { area.height - height } else { 0 }) / 2) as u16,
        width,
        height,
    }
}

pub fn centered_rect(area: Rect, width: u16, height: u16) -> (r: Rect)
    requires
        area.x + (if area.width > width { area.width - width } else { 0 }) / 2 <= u16::MAX,
        area.y + (if area.height > height { area.height - height } else { 0 }) / 2 <= u16::MAX,
    ensures
        r == spec_centered_rect(area, width, height),
{
    let dx = if area.width > width { area.width - width } else { 0 };
    let dy = if area.height > height { area.height - height } else { 0 };
    Rect::new(area.x + dx / 2, area.y + dy / 2, width, height)
}

} // verus!
