//! Glyphs used throughout the interface.
use vstd::prelude::*;

verus! {

pub const RUN: &'static str = "▸";
pub const EXITED: &'static str = "▫";
pub const RESTARTING: &'static str = "◉";
pub const PAUSED: &'static str = "‖";
pub const PIN: &'static str = "*";
pub const SELECTED: &'static str = "◆";
pub const VRULE: &'static str = "│";
pub const ALERT: &'static str = "!";
pub const ARROW_UP: &'static str = "↑";
pub const ARROW_DOWN: &'static str = "↓";

} // verus!
