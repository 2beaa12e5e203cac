//! The text styles of the interface, each picked from a palette.
use vstd::prelude::*;
use crate::theme::{Color, Theme};

verus! {

/// A text style: foreground and background colour where set, and whether
/// the text is bold or underlined.
#[derive(Debug, Clone, Copy, PartialEq, Eq, Structural)]
pub struct Style {
    pub fg: Option<Color>,
    pub bg: Option<Color>,
    pub bold: bool,
    pub underlined: bool,
}

/// Plain text in colour `c`.
pub open spec fn spec_fg(c: Color) -> Style {
    Style { fg: Some(c), bg: None, bold: false, underlined: false }
}

/// Plain text in colour `c`.
#[verifier::when_used_as_spec(spec_fg)]
pub fn fg(c: Color) -> (r: Style)
    ensures
        r == spec_fg(c),
{
    Style { fg: Some(c), bg: None, bold: false, underlined: false }
}

/// Bold text in colour `c`.
pub fn bold(c: Color) -> (r: Style)
    ensures
        r == (Style { fg: Some(c), bg: None, bold: true, underlined: false }),
{
    Style { fg: Some(c), bg: None, bold: true, underlined: false }
}

/// A section title: bright when the section has the focus, else in the
/// header accent; bold either way.
pub fn section_header(t: &Theme, focused: bool) -> (r: Style)
    ensures
        r == (Style { fg: Some(if focused { t.fg_bright } else { t.accent_header }), bg: None, bold: true, underlined: false }),
{
    bold(if focused { t.fg_bright } else { t.accent_header })
}

pub fn section_rule(t: &Theme) -> (r: Style)
    ensures
        r == spec_fg(t.rule),
{
    fg(t.rule)
}

/// The active tab: bright, bold and underlined.
pub fn tab_active(t: &Theme) -> (r: Style)
    ensures
        r == (Style { fg: Some(t.fg_bright), bg: None, bold: true, underlined: true }),
{
    Style { fg: Some(t.fg_bright), bg: None, bold: true, underlined: true }
}

pub fn tab_inactive(t: &Theme) -> (r: Style)
    ensures
        r == spec_fg(t.fg_dim),
{
    fg(t.fg_dim)
}

pub fn tab_separator(t: &Theme) -> (r: Style)
    ensures
        r == spec_fg(t.fg_muted),
{
    fg(t.fg_muted)
}

pub fn dim_label(t: &Theme) -> (r: Style)
    ensures
        r == spec_fg(t.fg_dim),
{
    fg(t.fg_dim)
}

/// Bold text in the header accent, the most repeated style.
pub fn header_label(t: &Theme) -> (r: Style)
    ensures
        r == (Style { fg: Some(t.accent_header), bg: None, bold: true, underlined: false }),
{
    bold(t.accent_header)
}

/// The selected row: bright text on the raised surface.
pub fn selected_row(t: &Theme) -> (r: Style)
    ensures
        r == (Style { fg: Some(t.fg_bright), bg: Some(t.bg_raised), bold: false, underlined: false }),
{
    Style { fg: Some(t.fg_bright), bg: Some(t.bg_raised), bold: false, underlined: false }
}

/// A list item's name: an alert wins over the selection.
pub fn name_style(t: &Theme, is_selected: bool, is_alert: bool) -> (r: Style)
    ensures
        r == (if is_alert {
            Style { fg: Some(t.err), bg: None, bold: true, underlined: false }
        } else if is_selected {
            Style { fg: Some(t.fg_bright), bg: None, bold: true, underlined: false }
        } else {
            spec_fg(t.fg)
        }),
{
    if is_alert {
        bold(t.err)
    } else if is_selected {
        bold(t.fg_bright)
    } else {
        fg(t.fg)
    }
}

pub fn label_cell(t: &Theme) -> (r: Style)
    ensures
        r == spec_fg(t.accent_header),
{
    fg(t.accent_header)
}

pub fn value_cell(t: &Theme) -> (r: Style)
    ensures
        r == (Style { fg: Some(t.fg_bright), bg: None, bold: true, underlined: false }),
{
    bold(t.fg_bright)
}

} // verus!
