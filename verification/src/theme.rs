//! The two colour palettes, the glyphs and colours that stand for container
//! states, and the horizontal rule used by section headers.
pub mod icons;
pub mod styles;

use vstd::prelude::*;
use crate::strings::{ascii_lower, push_char, str_eq, to_ascii_lowercase};

verus! {

/// A terminal colour, as the palettes name them.
#[derive(Debug, Clone, Copy, PartialEq, Eq, Structural)]
pub enum Color {
    Rgb(u8, u8, u8),
    White,
    Black,
    DarkGray,
    Yellow,
    Cyan,
    Green,
    Red,
}

/// A colour palette for every surface of the interface.
#[derive(Debug, Clone, Copy, PartialEq, Eq, Structural)]
pub struct Theme {
    /// Raised surface: selection backgrounds, popup chrome, status strips.
    pub bg_raised: Color,
    pub fg: Color,
    pub fg_bright: Color,
    pub fg_dim: Color,
    pub fg_muted: Color,
    pub accent_header: Color,
    pub accent_primary: Color,
    pub accent_strong: Color,
    /// Foreground drawn on top of `accent_primary` (search highlights).
    pub on_accent: Color,
    pub ok: Color,
    pub err: Color,
    pub warn: Color,
    pub info: Color,
    pub rule: Color,
}

/// Intent for popup chrome.
#[derive(Debug, Clone, Copy, PartialEq, Eq, Structural)]
pub enum PopupKind {
    Info,
    Danger,
}

/// Number of characters in the longest rule `rule` hands out.
pub const RULE_MAX: usize = 256;

/// The box-drawing character of which rules are made.
pub const RULE_CHAR: char = '─';

impl Theme {
    /// Warm amber on black, matching the project site.
    pub open spec fn spec_ember() -> Theme {
        Theme {
            bg_raised: Color::Rgb(26, 19, 12),
            fg: Color::Rgb(215, 203, 172),
            fg_bright: Color::Rgb(240, 229, 198),
            fg_dim: Color::Rgb(122, 111, 87),
            fg_muted: Color::Rgb(106, 94, 74),
            accent_header: Color::Rgb(228, 179, 99),
            accent_primary: Color::Rgb(198, 80, 26),
            accent_strong: Color::Rgb(178, 48, 32),
            on_accent: Color::Rgb(16, 12, 8),
            ok: Color::Rgb(138, 168, 74),
            err: Color::Rgb(194, 74, 46),
            warn: Color::Rgb(198, 161, 74),
            info: Color::Rgb(138, 168, 74),
            rule: Color::Rgb(58, 46, 34),
        }
    }

    /// The classic cyan and green multicolour scheme.
    pub open spec fn spec_classic() -> Theme {
        Theme {
            bg_raised: Color::Rgb(50, 50, 70),
            fg: Color::White,
            fg_bright: Color::White,
            fg_dim: Color::DarkGray,
            fg_muted: Color::DarkGray,
            accent_header: Color::Yellow,
            accent_primary: Color::Cyan,
            accent_strong: Color::Cyan,
            on_accent: Color::Black,
            ok: Color::Rgb(80, 220, 120),
            err: Color::Rgb(255, 80, 80),
            warn: Color::Rgb(255, 200, 50),
            info: Color::Rgb(80, 220, 120),
            rule: Color::DarkGray,
        }
    }

    pub fn ember() -> (r: Theme)
        ensures
            r == Theme::spec_ember(),
    {
        Theme {
            bg_raised: Color::Rgb(26, 19, 12),
            fg: Color::Rgb(215, 203, 172),
            fg_bright: Color::Rgb(240, 229, 198),
            fg_dim: Color::Rgb(122, 111, 87),
            fg_muted: Color::Rgb(106, 94, 74),
            accent_header: Color::Rgb(228, 179, 99),
            accent_primary: Color::Rgb(198, 80, 26),
            accent_strong: Color::Rgb(178, 48, 32),
            on_accent: Color::Rgb(16, 12, 8),
            ok: Color::Rgb(138, 168, 74),
            err: Color::Rgb(194, 74, 46),
            warn: Color::Rgb(198, 161, 74),
            info: Color::Rgb(138, 168, 74),
            rule: Color::Rgb(58, 46, 34),
        }
    }

    pub fn classic() -> (r: Theme)
        ensures
            r == Theme::spec_classic(),
    {
        Theme {
            bg_raised: Color::Rgb(50, 50, 70),
            fg: Color::White,
            fg_bright: Color::White,
            fg_dim: Color::DarkGray,
            fg_muted: Color::DarkGray,
            accent_header: Color::Yellow,
            accent_primary: Color::Cyan,
            accent_strong: Color::Cyan,
            on_accent: Color::Black,
            ok: Color::Rgb(80, 220, 120),
            err: Color::Rgb(255, 80, 80),
            warn: Color::Rgb(255, 200, 50),
            info: Color::Rgb(80, 220, 120),
            rule: Color::DarkGray,
        }
    }

    /// The palette a configured theme name selects: `classic` in any ASCII
    /// case gives the classic palette, every other name the ember one.
    pub open spec fn spec_from_name(name: Seq<char>) -> Theme {
        if name.map_values(|c: char| ascii_lower(c)) == "classic"@ {
            Theme::spec_classic()
        } else {
            Theme::spec_ember()
        }
    }

    pub fn from_name(name: &str) -> (r: Theme)
        ensures
            r == Theme::spec_from_name(name@),
    {
        let lower = to_ascii_lowercase(name);
        if str_eq(lower.as_str(), "classic") {
            Theme::classic()
        } else {
            Theme::ember()
        }
    }
}

impl Default for Theme {
    fn default() -> (r: Theme)
        ensures
            r == Theme::spec_ember(),
    {
        Theme::ember()
    }
}

/// The rule of `n` characters, clamped to `RULE_MAX`.
pub open spec fn spec_rule(n: nat) -> Seq<char> {
    Seq::new(if n < RULE_MAX { n } else { RULE_MAX as nat }, |i: int| RULE_CHAR)
}

/// A horizontal rule of `n` box-drawing characters, at most `RULE_MAX` of them;
/// `n` counts characters, not bytes.
pub fn rule(n: usize) -> (r: String)
    ensures
        r@ == spec_rule(n as nat),
{
    let len = if n < RULE_MAX { n } else { RULE_MAX };
    let mut out = String::new();
    let mut i: usize = 0;
    while i < len
        invariant
            i <= len,
            len == (if n < RULE_MAX { n } else { RULE_MAX }),
            out@ == Seq::new(i as nat, |k: int| RULE_CHAR),
        decreases len - i,
    {
        push_char(&mut out, RULE_CHAR);
        assert(out@ =~= Seq::new((i + 1) as nat, |k: int| RULE_CHAR));
        i = i + 1;
    }
    out
}

/// The colour that stands for a container state.
pub open spec fn spec_state_color(t: Theme, state: Seq<char>) -> Color {
    if state == "running"@ {
        t.ok
    } else if state == "exited"@ {
        t.err
    } else if state == "restarting"@ || state == "paused"@ {
        t.warn
    } else {
        t.fg_muted
    }
}

/// The glyph that stands for a container state.
pub open spec fn spec_state_glyph(state: Seq<char>) -> Seq<char> {
    if state == "running"@ {
        icons::RUN@
    } else if state == "exited"@ {
        icons::EXITED@
    } else if state == "restarting"@ {
        icons::RESTARTING@
    } else if state == "paused"@ {
        icons::PAUSED@
    } else {
        icons::EXITED@
    }
}

/// Just the colour for a container state (where the glyph is irrelevant).
pub fn state_color(t: &Theme, state: &str) -> (r: Color)
    ensures
        r == spec_state_color(*t, state@),
{
    if str_eq(state, "running") {
        t.ok
    } else if str_eq(state, "exited") {
        t.err
    } else if str_eq(state, "restarting") || str_eq(state, "paused") {
        t.warn
    } else {
        t.fg_muted
    }
}

/// The glyph and style for a container state.
pub fn state_style(t: &Theme, state: &str) -> (r: (&'static str, styles::Style))
    ensures
        r.0@ == spec_state_glyph(state@),
        r.1 == styles::fg(spec_state_color(*t, state@)),
{
    let glyph = if str_eq(state, "running") {
        icons::RUN
    } else if str_eq(state, "exited") {
        icons::EXITED
    } else if str_eq(state, "restarting") {
        icons::RESTARTING
    } else if str_eq(state, "paused") {
        icons::PAUSED
    } else {
        icons::EXITED
    };
    (glyph, styles::fg(state_color(t, state)))
}

/// Border and title colours of a popup of the given kind.
pub fn popup_colors(t: &Theme, kind: PopupKind) -> (r: (Color, Color))
    ensures
        r == (match kind {
            PopupKind::Info => (t.rule, t.accent_header),
            PopupKind::Danger => (t.accent_strong, t.accent_strong),
        }),
{
    match kind {
        PopupKind::Info => (t.rule, t.accent_header),
        PopupKind::Danger => (t.accent_strong, t.accent_strong),
    }
}

} // verus!
