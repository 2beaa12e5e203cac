//! How the log panel reads a line: its level, the colour of an HTTP status
//! code, and how far the panel scrolls.
use vstd::prelude::*;
use vstd::string::*;
use vstd::utf8::*;
use crate::details::{lemma_trim_start_skip, trim_start};
use crate::search::lemma_boundary_in_rest;
use crate::strings::{is_whitespace, unicode_white_space};
use crate::strings::{contains, contains_seq, to_lowercase, unicode_lowercase};
use crate::theme::{Color, Theme};

verus! {

/// The level a log line is shown at.
#[derive(Debug, Clone, Copy, PartialEq, Eq, Structural)]
pub enum LogLevel {
    Error,
    Warn,
    Debug,
    Info,
    Plain,
}

/// The level of a line, read from its lower-cased text: error words first,
/// then warnings, then debug and trace, then info.
pub open spec fn spec_log_level(line: Seq<char>) -> LogLevel {
    let l = unicode_lowercase(line);
    if contains_seq(l, "error"@) || contains_seq(l, "err]"@) || contains_seq(l, "fatal"@) || contains_seq(l, "panic"@)
        || contains_seq(l, "critical"@) {
        LogLevel::Error
    } else if contains_seq(l, "warn"@) || contains_seq(l, "wrn]"@) {
        LogLevel::Warn
    } else if contains_seq(l, "debug"@) || contains_seq(l, "dbg]"@) || contains_seq(l, "trace"@) {
        LogLevel::Debug
    } else if contains_seq(l, "info"@) || contains_seq(l, "inf]"@) {
        LogLevel::Info
    } else {
        LogLevel::Plain
    }
}

/// The level a log line is shown at.
pub fn log_level(line: &str) -> (r: LogLevel)
    ensures
        r == spec_log_level(line@),
{
    let lower = to_lowercase(line);
    let l = lower.as_str();
    if contains(l, "error") || contains(l, "err]") || contains(l, "fatal") || contains(l, "panic") || contains(
        l,
        "critical",
    ) {
        LogLevel::Error
    } else if contains(l, "warn") || contains(l, "wrn]") {
        LogLevel::Warn
    } else if contains(l, "debug") || contains(l, "dbg]") || contains(l, "trace") {
        LogLevel::Debug
    } else if contains(l, "info") || contains(l, "inf]") {
        LogLevel::Info
    } else {
        LogLevel::Plain
    }
}

/// The colour of a level under a theme.
pub open spec fn spec_level_color(level: LogLevel, t: Theme) -> Color {
    match level {
        LogLevel::Error => t.err,
        LogLevel::Warn => t.warn,
        LogLevel::Debug => t.fg_muted,
        LogLevel::Info => t.info,
        LogLevel::Plain => t.fg,
    }
}

pub fn level_color(level: LogLevel, t: &Theme) -> (r: Color)
    ensures
        r == spec_level_color(level, *t),
{
    match level {
        LogLevel::Error => t.err,
        LogLevel::Warn => t.warn,
        LogLevel::Debug => t.fg_muted,
        LogLevel::Info => t.info,
        LogLevel::Plain => t.fg,
    }
}

/// How an HTTP status code is drawn: its colour, and whether in bold.
#[derive(Debug, Clone, Copy, PartialEq, Eq, Structural)]
pub struct StatusStyle {
    pub fg: Color,
    pub bold: bool,
}

/// The style of an HTTP status code by its first digit: success in bold in
/// the success colour, redirects in the warning colour, client and server
/// errors in bold in the error colour; none for anything else.
pub open spec fn spec_http_status_style(code: Seq<char>, t: Theme) -> Option<StatusStyle> {
    if code.len() == 0 {
        None
    } else if code[0] == '2' {
        Some(StatusStyle { fg: t.ok, bold: true })
    } else if code[0] == '3' {
        Some(StatusStyle { fg: t.warn, bold: false })
    } else if code[0] == '4' || code[0] == '5' {
        Some(StatusStyle { fg: t.err, bold: true })
    } else {
        None
    }
}

pub fn http_status_style(code: &str, t: &Theme) -> (r: Option<StatusStyle>)
    ensures
        r == spec_http_status_style(code@, *t),
{
    if code.unicode_len() == 0 {
        return None;
    }
    let first = code.get_char(0);
    if first == '2' {
        Some(StatusStyle { fg: t.ok, bold: true })
    } else if first == '3' {
        Some(StatusStyle { fg: t.warn, bold: false })
    } else if first == '4' || first == '5' {
        Some(StatusStyle { fg: t.err, bold: true })
    } else {
        None
    }
}

/// The rows a line of `width` columns takes in a panel `panel_width` wide
/// (one where the panel has no width).
pub open spec fn spec_visual_rows(width: nat, panel_width: nat) -> nat {
    if panel_width == 0 {
        1
    } else {
        let w = if width < 1 { 1nat } else { width };
        ((w + panel_width - 1) as int / panel_width as int) as nat
    }
}

pub fn visual_rows(width: usize, panel_width: usize) -> (r: usize)
    ensures
        r == spec_visual_rows(width as nat, panel_width as nat),
{
    if panel_width == 0 {
        1
    } else {
        let w = if width < 1 { 1 } else { width };
        let q = w / panel_width;
        let m = w % panel_width;
        proof {
            let pw = panel_width as int;
            vstd::arithmetic::div_mod::lemma_fundamental_div_mod(w as int, pw);
            assert(w as int == q * pw + m) by (nonlinear_arith)
                requires
                    w as int == pw * (w as int / pw) + (w as int % pw),
                    q == w as int / pw,
                    m == w as int % pw,
            ;
            if m == 0 {
                assert((w + pw - 1) as int == q * pw + (pw - 1));
                vstd::arithmetic::div_mod::lemma_fundamental_div_mod_converse((w + pw - 1) as int, pw, q as int, pw - 1);
            } else {
                assert((w + pw - 1) as int == (q + 1) * pw + (m - 1)) by (nonlinear_arith)
                    requires
                        w as int == q * pw + m,
                ;
                vstd::arithmetic::div_mod::lemma_fundamental_div_mod_converse((w + pw - 1) as int, pw, q + 1, m - 1);
                assert(q < w) by (nonlinear_arith)
                    requires
                        w as int == q * pw + m,
                        m > 0,
                        pw >= 2,
                        q >= 0,
                ;
            }
        }
        q + if m == 0 { 0 } else { 1 }
    }
}

/// The first row shown: the end of the log where the panel follows it, else
/// `offset` rows further up, never above the top; the row number is kept as
/// a `u16`, as the panel takes it.
pub open spec fn spec_scroll_top(total_rows: nat, height: nat, offset: u16) -> u16 {
    let bottom: int = if total_rows > height { total_rows - height } else { 0 };
    let top: int = if offset == 0 {
        bottom
    } else if bottom > offset {
        bottom - offset
    } else {
        0
    };
    top as u16
}

pub fn scroll_top(total_rows: usize, height: usize, offset: u16) -> (r: u16)
    ensures
        r == spec_scroll_top(total_rows as nat, height as nat, offset),
{
    let bottom = total_rows.saturating_sub(height);
    let top = if offset == 0 {
        bottom
    } else {
        bottom.saturating_sub(offset as usize)
    };
    #[verifier::truncate]
    (top as u16)
}

/// Whether `p` compiles as a regular expression.
pub uninterp spec fn regex_compiles(p: Seq<char>) -> bool;

/// Calls `regex::Regex::new` and asks whether it succeeded; the answer is
/// named `regex_compiles`.
#[verifier::external_body]
fn pattern_compiles(p: &str) -> (r: bool)
    ensures
        r == regex_compiles(p@),
{
    regex::Regex::new(p).is_ok()
}

/// The colour of the search prompt's cursor: the accent while the query is
/// empty or a valid pattern, the error colour otherwise.
pub open spec fn spec_search_cursor_color(query: Seq<char>, t: Theme) -> Color {
    if query.len() == 0 || regex_compiles(query) {
        t.accent_primary
    } else {
        t.err
    }
}

/// The colour of the search prompt's cursor for a query.
pub fn search_cursor_color(query: &str, t: &Theme) -> (r: Color)
    ensures
        r == spec_search_cursor_color(query@, *t),
{
    let compiles = if query.is_empty() { true } else { pattern_compiles(query) };
    cursor_color_for(query, compiles, t)
}

/// The colour of the search prompt's cursor for a query that has already
/// been checked: `compiles` is whether it is a valid pattern.
pub fn cursor_color_for(query: &str, compiles: bool, t: &Theme) -> (r: Color)
    ensures
        r == (if query@.len() == 0 || compiles { t.accent_primary } else { t.err }),
{
    if query.is_empty() || compiles {
        t.accent_primary
    } else {
        t.err
    }
}

/// The byte spans of the successive matches of `pattern` in `text`, each
/// with the span of its first capture group where that group took part;
/// `None` where the pattern does not compile.
pub uninterp spec fn capture_spans(pattern: Seq<char>, text: Seq<char>) -> Option<Seq<(nat, nat, Option<(nat, nat)>)>>;

/// A capture as mathematical integers.
pub open spec fn capture_view(c: (usize, usize, Option<(usize, usize)>)) -> (nat, nat, Option<(nat, nat)>) {
    (
        c.0 as nat,
        c.1 as nat,
        match c.2 {
            Some(g) => Some((g.0 as nat, g.1 as nat)),
            None => None,
        },
    )
}

pub open spec fn captures_view(v: Seq<(usize, usize, Option<(usize, usize)>)>) -> Seq<(nat, nat, Option<(nat, nat)>)> {
    v.map_values(|c: (usize, usize, Option<(usize, usize)>)| capture_view(c))
}

/// Calls `regex::Regex::new(pattern)` and, where it compiles,
/// `captures_iter` on `text`, taking each match's start and end and those of
/// its group 1; the result is named `capture_spans`.
#[verifier::external_body]
fn regex_capture_spans(pattern: &str, text: &str) -> (r: Option<Vec<(usize, usize, Option<(usize, usize)>)>>)
    ensures
        match r {
            Some(v) => capture_spans(pattern@, text@) == Some(captures_view(v@)),
            None => capture_spans(pattern@, text@) is None,
        },
{
    match regex::Regex::new(pattern) {
        Ok(re) => Some(
            re.captures_iter(text).map(|c| {
                let whole = c.get(0).unwrap();
                (whole.start(), whole.end(), c.get(1).map(|g| (g.start(), g.end())))
            }).collect(),
        ),
        Err(_) => None,
    }
}

/// An HTTP status code standing alone: three digits, the first from 1 to 5,
/// at the start or after white space, and at the end or before white space.
pub open spec fn http_status_pattern() -> Seq<char> {
    "(?:^|\\s)([1-5]\\d{2})(?:\\s|$)"@
}

/// A segment of a log line: a byte range and the status style it is drawn
/// in, if any (the line's own style otherwise).
pub type Segment = (nat, nat, Option<StatusStyle>);

/// The segments after one more match, from those so far and where they end:
/// the text before the match and before the code keep the line's style, the
/// code takes its status style. A match without a code, or out of order, or
/// not on character boundaries, adds nothing.
pub open spec fn http_step(
    b: Seq<u8>,
    t: Theme,
    state: (Seq<Segment>, nat),
    c: (nat, nat, Option<(nat, nat)>),
) -> (Seq<Segment>, nat) {
    let segs = state.0;
    let last = state.1;
    match c.2 {
        None => state,
        Some(g) => if last <= c.0 && c.0 <= g.0 && g.0 <= g.1 && g.1 <= b.len() && is_char_boundary(b, c.0 as int)
            && is_char_boundary(b, g.0 as int) && is_char_boundary(b, g.1 as int) {
            let s1 = if c.0 > last {
                segs.push((last, c.0, None))
            } else {
                segs
            };
            let s2 = if g.0 > c.0 {
                s1.push((c.0, g.0, None))
            } else {
                s1
            };
            (s2.push((g.0, g.1, spec_http_status_style(decode_utf8(b.subrange(g.0 as int, g.1 as int)), t))), g.1)
        } else {
            state
        },
    }
}

/// The segments after the `k` first matches.
pub open spec fn http_upto(b: Seq<u8>, t: Theme, caps: Seq<(nat, nat, Option<(nat, nat)>)>, k: int) -> (
    Seq<Segment>,
    nat,
)
    decreases k,
{
    if k <= 0 {
        (Seq::empty(), 0)
    } else {
        http_step(b, t, http_upto(b, t, caps, k - 1), caps[k - 1])
    }
}

/// The segments of a line (as bytes) around the status codes that the
/// pattern finds (`caps`): after the last code the rest of the line in its
/// own style, and the whole line as one segment where nothing else is left.
pub open spec fn spec_http_segments(b: Seq<u8>, t: Theme, caps: Option<Seq<(nat, nat, Option<(nat, nat)>)>>) -> Seq<Segment> {
    let cs = match caps {
        Some(c) => c,
        None => Seq::empty(),
    };
    let st = http_upto(b, t, cs, cs.len() as int);
    let segs = if st.1 < b.len() {
        st.0.push((st.1, b.len(), None))
    } else {
        st.0
    };
    if segs.len() == 0 {
        seq![(0, b.len(), None)]
    } else {
        segs
    }
}

/// A segment as plain values.
pub open spec fn segment_view(s: (usize, usize, Option<StatusStyle>)) -> Segment {
    (s.0 as nat, s.1 as nat, s.2)
}

pub open spec fn segments_view(v: Seq<(usize, usize, Option<StatusStyle>)>) -> Seq<Segment> {
    v.map_values(|s: (usize, usize, Option<StatusStyle>)| segment_view(s))
}

/// The segments in which a log line is drawn so that standalone HTTP status
/// codes take their colour (see `spec_http_segments`); byte ranges of the
/// line, in order, covering it.
pub fn http_status_segments(line: &str, t: &Theme) -> (r: Vec<(usize, usize, Option<StatusStyle>)>)
    requires
        line.spec_bytes().len() <= usize::MAX,
    ensures
        segments_view(r@) == spec_http_segments(
            line.spec_bytes(),
            *t,
            capture_spans(http_status_pattern(), line@),
        ),
{
    let ghost b = line.spec_bytes();
    let pattern = "(?:^|\\s)([1-5]\\d{2})(?:\\s|$)";
    let caps = regex_capture_spans(pattern, line);
    let cs: Vec<(usize, usize, Option<(usize, usize)>)> = match caps {
        Some(v) => v,
        None => Vec::new(),
    };
    let ghost cv = captures_view(cs@);
    proof {
        assert(pattern@ == http_status_pattern());
        assert(match capture_spans(http_status_pattern(), line@) {
            Some(c) => c,
            None => Seq::empty(),
        } =~= cv);
    }
    let mut r: Vec<(usize, usize, Option<StatusStyle>)> = Vec::new();
    let mut last: usize = 0;
    let mut k: usize = 0;
    while k < cs.len()
        invariant
            b == line.spec_bytes(),
            b.len() <= usize::MAX,
            cv == captures_view(cs@),
            k <= cs@.len(),
            (segments_view(r@), last as nat) == http_upto(
                b,
                *t,
                cv,
                k as int,
            ),
        decreases cs@.len() - k,
    {
        let c = cs[k];
        let ghost before = segments_view(r@);
        assert(cv[k as int] == capture_view(c));
        match c.2 {
            None => {},
            Some(g) => {
                if last <= c.0 && c.0 <= g.0 && g.0 <= g.1 && g.1 <= line.len() && line.is_char_boundary(c.0)
                    && line.is_char_boundary(g.0) && line.is_char_boundary(g.1) {
                    if c.0 > last {
                        r.push((last, c.0, None));
                    }
                    if g.0 > c.0 {
                        r.push((c.0, g.0, None));
                    }
                    proof {
                        encode_utf8_valid_utf8(line@);
                        lemma_boundary_in_rest(b, g.0 as int, g.1 as int);
                    }
                    let (_, rest) = line.split_at(g.0);
                    let (code, _) = rest.split_at(g.1 - g.0);
                    proof {
                        assert(code.spec_bytes() =~= b.subrange(g.0 as int, g.1 as int));
                        encode_utf8_decode_utf8(code@);
                    }
                    let style = http_status_style(code, t);
                    r.push((g.0, g.1, style));
                    last = g.1;
                }
            },
        }
        proof {
            assert(segments_view(r@) =~= http_step(
                b,
                *t,
                (before, http_upto(b, *t, cv, k as int).1),
                cv[k as int],
            ).0);
        }
        k = k + 1;
    }
    if last < line.len() {
        r.push((last, line.len(), None));
    }
    if r.len() == 0 {
        r.push((0, line.len(), None));
    }
    proof {
        assert(cv.len() == k);
        assert(segments_view(r@) =~= spec_http_segments(
            b,
            *t,
            capture_spans(http_status_pattern(), line@),
        ));
    }
    r
}

/// Whether byte `c` is an ASCII digit.
pub open spec fn is_digit_byte(c: u8) -> bool {
    48 <= c <= 57
}

/// The first position from `i` on of a space, `|` or `]`.
pub open spec fn first_stamp_end(tb: Seq<u8>, i: int) -> Option<int>
    decreases tb.len() - i,
{
    if i < 0 || i >= tb.len() {
        None
    } else if tb[i] == 32 || tb[i] == 124 || tb[i] == 93 {
        Some(i)
    } else {
        first_stamp_end(tb, i + 1)
    }
}

/// The first position of `]`.
pub open spec fn first_close(tb: Seq<u8>, i: int) -> Option<int>
    decreases tb.len() - i,
{
    if i < 0 || i >= tb.len() {
        None
    } else if tb[i] == 93 {
        Some(i)
    } else {
        first_close(tb, i + 1)
    }
}

/// Where a timestamp at the start of `tb` (a line without its leading white
/// space, as bytes) ends: a date (four digits then `-` or `/`) runs to just
/// past the first space, `|` or `]` from position 19 on, else to position 30
/// on lines longer than 35; a bracketed stamp starting with a digit and at
/// least five long runs to just past its `]`.
pub open spec fn spec_stamp_end(tb: Seq<u8>) -> Option<int> {
    if tb.len() >= 19 && is_digit_byte(tb[0]) && is_digit_byte(tb[1]) && is_digit_byte(tb[2]) && is_digit_byte(tb[3])
        && (tb[4] == 45 || tb[4] == 47) {
        match first_stamp_end(tb, 19) {
            Some(i) => Some(i + 1),
            None => if tb.len() <= 35 {
                None
            } else {
                Some(30)
            },
        }
    } else if tb.len() > 0 && tb[0] == 91 {
        match first_close(tb, 0) {
            Some(e) => if e - 1 >= 5 && is_digit_byte(tb[1]) {
                Some(e + 1)
            } else {
                None
            },
            None => None,
        }
    } else {
        None
    }
}

/// Where the timestamp that starts a log line ends, as a byte offset into
/// the line: past its leading white space, see `spec_stamp_end`.
pub open spec fn spec_timestamp_end(line: Seq<char>) -> Option<int> {
    let tb = encode_utf8(trim_start(line));
    match spec_stamp_end(tb) {
        Some(e) => Some(encode_utf8(line).len() - tb.len() + e),
        None => None,
    }
}

proof fn lemma_encode_skip_len(s: Seq<char>, a: int)
    requires
        0 <= a <= s.len(),
    ensures
        encode_utf8(s.skip(a)).len() <= encode_utf8(s).len(),
    decreases a,
{
    if a > 0 {
        lemma_encode_skip_len(s.drop_first(), a - 1);
        assert(s.drop_first().skip(a - 1) =~= s.skip(a));
    } else {
        assert(s.skip(0) =~= s);
    }
}

fn first_stamp_end_from(tb: &[u8], from: usize) -> (r: Option<usize>)
    ensures
        match r {
            Some(i) => first_stamp_end(tb@, from as int) == Some(i as int) && i < tb@.len(),
            None => first_stamp_end(tb@, from as int) is None,
        },
{
    let mut i = from;
    while i < tb.len()
        invariant
            from <= i,
            first_stamp_end(tb@, from as int) == first_stamp_end(tb@, i as int),
        decreases tb@.len() - i,
    {
        let c = tb[i];
        if c == 32 || c == 124 || c == 93 {
            return Some(i);
        }
        i = i + 1;
    }
    None
}

fn first_close_from(tb: &[u8]) -> (r: Option<usize>)
    ensures
        match r {
            Some(i) => first_close(tb@, 0) == Some(i as int) && i < tb@.len(),
            None => first_close(tb@, 0) is None,
        },
{
    let mut i: usize = 0;
    while i < tb.len()
        invariant
            first_close(tb@, 0) == first_close(tb@, i as int),
        decreases tb@.len() - i,
    {
        if tb[i] == 93 {
            return Some(i);
        }
        i = i + 1;
    }
    None
}

fn is_digit(c: u8) -> (r: bool)
    ensures
        r == is_digit_byte(c),
{
    48 <= c && c <= 57
}

/// Where the timestamp that starts a log line ends (see
/// `spec_timestamp_end`); the panel draws it dimmed.
pub fn timestamp_end(line: &str) -> (r: Option<usize>)
    requires
        line.spec_bytes().len() <= usize::MAX,
    ensures
        match r {
            Some(e) => spec_timestamp_end(line@) == Some(e as int),
            None => spec_timestamp_end(line@) is None,
        },
{
    let n = line.unicode_len();
    let mut a: usize = 0;
    while a < n && is_whitespace(line.get_char(a))
        invariant
            n == line@.len(),
            a <= n,
            forall|j: int| 0 <= j < a ==> unicode_white_space(#[trigger] line@[j]),
        decreases n - a,
    {
        a = a + 1;
    }
    proof {
        lemma_trim_start_skip(line@, a as int);
        if a < n {
            assert(!unicode_white_space(line@.skip(a as int)[0]));
        }
        assert(trim_start(line@.skip(a as int)) == line@.skip(a as int));
        lemma_encode_skip_len(line@, a as int);
    }
    let trimmed = line.substring_char(a, n);
    assert(trimmed@ =~= line@.skip(a as int));
    let tb = trimmed.as_bytes();
    let offset = line.len() - trimmed.len();
    let e: Option<usize> = if tb.len() >= 19 && is_digit(tb[0]) && is_digit(tb[1]) && is_digit(tb[2]) && is_digit(tb[3])
        && (tb[4] == 45 || tb[4] == 47) {
        match first_stamp_end_from(tb, 19) {
            Some(i) => Some(i + 1),
            None => if tb.len() <= 35 {
                None
            } else {
                Some(30)
            },
        }
    } else if tb.len() > 0 && tb[0] == 91 {
        match first_close_from(tb) {
            Some(end) => if end >= 6 && is_digit(tb[1]) {
                Some(end + 1)
            } else {
                None
            },
            None => None,
        }
    } else {
        None
    };
    assert(e matches Some(x) ==> spec_stamp_end(tb@) == Some(x as int) && x <= tb@.len());
    assert(e is None ==> spec_stamp_end(tb@) is None);
    match e {
        Some(x) => Some(offset + x),
        None => None,
    }
}

} // verus!
