//! The rows of the details panel: a container's summary fields, what its
//! inspection adds (command, mounts, labels, health checks), and an image's
//! fields.
use vstd::prelude::*;
use vstd::string::*;
use crate::dispatch::{decimal, decimal_string};
use crate::info::{join, names_text, ports_text, short_id, spec_names_text, spec_ports_text, spec_short_id};
use crate::model::{ContainerSummary, ImageSummary};
use crate::strings::{is_whitespace, seq_lt, str_lt, unicode_white_space};

verus! {

/// A mount of a container, as plain text.
#[derive(Debug, Clone, Default)]
pub struct MountInfo {
    /// The mount's type as the daemon names it (`BIND`, `VOLUME`, ...).
    pub typ: Option<String>,
    pub source: Option<String>,
    pub destination: Option<String>,
    pub rw: Option<bool>,
}

/// One run of a container's health check.
#[derive(Debug, Clone, Default)]
pub struct HealthCheck {
    pub exit_code: Option<i64>,
    /// When the check started, as an RFC 3339 text.
    pub start: Option<String>,
    pub output: Option<String>,
}

/// A container's health: its status as the daemon names it, and its recent
/// checks, oldest first.
#[derive(Debug, Clone, Default)]
pub struct HealthInfo {
    pub status: Option<String>,
    pub log: Option<Vec<HealthCheck>>,
}

/// What an inspection of a container adds to its summary. Absent texts and
/// lists are empty.
#[derive(Debug, Clone, Default)]
pub struct InspectInfo {
    pub cmd: Vec<String>,
    pub entrypoint: Vec<String>,
    pub working_dir: String,
    pub hostname: String,
    pub platform: String,
    /// The name of the restart policy, where one is set.
    pub restart_policy: Option<String>,
    pub mounts: Vec<MountInfo>,
    /// The labels, each key once.
    pub labels: Vec<(String, String)>,
    pub health: Option<HealthInfo>,
}

/// How a row of the details panel is shown.
#[derive(Debug, Clone, Copy, PartialEq, Eq, Structural)]
pub enum RowKind {
    /// A field and its value.
    Field,
    /// The container state, coloured by what it says.
    State,
    /// An empty row between sections.
    Blank,
    /// The title of a section.
    Section,
    /// An entry of a section.
    Detail,
    /// The health status, coloured by what it says.
    Health,
    /// A health check run; whether it passed.
    Check(bool),
}

/// A row of the details panel.
#[derive(Debug, Clone)]
pub struct InfoRow {
    pub label: String,
    pub value: String,
    pub kind: RowKind,
}

/// A row as plain values.
pub type RowView = (Seq<char>, Seq<char>, RowKind);

pub open spec fn row_view(r: InfoRow) -> RowView {
    (r.label@, r.value@, r.kind)
}

pub open spec fn rows_view(rs: Seq<InfoRow>) -> Seq<RowView> {
    rs.map_values(|r: InfoRow| row_view(r))
}

/// The text of an optional value, or a default.
pub open spec fn text_or(s: Option<String>, d: Seq<char>) -> Seq<char> {
    match s {
        Some(v) => v@,
        None => d,
    }
}

/// A field row, where the value is not empty.
pub open spec fn nonempty_row(label: Seq<char>, value: Seq<char>) -> Seq<RowView> {
    if value.len() > 0 {
        seq![(label, value, RowKind::Field)]
    } else {
        Seq::empty()
    }
}

pub open spec fn blank_row() -> RowView {
    (Seq::empty(), Seq::empty(), RowKind::Blank)
}

/// The texts of a list of strings.
pub open spec fn texts(v: Seq<String>) -> Seq<Seq<char>> {
    v.map_values(|s: String| s@)
}

/// The rows the inspection adds before the ports.
pub open spec fn inspect_field_rows(i: InspectInfo) -> Seq<RowView> {
    nonempty_row(" Command"@, join(texts(i.cmd@), " "@)) + nonempty_row(
        " Entrypoint"@,
        join(texts(i.entrypoint@), " "@),
    ) + nonempty_row(" WorkingDir"@, i.working_dir@) + nonempty_row(" Hostname"@, i.hostname@) + nonempty_row(
        " Platform"@,
        i.platform@,
    ) + match i.restart_policy {
        Some(p) => seq![(" Restart"@, p@, RowKind::Field)],
        None => Seq::empty(),
    }
}

/// A mount as `source -> destination (rw|ro)` under its type.
pub open spec fn mount_row(m: MountInfo) -> RowView {
    (
        "  "@ + text_or(m.typ, "?"@),
        text_or(m.source, "?"@) + " -> "@ + text_or(m.destination, "?"@) + " ("@ + (if m.rw != Some(false) {
            "rw"@
        } else {
            "ro"@
        }) + ")"@,
        RowKind::Detail,
    )
}

pub open spec fn mount_rows(ms: Seq<MountInfo>) -> Seq<RowView> {
    if ms.len() > 0 {
        seq![blank_row(), (" Mounts"@, Seq::empty(), RowKind::Section)] + ms.map_values(|m: MountInfo| mount_row(m))
    } else {
        Seq::empty()
    }
}

/// A label as plain values.
pub type LabelView = (Seq<char>, Seq<char>);

pub open spec fn label_views(ls: Seq<(String, String)>) -> Seq<LabelView> {
    ls.map_values(|l: (String, String)| (l.0@, l.1@))
}

/// Places `x` before the first label of `out` whose key is greater.
pub open spec fn insert_label(out: Seq<LabelView>, x: LabelView) -> Seq<LabelView>
    decreases out.len(),
{
    if out.len() == 0 {
        seq![x]
    } else if seq_lt(x.0, out[0].0) {
        seq![x] + out
    } else {
        seq![out[0]] + insert_label(out.drop_first(), x)
    }
}

/// The labels ordered by key, labels of equal keys in their order.
pub open spec fn label_sort(s: Seq<LabelView>) -> Seq<LabelView>
    decreases s.len(),
{
    if s.len() == 0 {
        Seq::empty()
    } else {
        insert_label(label_sort(s.drop_last()), s.last())
    }
}

pub open spec fn label_row(l: LabelView) -> RowView {
    ("  "@ + l.0, l.1, RowKind::Detail)
}

pub open spec fn label_rows(ls: Seq<(String, String)>) -> Seq<RowView> {
    if ls.len() > 0 {
        seq![blank_row(), (" Labels"@, Seq::empty(), RowKind::Section)] + label_sort(label_views(ls)).map_values(
            |l: LabelView| label_row(l),
        )
    } else {
        Seq::empty()
    }
}

/// `s` without leading white space.
pub open spec fn trim_start(s: Seq<char>) -> Seq<char>
    decreases s.len(),
{
    if s.len() > 0 && unicode_white_space(s[0]) {
        trim_start(s.drop_first())
    } else {
        s
    }
}

/// `s` without trailing white space.
pub open spec fn trim_end(s: Seq<char>) -> Seq<char>
    decreases s.len(),
{
    if s.len() > 0 && unicode_white_space(s.last()) {
        trim_end(s.drop_last())
    } else {
        s
    }
}

/// `s` without white space at either end (`str::trim`).
pub open spec fn spec_trim(s: Seq<char>) -> Seq<char> {
    trim_end(trim_start(s))
}

/// The time of day of an RFC 3339 stamp (its characters 11 to 19), or the
/// whole text where it is not longer than 19.
pub open spec fn check_time(s: Seq<char>) -> Seq<char> {
    if s.len() > 19 {
        s.subrange(11, 19)
    } else {
        s
    }
}

/// A check's output cut to 39 characters and an ellipsis where it is longer
/// than 40.
pub open spec fn short_output(s: Seq<char>) -> Seq<char> {
    if s.len() > 40 {
        s.take(39) + "…"@
    } else {
        s
    }
}

pub open spec fn check_row(c: HealthCheck) -> RowView {
    let ok = c.exit_code == Some(0i64);
    (
        "  "@ + (if ok { "✓"@ } else { "✗"@ }) + " "@ + check_time(text_or(c.start, Seq::empty())),
        short_output(spec_trim(text_or(c.output, Seq::empty()))),
        RowKind::Check(ok),
    )
}

/// The five most recent checks, newest first.
pub open spec fn recent_checks(log: Seq<HealthCheck>) -> Seq<HealthCheck> {
    log.reverse().take(if log.len() < 5 { log.len() as int } else { 5 })
}

pub open spec fn health_rows(h: Option<HealthInfo>) -> Seq<RowView> {
    match h {
        Some(h) => seq![blank_row(), (" Health"@, text_or(h.status, "unknown"@), RowKind::Health)] + match h.log {
            Some(log) => seq![(" Checks"@, decimal(log@.len()) + " recent"@, RowKind::Field)] + recent_checks(
                log@,
            ).map_values(|c: HealthCheck| check_row(c)),
            None => Seq::empty(),
        },
        None => Seq::empty(),
    }
}

/// The rows of the details panel for a container: its summary fields, what
/// its inspection adds where there is one, its ports, mounts, labels and
/// health, and when it was created (`created`, already formatted).
pub open spec fn spec_info_rows(c: ContainerSummary, i: Option<InspectInfo>, created: Seq<char>) -> Seq<RowView> {
    summary_rows(c) + match i {
        Some(i) => inspect_field_rows(i),
        None => Seq::empty(),
    } + seq![(" Ports"@, spec_ports_text(c), RowKind::Field)] + match i {
        Some(i) => mount_rows(i.mounts@) + label_rows(i.labels@) + health_rows(i.health),
        None => Seq::empty(),
    } + seq![blank_row(), (" Created"@, created, RowKind::Field)]
}

/// Appends a row.
fn push_row(r: &mut Vec<InfoRow>, label: &str, value: String, kind: RowKind)
    ensures
        rows_view(final(r)@) == rows_view(old(r)@).push((label@, value@, kind)),
{
    let ghost before = r@;
    r.push(InfoRow { label: label.to_owned(), value, kind });
    assert(rows_view(r@) =~= rows_view(before).push((label@, value@, kind)));
}

/// Appends a field row where the value is not empty.
fn push_nonempty(r: &mut Vec<InfoRow>, label: &str, value: String)
    ensures
        rows_view(final(r)@) == rows_view(old(r)@) + nonempty_row(label@, value@),
{
    if !value.as_str().is_empty() {
        push_row(r, label, value, RowKind::Field);
    } else {
        assert(rows_view(r@) + nonempty_row(label@, value@) =~= rows_view(r@));
    }
}

/// The parts joined with single spaces.
fn join_spaced(parts: &Vec<String>) -> (r: String)
    ensures
        r@ == join(texts(parts@), " "@),
{
    let ghost ts = texts(parts@);
    let mut r = String::new();
    let mut i: usize = 0;
    while i < parts.len()
        invariant
            i <= parts@.len(),
            ts == texts(parts@),
            r@ == join(ts.take(i as int), " "@),
        decreases parts@.len() - i,
    {
        assert(ts.take(i + 1).drop_last() =~= ts.take(i as int));
        assert(ts.take(i + 1).last() == parts@[i as int]@);
        if i == 0 {
            r.append(parts[i].as_str());
            assert(ts.take(1) =~= seq![ts[0]]);
            assert(r@ =~= parts@[0]@);
        } else {
            r.append(" ");
            r.append(parts[i].as_str());
        }
        i = i + 1;
    }
    assert(ts.take(i as int) =~= ts);
    r
}

pub(crate) proof fn lemma_trim_start_skip(s: Seq<char>, a: int)
    requires
        0 <= a <= s.len(),
        forall|j: int| 0 <= j < a ==> unicode_white_space(#[trigger] s[j]),
    ensures
        trim_start(s) == trim_start(s.skip(a)),
    decreases a,
{
    if a > 0 {
        assert(s.skip(1).skip(a - 1) =~= s.skip(a));
        assert forall|j: int| 0 <= j < a - 1 implies unicode_white_space(#[trigger] s.skip(1)[j]) by {
            assert(s.skip(1)[j] == s[j + 1]);
        }
        lemma_trim_start_skip(s.skip(1), a - 1);
        assert(s.drop_first() =~= s.skip(1));
    } else {
        assert(s.skip(0) =~= s);
    }
}

proof fn lemma_trim_end_take(s: Seq<char>, b: int)
    requires
        0 <= b <= s.len(),
        forall|j: int| b <= j < s.len() ==> unicode_white_space(#[trigger] s[j]),
    ensures
        trim_end(s) == trim_end(s.take(b)),
    decreases s.len() - b,
{
    if b < s.len() {
        let t = s.drop_last();
        assert forall|j: int| b <= j < t.len() implies unicode_white_space(#[trigger] t[j]) by {
            assert(t[j] == s[j]);
        }
        lemma_trim_end_take(t, b);
        assert(t.take(b) =~= s.take(b));
    } else {
        assert(s.take(b) =~= s);
    }
}

/// `s` without white space at either end.
fn trim(s: &str) -> (r: String)
    ensures
        r@ == spec_trim(s@),
{
    let n = s.unicode_len();
    let mut a: usize = 0;
    while a < n && is_whitespace(s.get_char(a))
        invariant
            n == s@.len(),
            a <= n,
            forall|j: int| 0 <= j < a ==> unicode_white_space(#[trigger] s@[j]),
        decreases n - a,
    {
        a = a + 1;
    }
    proof {
        lemma_trim_start_skip(s@, a as int);
    }
    let mut b: usize = n;
    while b > a && is_whitespace(s.get_char(b - 1))
        invariant
            n == s@.len(),
            a <= b <= n,
            forall|j: int| b <= j < n ==> unicode_white_space(#[trigger] s@[j]),
        decreases b - a,
    {
        b = b - 1;
    }
    let ghost t = s@.skip(a as int);
    proof {
        assert forall|j: int| b - a <= j < t.len() implies unicode_white_space(#[trigger] t[j]) by {
            assert(t[j] == s@[j + a]);
        }
        lemma_trim_end_take(t, b - a);
        assert(t.take(b - a) =~= s@.subrange(a as int, b as int));
        if a < n {
            assert(!unicode_white_space(s@[a as int]));
            assert(trim_start(t) == t);
        } else {
            assert(t.len() == 0);
        }
        if b > a {
            assert(!unicode_white_space(s@[b - 1]));
            assert(trim_end(s@.subrange(a as int, b as int)) == s@.subrange(a as int, b as int));
        }
    }
    s.substring_char(a, b).to_owned()
}

proof fn lemma_insert_label(out: Seq<LabelView>, x: LabelView, p: int)
    requires
        0 <= p <= out.len(),
        forall|j: int| 0 <= j < p ==> !seq_lt(x.0, #[trigger] out[j].0),
        p < out.len() ==> seq_lt(x.0, out[p].0),
    ensures
        insert_label(out, x) == out.insert(p, x),
    decreases out.len(),
{
    if out.len() == 0 {
        assert(out.insert(p, x) =~= seq![x]);
    } else if p == 0 {
        assert(out.insert(0, x) =~= seq![x] + out);
    } else {
        assert forall|j: int| 0 <= j < p - 1 implies !seq_lt(x.0, #[trigger] out.drop_first()[j].0) by {
            assert(out.drop_first()[j] == out[j + 1]);
        }
        lemma_insert_label(out.drop_first(), x, p - 1);
        assert(out.insert(p, x) =~= seq![out[0]] + out.drop_first().insert(p - 1, x));
    }
}

/// The positions of the labels in key order.
fn label_order(ls: &Vec<(String, String)>) -> (order: Vec<usize>)
    ensures
        forall|k: int| 0 <= k < order@.len() ==> #[trigger] order@[k] < ls@.len(),
        order@.map_values(|k: usize| label_views(ls@)[k as int]) == label_sort(label_views(ls@)),
{
    let ghost lv = label_views(ls@);
    let mut order: Vec<usize> = Vec::new();
    let mut i: usize = 0;
    assert(lv.take(0) =~= Seq::<LabelView>::empty());
    while i < ls.len()
        invariant
            lv == label_views(ls@),
            i <= ls@.len(),
            forall|k: int| 0 <= k < order@.len() ==> #[trigger] order@[k] < i,
            order@.map_values(|k: usize| lv[k as int]) == label_sort(lv.take(i as int)),
        decreases ls@.len() - i,
    {
        let ghost placed = order@.map_values(|k: usize| lv[k as int]);
        let key = ls[i].0.as_str();
        let mut p: usize = 0;
        while p < order.len() && !str_lt(key, ls[order[p]].0.as_str())
            invariant
                lv == label_views(ls@),
                i < ls@.len(),
                p <= order@.len(),
                placed == order@.map_values(|k: usize| lv[k as int]),
                key@ == lv[i as int].0,
                forall|k: int| 0 <= k < order@.len() ==> #[trigger] order@[k] < i,
                forall|j: int| 0 <= j < p ==> !seq_lt(key@, #[trigger] placed[j].0),
            decreases order@.len() - p,
        {
            assert(placed[p as int] == lv[order@[p as int] as int]);
            p = p + 1;
        }
        proof {
            if p < order@.len() {
                assert(placed[p as int] == lv[order@[p as int] as int]);
            }
            lemma_insert_label(placed, lv[i as int], p as int);
            assert(lv.take(i + 1).drop_last() =~= lv.take(i as int));
            assert(lv.take(i + 1).last() == lv[i as int]);
        }
        order.insert(p, i);
        proof {
            assert(order@.map_values(|k: usize| lv[k as int]) =~= placed.insert(p as int, lv[i as int]));
        }
        i = i + 1;
    }
    assert(lv.take(i as int) =~= lv);
    order
}

/// Appends the rows of the labels, ordered by key.
fn push_label_rows(r: &mut Vec<InfoRow>, ls: &Vec<(String, String)>)
    ensures
        rows_view(final(r)@) == rows_view(old(r)@) + label_rows(ls@),
{
    if ls.len() == 0 {
        assert(rows_view(r@) + label_rows(ls@) =~= rows_view(r@));
        return;
    }
    let ghost start = rows_view(r@);
    proof {
        reveal_strlit("");
        assert(""@ =~= Seq::<char>::empty());
    }
    let e1 = String::new();
    let e2 = String::new();
    assert(e1@ =~= Seq::<char>::empty());
    assert(e2@ =~= Seq::<char>::empty());
    push_row(r, "", e1, RowKind::Blank);
    push_row(r, " Labels", e2, RowKind::Section);
    let order = label_order(ls);
    let ghost sorted = label_sort(label_views(ls@));
    let ghost head = start + seq![blank_row(), (" Labels"@, Seq::<char>::empty(), RowKind::Section)];
    assert(rows_view(r@) =~= head);
    let mut k: usize = 0;
    while k < order.len()
        invariant
            k <= order@.len(),
            sorted == label_sort(label_views(ls@)),
            order@.map_values(|j: usize| label_views(ls@)[j as int]) == sorted,
            forall|j: int| 0 <= j < order@.len() ==> #[trigger] order@[j] < ls@.len(),
            rows_view(r@) == head + sorted.take(k as int).map_values(|l: LabelView| label_row(l)),
        decreases order@.len() - k,
    {
        let l = &ls[order[k]];
        proof {
            assert(sorted[k as int] == label_views(ls@)[order@[k as int] as int]);
        }
        let label = "  ".to_owned().concat(l.0.as_str());
        push_row(r, label.as_str(), l.1.clone(), RowKind::Detail);
        proof {
            assert(sorted.take(k + 1).map_values(|l: LabelView| label_row(l)) =~= sorted.take(k as int).map_values(
                |l: LabelView| label_row(l),
            ).push(label_row(sorted[k as int])));
        }
        k = k + 1;
    }
    proof {
        assert(sorted.len() == order@.len());
        assert(sorted.take(k as int) =~= sorted);
        assert(rows_view(r@) =~= start + label_rows(ls@));
    }
}

/// The text of an optional string, or a default.
fn text_or_default<'a>(s: &'a Option<String>, d: &'a str) -> (r: &'a str)
    ensures
        r@ == text_or(*s, d@),
{
    match s {
        Some(v) => v.as_str(),
        None => d,
    }
}

/// Appends an empty row and a section title.
fn push_section(r: &mut Vec<InfoRow>, title: &str)
    ensures
        rows_view(final(r)@) == rows_view(old(r)@) + seq![blank_row(), (title@, Seq::<char>::empty(), RowKind::Section)],
{
    let ghost start = rows_view(r@);
    proof {
        reveal_strlit("");
        assert(""@ =~= Seq::<char>::empty());
    }
    let e1 = String::new();
    let e2 = String::new();
    assert(e1@ =~= Seq::<char>::empty());
    assert(e2@ =~= Seq::<char>::empty());
    push_row(r, "", e1, RowKind::Blank);
    push_row(r, title, e2, RowKind::Section);
    assert(rows_view(r@) =~= start + seq![blank_row(), (title@, Seq::<char>::empty(), RowKind::Section)]);
}

/// Appends the rows of the mounts.
fn push_mount_rows(r: &mut Vec<InfoRow>, ms: &Vec<MountInfo>)
    ensures
        rows_view(final(r)@) == rows_view(old(r)@) + mount_rows(ms@),
{
    if ms.len() == 0 {
        assert(rows_view(r@) + mount_rows(ms@) =~= rows_view(r@));
        return;
    }
    let ghost start = rows_view(r@);
    push_section(r, " Mounts");
    let ghost head = rows_view(r@);
    let mut k: usize = 0;
    while k < ms.len()
        invariant
            k <= ms@.len(),
            rows_view(r@) == head + ms@.take(k as int).map_values(|m: MountInfo| mount_row(m)),
        decreases ms@.len() - k,
    {
        let m = &ms[k];
        let label = "  ".to_owned().concat(text_or_default(&m.typ, "?"));
        let rw = match m.rw {
            Some(false) => "ro",
            _ => "rw",
        };
        let value = text_or_default(&m.source, "?").to_owned().concat(" -> ").concat(
            text_or_default(&m.destination, "?"),
        ).concat(" (").concat(rw).concat(")");
        push_row(r, label.as_str(), value, RowKind::Detail);
        proof {
            assert(ms@.take(k + 1).map_values(|m: MountInfo| mount_row(m)) =~= ms@.take(k as int).map_values(
                |m: MountInfo| mount_row(m),
            ).push(mount_row(ms@[k as int])));
        }
        k = k + 1;
    }
    proof {
        assert(ms@.take(k as int) =~= ms@);
        assert(rows_view(r@) =~= start + mount_rows(ms@));
    }
}

/// The row of a health check run.
fn check_info_row(c: &HealthCheck) -> (r: InfoRow)
    ensures
        row_view(r) == check_row(*c),
{
    let ok = match c.exit_code {
        Some(code) => code == 0,
        None => false,
    };
    let start = text_or_default(&c.start, "");
    proof {
        reveal_strlit("");
        assert(""@ =~= Seq::<char>::empty());
    }
    let n = start.unicode_len();
    let time: &str = if n > 19 {
        start.substring_char(11, 19)
    } else {
        start
    };
    let label = "  ".to_owned().concat(if ok { "✓" } else { "✗" }).concat(" ").concat(time);
    let output = trim(text_or_default(&c.output, ""));
    let m = output.as_str().unicode_len();
    let value = if m > 40 {
        let cut = output.as_str().substring_char(0, 39).to_owned();
        assert(output@.subrange(0, 39) =~= output@.take(39));
        cut.concat("…")
    } else {
        output
    };
    InfoRow { label, value, kind: RowKind::Check(ok) }
}

/// Appends the rows of the container's health, where it reports one.
fn push_health_rows(r: &mut Vec<InfoRow>, h: &Option<HealthInfo>)
    ensures
        rows_view(final(r)@) == rows_view(old(r)@) + health_rows(*h),
{
    let ghost start = rows_view(r@);
    match h {
        None => {
            assert(rows_view(r@) + health_rows(*h) =~= rows_view(r@));
        },
        Some(health) => {
            let e1 = String::new();
            proof {
                reveal_strlit("");
                assert(""@ =~= Seq::<char>::empty());
            }
            assert(e1@ =~= Seq::<char>::empty());
            push_row(r, "", e1, RowKind::Blank);
            push_row(r, " Health", text_or_default(&health.status, "unknown").to_owned(), RowKind::Health);
            let ghost head = start + seq![blank_row(), (" Health"@, text_or(health.status, "unknown"@), RowKind::Health)];
            assert(rows_view(r@) =~= head);
            match &health.log {
                None => {
                    assert(rows_view(r@) =~= start + health_rows(*h));
                },
                Some(log) => {
                    let count = decimal_string(log.len() as u64).concat(" recent");
                    push_row(r, " Checks", count, RowKind::Field);
                    let ghost head2 = rows_view(r@);
                    let ghost recent = recent_checks(log@);
                    let n = log.len();
                    let limit: usize = if n < 5 { n } else { 5 };
                    let mut k: usize = 0;
                    while k < limit
                        invariant
                            n == log@.len(),
                            limit <= n,
                            limit == recent.len(),
                            recent == recent_checks(log@),
                            k <= limit,
                            rows_view(r@) == head2 + recent.take(k as int).map_values(|c: HealthCheck| check_row(c)),
                        decreases limit - k,
                    {
                        let row = check_info_row(&log[n - 1 - k]);
                        proof {
                            assert(recent[k as int] == log@[n - 1 - k]);
                        }
                        let ghost before = rows_view(r@);
                        r.push(row);
                        proof {
                            assert(rows_view(r@) =~= before.push(row_view(row)));
                            assert(recent.take(k + 1).map_values(|c: HealthCheck| check_row(c)) =~= recent.take(
                                k as int,
                            ).map_values(|c: HealthCheck| check_row(c)).push(check_row(recent[k as int])));
                        }
                        k = k + 1;
                    }
                    proof {
                        assert(recent.take(k as int) =~= recent);
                        assert(rows_view(r@) =~= start + health_rows(*h));
                    }
                },
            }
        },
    }
}

/// Appends the fields that an inspection adds before the ports.
fn push_inspect_fields(r: &mut Vec<InfoRow>, x: &InspectInfo)
    ensures
        rows_view(final(r)@) == rows_view(old(r)@) + inspect_field_rows(*x),
{
    let ghost head = rows_view(r@);
    push_nonempty(r, " Command", join_spaced(&x.cmd));
    push_nonempty(r, " Entrypoint", join_spaced(&x.entrypoint));
    push_nonempty(r, " WorkingDir", x.working_dir.clone());
    push_nonempty(r, " Hostname", x.hostname.clone());
    push_nonempty(r, " Platform", x.platform.clone());
    match &x.restart_policy {
        Some(p) => push_row(r, " Restart", p.clone(), RowKind::Field),
        None => {},
    }
    assert(rows_view(r@) =~= head + inspect_field_rows(*x));
}

/// Appends the sections that an inspection adds after the ports.
fn push_inspect_sections(r: &mut Vec<InfoRow>, x: &InspectInfo)
    ensures
        rows_view(final(r)@) == rows_view(old(r)@) + (mount_rows(x.mounts@) + label_rows(x.labels@) + health_rows(
            x.health,
        )),
{
    let ghost mid = rows_view(r@);
    push_mount_rows(r, &x.mounts);
    push_label_rows(r, &x.labels);
    push_health_rows(r, &x.health);
    assert(rows_view(r@) =~= mid + (mount_rows(x.mounts@) + label_rows(x.labels@) + health_rows(x.health)));
}

/// The summary fields of a container.
pub open spec fn summary_rows(c: ContainerSummary) -> Seq<RowView> {
    seq![
        (" Name"@, spec_names_text(c), RowKind::Field),
        (" ID"@, spec_short_id(c), RowKind::Field),
        (" Image"@, text_or(c.image, "N/A"@), RowKind::Field),
        (" State"@, text_or(c.state, "N/A"@), RowKind::State),
        (" Status"@, text_or(c.status, "N/A"@), RowKind::Field),
    ]
}

fn push_summary_rows(r: &mut Vec<InfoRow>, c: &ContainerSummary)
    ensures
        rows_view(final(r)@) == rows_view(old(r)@) + summary_rows(*c),
{
    let ghost head = rows_view(r@);
    push_row(r, " Name", names_text(c), RowKind::Field);
    push_row(r, " ID", short_id(c), RowKind::Field);
    push_row(r, " Image", text_or_default(&c.image, "N/A").to_owned(), RowKind::Field);
    push_row(r, " State", text_or_default(&c.state, "N/A").to_owned(), RowKind::State);
    push_row(r, " Status", text_or_default(&c.status, "N/A").to_owned(), RowKind::Field);
    assert(rows_view(r@) =~= head + summary_rows(*c));
}

/// The rows of the details panel for a container (see `spec_info_rows`);
/// `created` is when it was created, already formatted.
pub fn info_rows(c: &ContainerSummary, i: Option<&InspectInfo>, created: &str) -> (r: Vec<InfoRow>)
    ensures
        rows_view(r@) == spec_info_rows(
            *c,
            match i {
                Some(x) => Some(*x),
                None => None,
            },
            created@,
        ),
{
    let ghost ii = match i {
        Some(x) => Some(*x),
        None => None,
    };
    let mut r: Vec<InfoRow> = Vec::new();
    push_summary_rows(&mut r, c);
    let ghost a = rows_view(r@);
    assert(a =~= summary_rows(*c));
    let ghost b = match ii {
        Some(x) => inspect_field_rows(x),
        None => Seq::<RowView>::empty(),
    };
    match i {
        Some(x) => push_inspect_fields(&mut r, x),
        None => {},
    }
    assert(rows_view(r@) =~= a + b);
    push_row(&mut r, " Ports", ports_text(c), RowKind::Field);
    let ghost d = match ii {
        Some(x) => mount_rows(x.mounts@) + label_rows(x.labels@) + health_rows(x.health),
        None => Seq::<RowView>::empty(),
    };
    let ghost abc = rows_view(r@);
    match i {
        Some(x) => push_inspect_sections(&mut r, x),
        None => {},
    }
    assert(rows_view(r@) =~= abc + d);
    let e1 = String::new();
    proof {
        reveal_strlit("");
        assert(""@ =~= Seq::<char>::empty());
    }
    assert(e1@ =~= Seq::<char>::empty());
    push_row(&mut r, "", e1, RowKind::Blank);
    push_row(&mut r, " Created", created.to_owned(), RowKind::Field);
    assert(rows_view(r@) =~= spec_info_rows(*c, ii, created@));
    r
}

/// The first tag of an image, or `<none>`.
pub open spec fn image_tag(i: ImageSummary) -> Seq<char> {
    if i.repo_tags@.len() > 0 {
        i.repo_tags@[0]@
    } else {
        "<none>"@
    }
}

/// The rows of the details panel for an image: its tag, the start of its id
/// (19 characters), its size and when it was created, the last two already
/// formatted.
pub open spec fn spec_image_rows(i: ImageSummary, size: Seq<char>, created: Seq<char>) -> Seq<RowView> {
    seq![
        (" Tag"@, image_tag(i), RowKind::Field),
        (" ID"@, i.id@.take(if i.id@.len() < 19 { i.id@.len() as int } else { 19 }), RowKind::Field),
        (" Size"@, size, RowKind::Field),
        (" Created"@, created, RowKind::Field),
    ]
}

/// The rows of the details panel for an image (see `spec_image_rows`).
pub fn image_rows(i: &ImageSummary, size: &str, created: &str) -> (r: Vec<InfoRow>)
    ensures
        rows_view(r@) == spec_image_rows(*i, size@, created@),
{
    let mut r: Vec<InfoRow> = Vec::new();
    let tag: &str = if i.repo_tags.len() > 0 {
        i.repo_tags[0].as_str()
    } else {
        "<none>"
    };
    push_row(&mut r, " Tag", tag.to_owned(), RowKind::Field);
    let n = i.id.as_str().unicode_len();
    let k = if n < 19 { n } else { 19 };
    let id = i.id.as_str().substring_char(0, k).to_owned();
    assert(i.id@.subrange(0, k as int) =~= i.id@.take(k as int));
    push_row(&mut r, " ID", id, RowKind::Field);
    push_row(&mut r, " Size", size.to_owned(), RowKind::Field);
    push_row(&mut r, " Created", created.to_owned(), RowKind::Field);
    assert(rows_view(r@) =~= spec_image_rows(*i, size@, created@));
    r
}

} // verus!
