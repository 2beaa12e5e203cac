//! Log streaming decisions: which containers get a log stream, under what
//! name, and the reconnect cursor that keeps a resumed stream from repeating
//! lines already delivered.
use vstd::prelude::*;
use vstd::string::*;
use crate::app::lists::trim_slashes;
use crate::collections::{views, StringSet};
use crate::model::{opt_view, ContainerSummary};
use crate::strings::{is_whitespace, str_eq, unicode_white_space};

verus! {

/// What a log stream reports: a line of a container, or the error that ended
/// the stream.
#[derive(Debug, Clone, PartialEq, Eq)]
pub enum LogEvent {
    Line { container_id: String, container_name: String, line: String },
    StreamError { container_id: String, message: String },
}

/// `s` without its leading white space.
pub open spec fn skip_ws(s: Seq<char>) -> Seq<char>
    decreases s.len(),
{
    if s.len() > 0 && unicode_white_space(s[0]) {
        skip_ws(s.drop_first())
    } else {
        s
    }
}

/// The characters of `s` up to its first white space.
pub open spec fn take_word(s: Seq<char>) -> Seq<char>
    decreases s.len(),
{
    if s.len() > 0 && !unicode_white_space(s[0]) {
        seq![s[0]] + take_word(s.drop_first())
    } else {
        Seq::empty()
    }
}

/// The first white-space separated word of `s`, if it has one.
pub open spec fn first_word(s: Seq<char>) -> Option<Seq<char>> {
    let rest = skip_ws(s);
    if rest.len() == 0 {
        None
    } else {
        Some(take_word(rest))
    }
}

/// The UNIX time, in whole seconds, of the RFC 3339 date and time `s`, or
/// `None` where `s` is not one.
pub uninterp spec fn rfc3339_seconds(s: Seq<char>) -> Option<i64>;

/// Calls chrono's `DateTime::parse_from_rfc3339` and, on success, the
/// parsed value's `timestamp`; the result is named `rfc3339_seconds`.
#[verifier::external_body]
fn parse_rfc3339_seconds(s: &str) -> (r: Option<i64>)
    ensures
        r == rfc3339_seconds(s@),
{
    match chrono::DateTime::parse_from_rfc3339(s) {
        Ok(t) => Some(t.timestamp()),
        Err(_) => None,
    }
}

/// A number of seconds as a cursor, where it fits in an `i32`.
pub open spec fn cursor_of(seconds: Option<i64>) -> Option<i32> {
    match seconds {
        Some(t) => if i32::MIN <= t <= i32::MAX {
            Some(t as i32)
        } else {
            None
        },
        None => None,
    }
}

/// The time stamp that leads a log line, in whole seconds.
pub open spec fn spec_log_timestamp(line: Seq<char>) -> Option<i32> {
    match first_word(line) {
        Some(w) => cursor_of(rfc3339_seconds(w)),
        None => None,
    }
}

/// The first white-space separated word of `s` (`split_whitespace().next()`).
pub fn first_word_of(s: &str) -> (r: Option<&str>)
    ensures
        r matches Some(w) ==> first_word(s@) == Some(w@),
        r is None ==> first_word(s@) is None,
{
    let n = s.unicode_len();
    let mut k: usize = 0;
    assert(s@.skip(0) =~= s@);
    while k < n && is_whitespace(s.get_char(k))
        invariant
            n == s@.len(),
            k <= n,
            skip_ws(s@) == skip_ws(s@.skip(k as int)),
        decreases n - k,
    {
        assert(s@.skip(k as int).drop_first() =~= s@.skip(k + 1));
        assert(s@.skip(k as int)[0] == s@[k as int]);
        k = k + 1;
    }
    if k == n {
        assert(s@.skip(k as int) =~= Seq::<char>::empty());
        return None;
    }
    assert(skip_ws(s@.skip(k as int)) == s@.skip(k as int));
    let mut j: usize = k;
    assert(s@.subrange(k as int, k as int) =~= Seq::<char>::empty());
    while j < n && !is_whitespace(s.get_char(j))
        invariant
            n == s@.len(),
            k <= j <= n,
            take_word(s@.skip(k as int)) == s@.subrange(k as int, j as int) + take_word(s@.skip(j as int)),
        decreases n - j,
    {
        assert(s@.skip(j as int).drop_first() =~= s@.skip(j + 1));
        assert(s@.skip(j as int)[0] == s@[j as int]);
        assert(s@.subrange(k as int, j + 1) =~= s@.subrange(k as int, j as int) + seq![s@[j as int]]);
        j = j + 1;
    }
    if j < n {
        assert(s@.skip(j as int)[0] == s@[j as int]);
    } else {
        assert(s@.skip(j as int) =~= Seq::<char>::empty());
    }
    assert(take_word(s@.skip(j as int)) =~= Seq::<char>::empty());
    assert(s@.subrange(k as int, j as int) + Seq::<char>::empty() =~= s@.subrange(k as int, j as int));
    Some(s.substring_char(k, j))
}

/// A number of seconds as a cursor, where it fits in an `i32`
/// (`i32::try_from(..).ok()`).
pub fn to_cursor(seconds: Option<i64>) -> (r: Option<i32>)
    ensures
        r == cursor_of(seconds),
{
    match seconds {
        Some(t) => if -2147483648i64 <= t && t <= 2147483647i64 {
            Some(t as i32)
        } else {
            None
        },
        None => None,
    }
}

/// The time stamp that leads a log line, in whole seconds, where the line
/// starts with an RFC 3339 date and time whose seconds fit in an `i32`.
pub fn log_timestamp(line: &str) -> (r: Option<i32>)
    ensures
        r == spec_log_timestamp(line@),
{
    match first_word_of(line) {
        Some(w) => to_cursor(parse_rfc3339_seconds(w)),
        None => None,
    }
}

/// Whether a line carries the cursor's second and was already delivered at it.
pub fn is_duplicate_at_cursor(line: &str, cursor: i32, seen: &StringSet) -> (r: bool)
    ensures
        r == (spec_log_timestamp(line@) == Some(cursor) && seen@.contains(line@)),
{
    match log_timestamp(line) {
        Some(t) => t == cursor && seen.contains(line),
        None => false,
    }
}

/// The cursor and the lines seen at it after a line has been delivered.
pub open spec fn spec_update_cursor(line: Seq<char>, cursor: i32, seen: Set<Seq<char>>) -> (i32, Set<Seq<char>>) {
    match spec_log_timestamp(line) {
        Some(t) => if t > cursor {
            (t, Set::empty().insert(line))
        } else if t == cursor {
            (cursor, seen.insert(line))
        } else {
            (cursor, seen)
        },
        None => (cursor, seen),
    }
}

/// Moves the cursor forward to a line's second, forgetting the lines of the
/// earlier second, and records the line if it stands at the cursor.
pub fn update_cursor(line: &str, cursor: &mut i32, seen: &mut StringSet)
    ensures
        (*final(cursor), final(seen)@) == spec_update_cursor(line@, *old(cursor), old(seen)@),
{
    let timestamp = match log_timestamp(line) {
        Some(t) => t,
        None => return,
    };
    if timestamp > *cursor {
        *cursor = timestamp;
        seen.clear();
    }
    if timestamp == *cursor {
        seen.insert(line.to_owned());
    }
}

/// The name under which a container's lines are shown: its first name
/// without leading slashes, else the first twelve characters of its id.
pub open spec fn spec_stream_name(c: ContainerSummary, id: Seq<char>) -> Seq<char> {
    match c.names {
        Some(ns) => if ns@.len() > 0 {
            trim_slashes(ns@[0]@)
        } else {
            id.take(if id.len() < 12 { id.len() as int } else { 12 })
        },
        None => id.take(if id.len() < 12 { id.len() as int } else { 12 }),
    }
}

/// The name under which a container's lines are shown.
pub fn stream_name(c: &ContainerSummary, id: &str) -> (r: String)
    ensures
        r@ == spec_stream_name(*c, id@),
{
    let n = id.unicode_len();
    let short = if n < 12 { n } else { 12 };
    assert(id@.subrange(0, short as int) =~= id@.take(short as int));
    match &c.names {
        Some(ns) => if ns.len() > 0 {
            crate::app::lists::trim_leading_slashes(ns[0].as_str()).to_owned()
        } else {
            id.substring_char(0, short).to_owned()
        },
        None => id.substring_char(0, short).to_owned(),
    }
}

/// The running containers that carry an id, in list order, each with the
/// name under which its lines are shown.
pub open spec fn spec_log_targets(s: Seq<ContainerSummary>) -> Seq<(Seq<char>, Seq<char>)>
    decreases s.len(),
{
    if s.len() == 0 {
        Seq::empty()
    } else {
        let prev = spec_log_targets(s.drop_last());
        let c = s.last();
        match opt_view(c.id) {
            Some(id) => if opt_view(c.state) == Some("running"@) {
                prev.push((id, spec_stream_name(c, id)))
            } else {
                prev
            },
            None => prev,
        }
    }
}

/// The containers that should have a log stream: the running ones with an
/// id, in list order, each as its id and its stream name.
pub fn log_targets(containers: &Vec<ContainerSummary>) -> (r: Vec<(String, String)>)
    ensures
        r@.map_values(|p: (String, String)| (p.0@, p.1@)) == spec_log_targets(containers@),
{
    let mut r: Vec<(String, String)> = Vec::new();
    let mut i: usize = 0;
    while i < containers.len()
        invariant
            i <= containers@.len(),
            r@.map_values(|p: (String, String)| (p.0@, p.1@)) == spec_log_targets(containers@.take(i as int)),
        decreases containers@.len() - i,
    {
        let c = &containers[i];
        let ghost before = r@;
        assert(containers@.take(i + 1).drop_last() =~= containers@.take(i as int));
        assert(containers@.take(i + 1).last() == containers@[i as int]);
        let running = match &c.state {
            Some(s) => str_eq(s.as_str(), "running"),
            None => false,
        };
        match &c.id {
            Some(id) => if running {
                let name = stream_name(c, id.as_str());
                r.push((id.clone(), name));
                assert(r@.map_values(|p: (String, String)| (p.0@, p.1@)) =~= before.map_values(|p: (String, String)| (p.0@, p.1@)).push((id@, spec_stream_name(*c, id@))));
            },
            None => {},
        }
        i = i + 1;
    }
    assert(containers@.take(i as int) =~= containers@);
    r
}

/// The log targets as plain values.
pub open spec fn target_views(targets: Seq<(String, String)>) -> Seq<(Seq<char>, Seq<char>)> {
    targets.map_values(|p: (String, String)| (p.0@, p.1@))
}

/// Whether `id` is the container of one of the log targets.
pub open spec fn is_log_target(targets: Seq<(Seq<char>, Seq<char>)>, id: Seq<char>) -> bool {
    exists|k: int| 0 <= k < targets.len() && #[trigger] targets[k].0 == id
}

/// Whether a sync keeps the log task of container `id`: only where the
/// container is still a target and the task has not ended. Every other task
/// is stopped, and a task is started for each target left without one.
pub fn keep_log_task(targets: &Vec<(String, String)>, id: &str, finished: bool) -> (r: bool)
    ensures
        r == (!finished && is_log_target(target_views(targets@), id@)),
{
    let ghost tv = target_views(targets@);
    if finished {
        return false;
    }
    let mut k: usize = 0;
    while k < targets.len()
        invariant
            tv == target_views(targets@),
            !finished,
            k <= targets@.len(),
            forall|j: int| 0 <= j < k ==> tv[j].0 != id@,
        decreases targets@.len() - k,
    {
        assert(tv[k as int].0 == targets@[k as int].0@);
        if str_eq(targets[k].0.as_str(), id) {
            assert(tv[k as int].0 == id@);
            return true;
        }
        k = k + 1;
    }
    false
}

/// The ids of the log targets.
pub open spec fn target_ids(targets: Seq<(Seq<char>, Seq<char>)>) -> Seq<Seq<char>> {
    targets.map_values(|p: (Seq<char>, Seq<char>)| p.0)
}

/// The targets that get a new log task, given the ids whose tasks were
/// kept: each target whose id has no task yet, once, at its first place.
pub open spec fn spec_tasks_to_start(targets: Seq<(Seq<char>, Seq<char>)>, kept: Seq<Seq<char>>) -> Seq<(Seq<char>, Seq<char>)>
    decreases targets.len(),
{
    if targets.len() == 0 {
        Seq::empty()
    } else {
        let prev = spec_tasks_to_start(targets.drop_last(), kept);
        let x = targets.last();
        if kept.contains(x.0) || target_ids(prev).contains(x.0) {
            prev
        } else {
            prev.push(x)
        }
    }
}

/// Whether `ids` holds `id`.
fn holds_id(ids: &Vec<String>, id: &str) -> (r: bool)
    ensures
        r == views(ids@).contains(id@),
{
    let mut k: usize = 0;
    while k < ids.len()
        invariant
            k <= ids@.len(),
            forall|j: int| 0 <= j < k ==> views(ids@)[j] != id@,
        decreases ids@.len() - k,
    {
        if str_eq(ids[k].as_str(), id) {
            assert(views(ids@)[k as int] == id@);
            return true;
        }
        k = k + 1;
    }
    false
}

/// The targets that get a new log task in a sync, given the ids whose tasks
/// were kept (see `spec_tasks_to_start`).
pub fn tasks_to_start(targets: &Vec<(String, String)>, kept: &Vec<String>) -> (r: Vec<(String, String)>)
    ensures
        target_views(r@) == spec_tasks_to_start(target_views(targets@), views(kept@)),
{
    let ghost tv = target_views(targets@);
    let mut r: Vec<(String, String)> = Vec::new();
    let mut started: Vec<String> = Vec::new();
    let mut i: usize = 0;
    while i < targets.len()
        invariant
            tv == target_views(targets@),
            i <= targets@.len(),
            target_views(r@) == spec_tasks_to_start(tv.take(i as int), views(kept@)),
            views(started@) == target_ids(target_views(r@)),
        decreases targets@.len() - i,
    {
        assert(tv.take(i + 1).drop_last() =~= tv.take(i as int));
        assert(tv.take(i + 1).last() == tv[i as int]);
        let id = targets[i].0.as_str();
        if !holds_id(kept, id) && !holds_id(&started, id) {
            let ghost before = target_views(r@);
            r.push((targets[i].0.clone(), targets[i].1.clone()));
            let ghost sb = views(started@);
            started.push(targets[i].0.clone());
            assert(target_views(r@) =~= before.push(tv[i as int]));
            assert(views(started@) =~= sb.push(tv[i as int].0));
            assert(target_ids(target_views(r@)) =~= target_ids(before).push(tv[i as int].0));
        }
        i = i + 1;
    }
    assert(tv.take(i as int) =~= tv);
    r
}

} // verus!
