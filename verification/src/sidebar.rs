//! The text the sidebar and the status bar show: shortened names and
//! statuses, container counts, and the colour of a status message.
use vstd::prelude::*;
use vstd::string::*;
use crate::model::{opt_view, ContainerSummary};
use crate::strings::{contains, contains_seq, is_prefix, occurs_at, replace, replace_all, starts_with, str_eq};
use crate::theme::{Color, Theme};

verus! {

/// `name` cut to `max` characters, the last of them an ellipsis, where it is
/// longer.
pub open spec fn spec_truncate_name(name: Seq<char>, max: nat) -> Seq<char> {
    if name.len() > max {
        name.take(if max > 0 { max - 1 } else { 0 }).push('…')
    } else {
        name
    }
}

pub fn truncate_name(name: &str, max: usize) -> (r: String)
    ensures
        r@ == spec_truncate_name(name@, max as nat),
{
    let n = name.unicode_len();
    if n > max {
        let keep = if max > 0 { max - 1 } else { 0 };
        assert(name@.subrange(0, keep as int) =~= name@.take(keep as int));
        let mut r = name.substring_char(0, keep).to_owned();
        crate::strings::push_char(&mut r, '…');
        r
    } else {
        name.to_owned()
    }
}

/// The durations of a status, abbreviated: `About an hour` to `1h`, minutes
/// to `m`, hours to `h`, days to `d`, weeks to `w`, seconds to `s`, and
/// `ago` dropped.
#[verifier::opaque]
pub open spec fn spec_abbreviate(s: Seq<char>) -> Seq<char> {
    let s1 = replace_all(s, "About an hour"@, "1h"@);
    let s2 = replace_all(s1, "About a minute"@, "1m"@);
    let s3 = replace_all(s2, " minutes"@, "m"@);
    let s4 = replace_all(s3, " minute"@, "m"@);
    let s5 = replace_all(s4, " hours"@, "h"@);
    let s6 = replace_all(s5, " hour"@, "h"@);
    let s7 = replace_all(s6, " days"@, "d"@);
    let s8 = replace_all(s7, " day"@, "d"@);
    let s9 = replace_all(s8, " weeks"@, "w"@);
    let s10 = replace_all(s9, " week"@, "w"@);
    let s11 = replace_all(s10, " seconds"@, "s"@);
    let s12 = replace_all(s11, " second"@, "s"@);
    replace_all(s12, " ago"@, ""@)
}

fn abbreviate(s: &str) -> (r: String)
    ensures
        r@ == spec_abbreviate(s@),
{
    proof {
        reveal(spec_abbreviate);
        reveal_strlit("About an hour");
        reveal_strlit("About a minute");
        reveal_strlit(" minutes");
        reveal_strlit(" minute");
        reveal_strlit(" hours");
        reveal_strlit(" hour");
        reveal_strlit(" days");
        reveal_strlit(" day");
        reveal_strlit(" weeks");
        reveal_strlit(" week");
        reveal_strlit(" seconds");
        reveal_strlit(" second");
        reveal_strlit(" ago");
    }
    let s1 = replace(s, "About an hour", "1h");
    let s2 = replace(s1.as_str(), "About a minute", "1m");
    let s3 = replace(s2.as_str(), " minutes", "m");
    let s4 = replace(s3.as_str(), " minute", "m");
    let s5 = replace(s4.as_str(), " hours", "h");
    let s6 = replace(s5.as_str(), " hour", "h");
    let s7 = replace(s6.as_str(), " days", "d");
    let s8 = replace(s7.as_str(), " day", "d");
    let s9 = replace(s8.as_str(), " weeks", "w");
    let s10 = replace(s9.as_str(), " week", "w");
    let s11 = replace(s10.as_str(), " seconds", "s");
    let s12 = replace(s11.as_str(), " second", "s");
    replace(s12.as_str(), " ago", "")
}

/// The first position where `p` occurs in `s`.
pub open spec fn first_occurrence(s: Seq<char>, p: Seq<char>) -> Option<int> {
    if exists|i: int| #[trigger] occurs_at(s, p, i) {
        Some(choose|i: int| #[trigger] occurs_at(s, p, i) && forall|j: int| 0 <= j < i ==> !#[trigger] occurs_at(s, p, j))
    } else {
        None
    }
}

/// A container status as the sidebar shows it: `Up 5 minutes` as `up 5m`,
/// `Exited (0) 2 hours ago` as `(0) 2h`; any other status as it is.
pub open spec fn spec_shorten_status(status: Seq<char>) -> Seq<char> {
    if is_prefix("Up "@, status) {
        "up "@ + spec_abbreviate(status.skip(3))
    } else if is_prefix("Exited ("@, status) {
        match first_occurrence(status, ") "@) {
            Some(end) => if end >= 7 {
                status.subrange(7, end + 1) + " "@ + spec_abbreviate(status.skip(end + 2))
            } else {
                status
            },
            None => status,
        }
    } else {
        status
    }
}

/// Where `") "` first occurs in `s`.
fn find_close_paren(s: &str) -> (r: Option<usize>)
    ensures
        match r {
            Some(i) => first_occurrence(s@, ") "@) == Some(i as int) && i + 2 <= s@.len(),
            None => first_occurrence(s@, ") "@) is None,
        },
{
    proof {
        reveal_strlit(") ");
    }
    let ghost p = ") "@;
    assert(p.len() == 2 && p[0] == ')' && p[1] == ' ');
    let n = s.unicode_len();
    let mut i: usize = 0;
    while n >= 2 && i < n - 1
        invariant
            n == s@.len(),
            i <= n,
            p == ") "@,
            p.len() == 2 && p[0] == ')' && p[1] == ' ',
            forall|j: int| 0 <= j < i ==> !#[trigger] occurs_at(s@, p, j),
        decreases n - i,
    {
        if s.get_char(i) == ')' && s.get_char(i + 1) == ' ' {
            assert(s@.subrange(i as int, i + 2) =~= p);
            assert(occurs_at(s@, p, i as int));
            let ghost w = choose|k: int| #[trigger] occurs_at(s@, p, k) && forall|j: int| 0 <= j < k ==> !#[trigger] occurs_at(s@, p, j);
            assert(w == i) by {
                if w < i {
                    assert(!occurs_at(s@, p, w));
                }
                if w > i {
                    assert(!occurs_at(s@, p, i as int));
                }
            }
            return Some(i);
        }
        assert(!occurs_at(s@, p, i as int)) by {
            if occurs_at(s@, p, i as int) {
                assert(s@.subrange(i as int, i + 2)[0] == s@[i as int]);
                assert(s@.subrange(i as int, i + 2)[1] == s@[i + 1]);
            }
        }
        i = i + 1;
    }
    assert forall|k: int| !#[trigger] occurs_at(s@, p, k) by {
        if k >= i && occurs_at(s@, p, k) {
            assert(k + 2 <= n);
        }
    }
    None
}

/// A container status, shortened for the sidebar.
#[verifier::rlimit(30)]
pub fn shorten_status(status: &str) -> (r: String)
    ensures
        r@ == spec_shorten_status(status@),
{
    let n = status.unicode_len();
    if starts_with(status, "Up ") {
        proof {
            reveal_strlit("Up ");
        }
        assert(status@.subrange(3, n as int) =~= status@.skip(3));
        let body = abbreviate(status.substring_char(3, n));
        return "up ".to_owned().concat(body.as_str());
    }
    if starts_with(status, "Exited (") {
        proof {
            reveal_strlit("Exited (");
        }
        match find_close_paren(status) {
            Some(end) => {
                if end >= 7 {
                    let code = status.substring_char(7, end + 1);
                    assert(status@.subrange(end + 2, n as int) =~= status@.skip(end + 2));
                    let rest = abbreviate(status.substring_char(end + 2, n));
                    return code.to_owned().concat(" ").concat(rest.as_str());
                } else {
                    return status.to_owned();
                }
            },
            None => return status.to_owned(),
        }
    }
    status.to_owned()
}

/// The colour of a status message: success for prunes and starts, error for
/// errors and failures, else the header accent.
pub open spec fn spec_status_color(msg: Seq<char>, t: Theme) -> Color {
    if contains_seq(msg, "pruned"@) || contains_seq(msg, "Started"@) {
        t.ok
    } else if contains_seq(msg, "Error"@) || contains_seq(msg, "Failed"@) {
        t.err
    } else {
        t.accent_header
    }
}

pub fn status_color(msg: &str, t: &Theme) -> (r: Color)
    ensures
        r == spec_status_color(msg@, *t),
{
    if contains(msg, "pruned") || contains(msg, "Started") {
        t.ok
    } else if contains(msg, "Error") || contains(msg, "Failed") {
        t.err
    } else {
        t.accent_header
    }
}

/// How many of the containers are running.
pub open spec fn running_count(s: Seq<ContainerSummary>) -> nat
    decreases s.len(),
{
    if s.len() == 0 {
        0
    } else {
        running_count(s.drop_last()) + if opt_view(s.last().state) == Some("running"@) {
            1nat
        } else {
            0nat
        }
    }
}

/// The running and the other containers, as the status bar counts them.
pub fn container_counts(containers: &Vec<ContainerSummary>) -> (r: (usize, usize))
    ensures
        r.0 == running_count(containers@),
        r.0 + r.1 == containers@.len(),
{
    let mut running: usize = 0;
    let mut i: usize = 0;
    while i < containers.len()
        invariant
            i <= containers@.len(),
            running == running_count(containers@.take(i as int)),
            running <= i,
        decreases containers@.len() - i,
    {
        assert(containers@.take(i + 1).drop_last() =~= containers@.take(i as int));
        assert(containers@.take(i + 1).last() == containers@[i as int]);
        let is_running = match &containers[i].state {
            Some(s) => str_eq(s.as_str(), "running"),
            None => false,
        };
        if is_running {
            running = running + 1;
        }
        i = i + 1;
    }
    assert(containers@.take(i as int) =~= containers@);
    (running, containers.len() - running)
}

/// The length of the rule after a section label in a sidebar `width` wide:
/// what is left after the label and three spaces.
pub fn header_rule_len(label: &str, width: usize) -> (r: usize)
    ensures
        r == (if width > label@.len() + 3 { width - label@.len() - 3 } else { 0 }),
{
    let n = label.unicode_len();
    if n < width && width - n > 3 {
        width - n - 3
    } else {
        0
    }
}

} // verus!
