//! The text of the container details panel: names, short id and port
//! mappings.
use vstd::prelude::*;
use vstd::string::*;
use crate::app::lists::{trim_leading_slashes, trim_slashes};
use crate::dispatch::{decimal, decimal_string};
use crate::model::{ContainerPort, ContainerSummary};

verus! {

/// `parts` joined with `sep` between each two.
pub open spec fn join(parts: Seq<Seq<char>>, sep: Seq<char>) -> Seq<char>
    decreases parts.len(),
{
    if parts.len() == 0 {
        Seq::empty()
    } else if parts.len() == 1 {
        parts[0]
    } else {
        join(parts.drop_last(), sep) + sep + parts.last()
    }
}

/// Appends `part` to a join of the parts before it.
fn join_push(acc: &mut String, part: &str, first: bool)
    requires
        first ==> old(acc)@.len() == 0,
    ensures
        final(acc)@ == (if first { part@ } else { old(acc)@ + ", "@ + part@ }),
{
    if first {
        acc.append(part);
        assert(old(acc)@ + part@ =~= part@);
    } else {
        acc.append(", ");
        acc.append(part);
    }
}

/// A container's names without leading slashes, joined with commas, or
/// `N/A`.
pub open spec fn spec_names_text(c: ContainerSummary) -> Seq<char> {
    match c.names {
        Some(ns) => join(ns@.map_values(|n: String| trim_slashes(n@)), ", "@),
        None => "N/A"@,
    }
}

pub fn names_text(c: &ContainerSummary) -> (r: String)
    ensures
        r@ == spec_names_text(*c),
{
    match &c.names {
        None => "N/A".to_owned(),
        Some(ns) => {
            let ghost parts = ns@.map_values(|n: String| trim_slashes(n@));
            let mut r = String::new();
            let mut i: usize = 0;
            while i < ns.len()
                invariant
                    i <= ns@.len(),
                    parts == ns@.map_values(|n: String| trim_slashes(n@)),
                    r@ == join(parts.take(i as int), ", "@),
                decreases ns@.len() - i,
            {
                assert(parts.take(i + 1).drop_last() =~= parts.take(i as int));
                assert(parts.take(i + 1).last() == parts[i as int]);
                if i == 0 {
                    assert(parts.take(0).len() == 0);
                }
                join_push(&mut r, trim_leading_slashes(ns[i].as_str()), i == 0);
                if i == 0 {
                    assert(parts.take(1) =~= seq![parts[0]]);
                }
                i = i + 1;
            }
            assert(parts.take(i as int) =~= parts);
            r
        },
    }
}

/// The first twelve characters of the container id, or `N/A`.
pub open spec fn spec_short_id(c: ContainerSummary) -> Seq<char> {
    let id = match c.id {
        Some(s) => s@,
        None => "N/A"@,
    };
    id.take(if id.len() < 12 { id.len() as int } else { 12 })
}

pub fn short_id(c: &ContainerSummary) -> (r: String)
    ensures
        r@ == spec_short_id(*c),
{
    let id: &str = match &c.id {
        Some(s) => s.as_str(),
        None => "N/A",
    };
    let n = id.unicode_len();
    let k = if n < 12 { n } else { 12 };
    assert(id@.subrange(0, k as int) =~= id@.take(k as int));
    id.substring_char(0, k).to_owned()
}

/// A port mapping as `ip:public->private/type`, or `private/type` where it
/// is not published; the address defaults to `0.0.0.0`.
pub open spec fn spec_port_text(p: ContainerPort) -> Seq<char> {
    let typ = match p.typ {
        Some(t) => "/"@ + t@,
        None => Seq::empty(),
    };
    match p.public_port {
        Some(public) => (match p.ip {
            Some(ip) => ip@,
            None => "0.0.0.0"@,
        }) + ":"@ + decimal(public as nat) + "->"@ + decimal(p.private_port as nat) + typ,
        None => decimal(p.private_port as nat) + typ,
    }
}

pub fn port_text(p: &ContainerPort) -> (r: String)
    ensures
        r@ == spec_port_text(*p),
{
    let typ = match &p.typ {
        Some(t) => "/".to_owned().concat(t.as_str()),
        None => String::new(),
    };
    let private = decimal_string(p.private_port as u64);
    match p.public_port {
        Some(public) => {
            let ip: &str = match &p.ip {
                Some(ip) => ip.as_str(),
                None => "0.0.0.0",
            };
            ip.to_owned().concat(":").concat(decimal_string(public as u64).as_str()).concat("->").concat(
                private.as_str(),
            ).concat(typ.as_str())
        },
        None => private.concat(typ.as_str()),
    }
}

/// A container's port mappings joined with commas, or `None`.
pub open spec fn spec_ports_text(c: ContainerSummary) -> Seq<char> {
    match c.ports {
        Some(ps) => join(ps@.map_values(|p: ContainerPort| spec_port_text(p)), ", "@),
        None => "None"@,
    }
}

pub fn ports_text(c: &ContainerSummary) -> (r: String)
    ensures
        r@ == spec_ports_text(*c),
{
    match &c.ports {
        None => "None".to_owned(),
        Some(ps) => {
            let ghost parts = ps@.map_values(|p: ContainerPort| spec_port_text(p));
            let mut r = String::new();
            let mut i: usize = 0;
            while i < ps.len()
                invariant
                    i <= ps@.len(),
                    parts == ps@.map_values(|p: ContainerPort| spec_port_text(p)),
                    r@ == join(parts.take(i as int), ", "@),
                decreases ps@.len() - i,
            {
                assert(parts.take(i + 1).drop_last() =~= parts.take(i as int));
                assert(parts.take(i + 1).last() == parts[i as int]);
                let text = port_text(&ps[i]);
                join_push(&mut r, text.as_str(), i == 0);
                if i == 0 {
                    assert(parts.take(1) =~= seq![parts[0]]);
                }
                i = i + 1;
            }
            assert(parts.take(i as int) =~= parts);
            r
        },
    }
}

} // verus!
