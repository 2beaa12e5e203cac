//! The dependency graph of Compose services, laid out in levels: services
//! without dependencies first, then each service once everything it depends
//! on stands above it; services caught in a cycle come last, one per level.
use vstd::prelude::*;
use vstd::string::*;
use crate::collections::views;
use crate::strings::str_eq;

verus! {

/// Services as plain values: each name with the names it depends on.
pub open spec fn services_view(s: Seq<(String, Vec<String>)>) -> Seq<(Seq<char>, Seq<Seq<char>>)> {
    s.map_values(|e: (String, Vec<String>)| (e.0@, views(e.1@)))
}

/// The dependencies of service `n`: those of the last entry of that name.
pub open spec fn deps_of(s: Seq<(Seq<char>, Seq<Seq<char>>)>, n: Seq<char>) -> Option<Seq<Seq<char>>>
    decreases s.len(),
{
    if s.len() == 0 {
        None
    } else if s.last().0 == n {
        Some(s.last().1)
    } else {
        deps_of(s.drop_last(), n)
    }
}

/// The service names, in the order given.
pub open spec fn names_of(s: Seq<(Seq<char>, Seq<Seq<char>>)>) -> Seq<Seq<char>> {
    s.map_values(|e: (Seq<char>, Seq<Seq<char>>)| e.0)
}

/// Whether service `n` depends on nothing.
pub open spec fn is_root(s: Seq<(Seq<char>, Seq<Seq<char>>)>, n: Seq<char>) -> bool {
    match deps_of(s, n) {
        Some(d) => d.len() == 0,
        None => true,
    }
}

/// Whether everything service `n` depends on is placed.
pub open spec fn is_ready(s: Seq<(Seq<char>, Seq<Seq<char>>)>, placed: Seq<Seq<char>>, n: Seq<char>) -> bool {
    match deps_of(s, n) {
        Some(d) => forall|k: int| 0 <= k < d.len() ==> placed.contains(#[trigger] d[k]),
        None => true,
    }
}

/// The names among `names` without dependencies, in order.
pub open spec fn roots_among(s: Seq<(Seq<char>, Seq<Seq<char>>)>, names: Seq<Seq<char>>) -> Seq<Seq<char>>
    decreases names.len(),
{
    if names.len() == 0 {
        Seq::empty()
    } else {
        let prev = roots_among(s, names.drop_last());
        if is_root(s, names.last()) {
            prev.push(names.last())
        } else {
            prev
        }
    }
}

/// The names among `names` not yet placed whose dependencies all are, in
/// order.
pub open spec fn ready_among(s: Seq<(Seq<char>, Seq<Seq<char>>)>, names: Seq<Seq<char>>, placed: Seq<Seq<char>>) -> Seq<Seq<char>>
    decreases names.len(),
{
    if names.len() == 0 {
        Seq::empty()
    } else {
        let prev = ready_among(s, names.drop_last(), placed);
        let n = names.last();
        if !placed.contains(n) && is_ready(s, placed, n) {
            prev.push(n)
        } else {
            prev
        }
    }
}

/// Up to `rounds` further levels, each of the services that became ready;
/// stops at the first empty one.
pub open spec fn grow(
    s: Seq<(Seq<char>, Seq<Seq<char>>)>,
    levels: Seq<Seq<Seq<char>>>,
    placed: Seq<Seq<char>>,
    rounds: nat,
) -> (Seq<Seq<Seq<char>>>, Seq<Seq<char>>)
    decreases rounds,
{
    if rounds == 0 {
        (levels, placed)
    } else {
        let next = ready_among(s, names_of(s), placed);
        if next.len() == 0 {
            (levels, placed)
        } else {
            grow(s, levels.push(next), placed + next, (rounds - 1) as nat)
        }
    }
}

/// The services never placed, each on a level of its own, in order.
pub open spec fn leftovers(names: Seq<Seq<char>>, levels: Seq<Seq<Seq<char>>>, placed: Seq<Seq<char>>) -> Seq<Seq<Seq<char>>>
    decreases names.len(),
{
    if names.len() == 0 {
        levels
    } else if placed.contains(names[0]) {
        leftovers(names.drop_first(), levels, placed)
    } else {
        leftovers(names.drop_first(), levels.push(seq![names[0]]), placed.push(names[0]))
    }
}

/// The levels of the graph.
pub open spec fn graph_levels(s: Seq<(Seq<char>, Seq<Seq<char>>)>) -> Seq<Seq<Seq<char>>> {
    let roots = roots_among(s, names_of(s));
    let start = if roots.len() > 0 {
        (seq![roots], roots)
    } else {
        (Seq::empty(), Seq::empty())
    };
    let grown = grow(s, start.0, start.1, s.len());
    leftovers(names_of(s), grown.0, grown.1)
}

/// A level as one line: each service in brackets, three spaces between,
/// the selected service highlighted.
pub open spec fn render_level(level: Seq<Seq<char>>, selected: Option<Seq<char>>) -> Seq<(Seq<char>, bool)>
    decreases level.len(),
{
    if level.len() == 0 {
        Seq::empty()
    } else {
        let prev = render_level(level.drop_last(), selected);
        let item = ("["@ + level.last() + "]"@, selected == Some(level.last()));
        if level.len() > 1 {
            prev.push(("   "@, false)).push(item)
        } else {
            prev.push(item)
        }
    }
}

/// Whether a service of `below` depends on a service of `above`.
pub open spec fn has_arrows(s: Seq<(Seq<char>, Seq<Seq<char>>)>, above: Seq<Seq<char>>, below: Seq<Seq<char>>) -> bool {
    exists|j: int, k: int|
        0 <= j < below.len() && #[trigger] deps_of(s, below[j]) is Some && 0 <= k < deps_of(s, below[j]).unwrap().len()
            && above.contains(#[trigger] deps_of(s, below[j]).unwrap()[k])
}

/// The line of arrows drawn between two levels.
pub open spec fn arrow_line() -> Seq<(Seq<char>, bool)> {
    seq![("  │"@, false), ("  ▼"@, false)]
}

/// The lines for the first `i` levels: each level, then arrows where the next
/// level depends on it.
pub open spec fn render_upto(
    s: Seq<(Seq<char>, Seq<Seq<char>>)>,
    levels: Seq<Seq<Seq<char>>>,
    selected: Option<Seq<char>>,
    i: nat,
) -> Seq<Seq<(Seq<char>, bool)>>
    decreases i,
{
    if i == 0 {
        Seq::empty()
    } else {
        let k = (i - 1) as int;
        let with_line = render_upto(s, levels, selected, (i - 1) as nat).push(render_level(levels[k], selected));
        if k + 1 < levels.len() && has_arrows(s, levels[k], levels[k + 1]) {
            with_line.push(arrow_line())
        } else {
            with_line
        }
    }
}

/// The lines of the dependency graph.
pub open spec fn spec_graph_lines(s: Seq<(Seq<char>, Seq<Seq<char>>)>, selected: Option<Seq<char>>) -> Seq<Seq<(Seq<char>, bool)>> {
    if s.len() == 0 {
        seq![seq![("No services found"@, false)]]
    } else {
        let levels = graph_levels(s);
        render_upto(s, levels, selected, levels.len())
    }
}

/// The view of a rendered line.
pub open spec fn line_view(l: Vec<(String, bool)>) -> Seq<(Seq<char>, bool)> {
    l@.map_values(|p: (String, bool)| (p.0@, p.1))
}

/// The views of rendered lines.
pub open spec fn lines_view(ls: Seq<Vec<(String, bool)>>) -> Seq<Seq<(Seq<char>, bool)>> {
    ls.map_values(|l: Vec<(String, bool)>| line_view(l))
}

/// The views of levels.
pub open spec fn levels_view(ls: Seq<Vec<String>>) -> Seq<Seq<Seq<char>>> {
    ls.map_values(|l: Vec<String>| views(l@))
}

/// Whether `v` holds `s`.
fn holds(v: &Vec<String>, s: &str) -> (r: bool)
    ensures
        r == views(v@).contains(s@),
{
    let mut i: usize = 0;
    while i < v.len()
        invariant
            i <= v@.len(),
            forall|j: int| 0 <= j < i ==> views(v@)[j] != s@,
        decreases v@.len() - i,
    {
        if str_eq(v[i].as_str(), s) {
            assert(views(v@)[i as int] == s@);
            return true;
        }
        i = i + 1;
    }
    false
}

/// The dependencies of the service named `n`.
fn find_deps<'a>(services: &'a [(String, Vec<String>)], n: &str) -> (r: Option<&'a Vec<String>>)
    ensures
        match r {
            Some(d) => deps_of(services_view(services@), n@) == Some(views(d@)),
            None => deps_of(services_view(services@), n@) is None,
        },
{
    let ghost sv = services_view(services@);
    let mut i: usize = services.len();
    assert(sv.take(i as int) =~= sv);
    while i > 0
        invariant
            i <= services@.len(),
            sv == services_view(services@),
            deps_of(sv, n@) == deps_of(sv.take(i as int), n@),
        decreases i,
    {
        assert(sv.take(i as int).drop_last() =~= sv.take(i - 1));
        assert(sv.take(i as int).last() == sv[i - 1]);
        if str_eq(services[i - 1].0.as_str(), n) {
            return Some(&services[i - 1].1);
        }
        i = i - 1;
    }
    assert(sv.take(0) =~= Seq::<(Seq<char>, Seq<Seq<char>>)>::empty());
    None
}

/// Whether every dependency of `n` is placed.
fn ready(services: &[(String, Vec<String>)], placed: &Vec<String>, n: &str) -> (r: bool)
    ensures
        r == is_ready(services_view(services@), views(placed@), n@),
{
    match find_deps(services, n) {
        None => true,
        Some(d) => {
            let mut k: usize = 0;
            while k < d.len()
                invariant
                    k <= d@.len(),
                    deps_of(services_view(services@), n@) == Some(views(d@)),
                    forall|j: int| 0 <= j < k ==> views(placed@).contains(#[trigger] views(d@)[j]),
                decreases d@.len() - k,
            {
                if !holds(placed, d[k].as_str()) {
                    assert(!is_ready(services_view(services@), views(placed@), n@)) by {
                        let dd = deps_of(services_view(services@), n@).unwrap();
                        assert(dd == views(d@));
                        assert(!views(placed@).contains(dd[k as int]));
                    }
                    return false;
                }
                k = k + 1;
            }
            true
        },
    }
}

/// The names of the services.
fn service_names(services: &[(String, Vec<String>)]) -> (r: Vec<String>)
    ensures
        views(r@) == names_of(services_view(services@)),
{
    let mut r: Vec<String> = Vec::new();
    let mut i: usize = 0;
    while i < services.len()
        invariant
            i <= services@.len(),
            views(r@) == names_of(services_view(services@)).take(i as int),
        decreases services@.len() - i,
    {
        let ghost before = views(r@);
        r.push(services[i].0.clone());
        assert(views(r@) =~= before.push(services@[i as int].0@));
        assert(names_of(services_view(services@)).take(i + 1) =~= names_of(services_view(services@)).take(i as int).push(
            services@[i as int].0@,
        ));
        i = i + 1;
    }
    assert(names_of(services_view(services@)).take(i as int) =~= names_of(services_view(services@)));
    r
}

/// The services without dependencies, in order.
fn roots(services: &[(String, Vec<String>)], names: &Vec<String>) -> (r: Vec<String>)
    ensures
        views(r@) == roots_among(services_view(services@), views(names@)),
{
    let mut r: Vec<String> = Vec::new();
    let mut i: usize = 0;
    while i < names.len()
        invariant
            i <= names@.len(),
            views(r@) == roots_among(services_view(services@), views(names@).take(i as int)),
        decreases names@.len() - i,
    {
        assert(views(names@).take(i + 1).drop_last() =~= views(names@).take(i as int));
        assert(views(names@).take(i + 1).last() == names@[i as int]@);
        let root = match find_deps(services, names[i].as_str()) {
            Some(d) => d.len() == 0,
            None => true,
        };
        if root {
            let ghost before = views(r@);
            r.push(names[i].clone());
            assert(views(r@) =~= before.push(names@[i as int]@));
        }
        i = i + 1;
    }
    assert(views(names@).take(i as int) =~= views(names@));
    r
}

/// The services not yet placed whose dependencies all are, in order.
fn ready_level(services: &[(String, Vec<String>)], names: &Vec<String>, placed: &Vec<String>) -> (r: Vec<String>)
    ensures
        views(r@) == ready_among(services_view(services@), views(names@), views(placed@)),
{
    let mut r: Vec<String> = Vec::new();
    let mut i: usize = 0;
    while i < names.len()
        invariant
            i <= names@.len(),
            views(r@) == ready_among(services_view(services@), views(names@).take(i as int), views(placed@)),
        decreases names@.len() - i,
    {
        assert(views(names@).take(i + 1).drop_last() =~= views(names@).take(i as int));
        assert(views(names@).take(i + 1).last() == names@[i as int]@);
        if !holds(placed, names[i].as_str()) && ready(services, placed, names[i].as_str()) {
            let ghost before = views(r@);
            r.push(names[i].clone());
            assert(views(r@) =~= before.push(names@[i as int]@));
        }
        i = i + 1;
    }
    assert(views(names@).take(i as int) =~= views(names@));
    r
}

/// A copy of a list of strings.
fn copy_strings(v: &Vec<String>) -> (r: Vec<String>)
    ensures
        views(r@) == views(v@),
{
    let mut r: Vec<String> = Vec::new();
    let mut i: usize = 0;
    while i < v.len()
        invariant
            i <= v@.len(),
            views(r@) == views(v@).take(i as int),
        decreases v@.len() - i,
    {
        let ghost before = views(r@);
        r.push(v[i].clone());
        assert(views(r@) =~= before.push(v@[i as int]@));
        assert(views(v@).take(i + 1) =~= views(v@).take(i as int).push(v@[i as int]@));
        i = i + 1;
    }
    assert(views(v@).take(i as int) =~= views(v@));
    r
}

/// Appends a copy of `more` to `v`.
fn append_strings(v: &mut Vec<String>, more: &Vec<String>)
    ensures
        views(final(v)@) == views(old(v)@) + views(more@),
{
    let ghost start = views(v@);
    let mut i: usize = 0;
    assert(start + views(more@).take(0) =~= start);
    while i < more.len()
        invariant
            i <= more@.len(),
            views(v@) == start + views(more@).take(i as int),
        decreases more@.len() - i,
    {
        let ghost before = views(v@);
        v.push(more[i].clone());
        assert(views(v@) =~= before.push(more@[i as int]@));
        assert(start + views(more@).take(i + 1) =~= (start + views(more@).take(i as int)).push(more@[i as int]@));
        i = i + 1;
    }
    assert(views(more@).take(i as int) =~= views(more@));
}

/// The levels of the graph.
fn levels_of(services: &[(String, Vec<String>)]) -> (r: Vec<Vec<String>>)
    ensures
        levels_view(r@) == graph_levels(services_view(services@)),
{
    let ghost s = services_view(services@);
    let names = service_names(services);
    let first = roots(services, &names);
    let mut levels: Vec<Vec<String>> = Vec::new();
    let mut placed: Vec<String> = Vec::new();
    if first.len() > 0 {
        placed = copy_strings(&first);
        levels.push(first);
        assert(levels_view(levels@) =~= seq![roots_among(s, names_of(s))]);
    } else {
        assert(levels_view(levels@) =~= Seq::<Seq<Seq<char>>>::empty());
        assert(views(placed@) =~= Seq::<Seq<char>>::empty());
    }
    let ghost start = (levels_view(levels@), views(placed@));
    let mut rounds: usize = services.len();
    let mut stopped = false;
    while rounds > 0 && !stopped
        invariant
            s == services_view(services@),
            views(names@) == names_of(s),
            grow(s, start.0, start.1, s.len()) == (if stopped {
                (levels_view(levels@), views(placed@))
            } else {
                grow(s, levels_view(levels@), views(placed@), rounds as nat)
            }),
        decreases rounds + (if stopped { 0int } else { 1int }),
    {
        let next = ready_level(services, &names, &placed);
        if next.len() == 0 {
            stopped = true;
        } else {
            let ghost before_levels = levels_view(levels@);
            append_strings(&mut placed, &next);
            levels.push(next);
            assert(levels_view(levels@) =~= before_levels.push(views(next@)));
            rounds = rounds - 1;
        }
    }
    assert(grow(s, start.0, start.1, s.len()) == (levels_view(levels@), views(placed@)));
    let mut i: usize = 0;
    assert(views(names@).skip(0) =~= views(names@));
    while i < names.len()
        invariant
            s == services_view(services@),
            views(names@) == names_of(s),
            i <= names@.len(),
            graph_levels(s) == leftovers(views(names@).skip(i as int), levels_view(levels@), views(placed@)),
        decreases names@.len() - i,
    {
        assert(views(names@).skip(i as int)[0] == names@[i as int]@);
        assert(views(names@).skip(i as int).drop_first() =~= views(names@).skip(i + 1));
        if !holds(&placed, names[i].as_str()) {
            let ghost before_levels = levels_view(levels@);
            let ghost before_placed = views(placed@);
            let mut single: Vec<String> = Vec::new();
            single.push(names[i].clone());
            assert(views(single@) =~= seq![names@[i as int]@]);
            levels.push(single);
            placed.push(names[i].clone());
            assert(levels_view(levels@) =~= before_levels.push(seq![names@[i as int]@]));
            assert(views(placed@) =~= before_placed.push(names@[i as int]@));
        }
        i = i + 1;
    }
    assert(views(names@).skip(i as int) =~= Seq::<Seq<char>>::empty());
    levels
}

/// A level as one line.
fn render_level_line(level: &Vec<String>, selected: Option<&str>) -> (r: Vec<(String, bool)>)
    ensures
        line_view(r) == render_level(views(level@), match selected {
            Some(s) => Some(s@),
            None => None,
        }),
{
    let ghost sel = match selected {
        Some(s) => Some(s@),
        None => None,
    };
    let mut r: Vec<(String, bool)> = Vec::new();
    let mut j: usize = 0;
    assert(line_view(r) =~= Seq::<(Seq<char>, bool)>::empty());
    while j < level.len()
        invariant
            j <= level@.len(),
            sel == (match selected {
                Some(s) => Some(s@),
                None => None,
            }),
            line_view(r) == render_level(views(level@).take(j as int), sel),
        decreases level@.len() - j,
    {
        let ghost before = line_view(r);
        assert(views(level@).take(j + 1).drop_last() =~= views(level@).take(j as int));
        assert(views(level@).take(j + 1).last() == level@[j as int]@);
        if j > 0 {
            r.push(("   ".to_owned(), false));
        }
        let name = level[j].as_str();
        let text = "[".to_owned().concat(name).concat("]");
        let is_selected = match selected {
            Some(s) => str_eq(s, name),
            None => false,
        };
        r.push((text, is_selected));
        proof {
            let item = ("["@ + level@[j as int]@ + "]"@, sel == Some(level@[j as int]@));
            if j > 0 {
                assert(line_view(r) =~= before.push(("   "@, false)).push(item));
            } else {
                assert(line_view(r) =~= before.push(item));
            }
        }
        j = j + 1;
    }
    assert(views(level@).take(j as int) =~= views(level@));
    r
}

/// Whether a service of `below` depends on a service of `above`.
fn arrows_between(services: &[(String, Vec<String>)], above: &Vec<String>, below: &Vec<String>) -> (r: bool)
    ensures
        r == has_arrows(services_view(services@), views(above@), views(below@)),
{
    let ghost s = services_view(services@);
    let mut j: usize = 0;
    while j < below.len()
        invariant
            s == services_view(services@),
            j <= below@.len(),
            forall|jj: int, k: int|
                0 <= jj < j && #[trigger] deps_of(s, views(below@)[jj]) is Some && 0 <= k < deps_of(s, views(below@)[jj]).unwrap().len()
                    ==> !views(above@).contains(#[trigger] deps_of(s, views(below@)[jj]).unwrap()[k]),
        decreases below@.len() - j,
    {
        match find_deps(services, below[j].as_str()) {
            Some(d) => {
                let mut k: usize = 0;
                while k < d.len()
                    invariant
                        s == services_view(services@),
                        j < below@.len(),
                        k <= d@.len(),
                        deps_of(s, views(below@)[j as int]) == Some(views(d@)),
                        forall|kk: int| 0 <= kk < k ==> !views(above@).contains(#[trigger] views(d@)[kk]),
                    decreases d@.len() - k,
                {
                    if holds(above, d[k].as_str()) {
                        assert(deps_of(s, views(below@)[j as int]).unwrap()[k as int] == views(d@)[k as int]);
                        assert(has_arrows(s, views(above@), views(below@)));
                        return true;
                    }
                    k = k + 1;
                }
            },
            None => {},
        }
        j = j + 1;
    }
    false
}

/// The lines of the dependency graph of `services`, each a list of texts with
/// whether they are highlighted: one line per level, a line of arrows under a
/// level that the next one depends on.
pub fn build_graph_lines(services: &[(String, Vec<String>)], selected: Option<&str>) -> (r: Vec<Vec<(String, bool)>>)
    ensures
        lines_view(r@) == spec_graph_lines(services_view(services@), match selected {
            Some(s) => Some(s@),
            None => None,
        }),
{
    let ghost sel = match selected {
        Some(s) => Some(s@),
        None => None,
    };
    let ghost s = services_view(services@);
    if services.len() == 0 {
        let mut line: Vec<(String, bool)> = Vec::new();
        line.push(("No services found".to_owned(), false));
        assert(line_view(line) =~= seq![("No services found"@, false)]);
        let mut r: Vec<Vec<(String, bool)>> = Vec::new();
        r.push(line);
        assert(lines_view(r@) =~= seq![seq![("No services found"@, false)]]);
        return r;
    }
    let levels = levels_of(services);
    let ghost lv = levels_view(levels@);
    let mut lines: Vec<Vec<(String, bool)>> = Vec::new();
    let mut i: usize = 0;
    assert(lines_view(lines@) =~= Seq::<Seq<(Seq<char>, bool)>>::empty());
    while i < levels.len()
        invariant
            s == services_view(services@),
            lv == levels_view(levels@),
            sel == (match selected {
                Some(x) => Some(x@),
                None => None,
            }),
            i <= levels@.len(),
            lines_view(lines@) == render_upto(s, lv, sel, i as nat),
        decreases levels@.len() - i,
    {
        let ghost before = lines_view(lines@);
        let line = render_level_line(&levels[i], selected);
        lines.push(line);
        assert(lines_view(lines@) =~= before.push(render_level(lv[i as int], sel)));
        if i + 1 < levels.len() && arrows_between(services, &levels[i], &levels[i + 1]) {
            let ghost mid = lines_view(lines@);
            let mut arrows: Vec<(String, bool)> = Vec::new();
            arrows.push(("  │".to_owned(), false));
            arrows.push(("  ▼".to_owned(), false));
            assert(line_view(arrows) =~= arrow_line());
            lines.push(arrows);
            assert(lines_view(lines@) =~= mid.push(arrow_line()));
        }
        i = i + 1;
    }
    lines
}

} // verus!
