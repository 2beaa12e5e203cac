//! The sidebar lists: the order of containers, the selection that survives a
//! refresh, the targets of container actions and the filtered views.
use vstd::prelude::*;
use vstd::string::*;
use crate::app::{App, AppView};
use crate::collections::views;
use crate::filter::{filter_positions, spec_filter_positions};
use crate::model::{opt_view, ContainerSummary, ImageSummary, Network, Volume};
use crate::strings::{seq_lt, str_eq, str_lt, to_lowercase, unicode_lowercase};

verus! {

/// `s` without its leading slashes (`trim_start_matches('/')`).
pub open spec fn trim_slashes(s: Seq<char>) -> Seq<char>
    decreases s.len(),
{
    if s.len() > 0 && s[0] == '/' {
        trim_slashes(s.drop_first())
    } else {
        s
    }
}

/// A container's display name: its first name without leading slashes, or
/// the empty string.
pub open spec fn display_name(c: ContainerSummary) -> Seq<char> {
    match c.names {
        Some(ns) => if ns@.len() > 0 {
            trim_slashes(ns@[0]@)
        } else {
            Seq::empty()
        },
        None => Seq::empty(),
    }
}

/// Where a state sorts: running, restarting, paused, created, exited, others.
pub open spec fn state_rank(state: Option<Seq<char>>) -> int {
    match state {
        Some(s) => if s == "running"@ {
            0
        } else if s == "restarting"@ {
            1
        } else if s == "paused"@ {
            2
        } else if s == "created"@ {
            3
        } else if s == "exited"@ {
            4
        } else {
            5
        },
        None => 5,
    }
}

/// The sort key of a container: pinned first, then by state, then by
/// lower-cased display name.
pub struct SortKey {
    pub pinned: bool,
    pub rank: u8,
    pub name: String,
}

pub open spec fn spec_sort_key(c: ContainerSummary, pinned: Set<Seq<char>>) -> (bool, int, Seq<char>) {
    (
        match opt_view(c.id) {
            Some(id) => pinned.contains(id),
            None => false,
        },
        state_rank(opt_view(c.state)),
        unicode_lowercase(display_name(c)),
    )
}

/// The strict order of sort keys.
pub open spec fn key_lt(a: (bool, int, Seq<char>), b: (bool, int, Seq<char>)) -> bool {
    if a.0 != b.0 {
        a.0
    } else if a.1 != b.1 {
        a.1 < b.1
    } else {
        seq_lt(a.2, b.2)
    }
}

/// `out` with `x` inserted after every element whose key is not greater.
pub open spec fn insert_sorted(out: Seq<ContainerSummary>, x: ContainerSummary, pinned: Set<Seq<char>>) -> Seq<ContainerSummary>
    decreases out.len(),
{
    if out.len() == 0 {
        seq![x]
    } else if key_lt(spec_sort_key(x, pinned), spec_sort_key(out[0], pinned)) {
        seq![x] + out
    } else {
        seq![out[0]] + insert_sorted(out.drop_first(), x, pinned)
    }
}

/// The containers stably sorted by key: equal keys keep their order.
pub open spec fn container_sort(s: Seq<ContainerSummary>, pinned: Set<Seq<char>>) -> Seq<ContainerSummary>
    decreases s.len(),
{
    if s.len() == 0 {
        Seq::empty()
    } else {
        insert_sorted(container_sort(s.drop_last(), pinned), s.last(), pinned)
    }
}

/// `s` without its leading slashes.
pub fn trim_leading_slashes(s: &str) -> (r: &str)
    ensures
        r@ == trim_slashes(s@),
{
    let n = s.unicode_len();
    let mut k: usize = 0;
    assert(s@.skip(0) =~= s@);
    while k < n && s.get_char(k) == '/'
        invariant
            n == s@.len(),
            k <= n,
            trim_slashes(s@) == trim_slashes(s@.skip(k as int)),
        decreases n - k,
    {
        assert(s@.skip(k as int).drop_first() =~= s@.skip(k + 1));
        assert(s@.skip(k as int)[0] == s@[k as int]);
        k = k + 1;
    }
    assert(s@.subrange(k as int, n as int) =~= s@.skip(k as int));
    s.substring_char(k, n)
}

/// The display name of a container.
pub fn container_display_name(c: &ContainerSummary) -> (r: &str)
    ensures
        r@ == display_name(*c),
{
    proof {
        reveal_strlit("");
    }
    match &c.names {
        Some(ns) => if ns.len() > 0 {
            trim_leading_slashes(ns[0].as_str())
        } else {
            ""
        },
        None => "",
    }
}

/// The rank of a container state.
fn rank_of(state: &Option<String>) -> (r: u8)
    ensures
        r as int == state_rank(opt_view(*state)),
{
    match state {
        Some(s) => if str_eq(s.as_str(), "running") {
            0
        } else if str_eq(s.as_str(), "restarting") {
            1
        } else if str_eq(s.as_str(), "paused") {
            2
        } else if str_eq(s.as_str(), "created") {
            3
        } else if str_eq(s.as_str(), "exited") {
            4
        } else {
            5
        },
        None => 5,
    }
}

impl SortKey {
    pub open spec fn view(self) -> (bool, int, Seq<char>) {
        (self.pinned, self.rank as int, self.name@)
    }

    fn lt(&self, other: &SortKey) -> (r: bool)
        ensures
            r == key_lt(self.view(), other.view()),
    {
        if self.pinned != other.pinned {
            self.pinned
        } else if self.rank != other.rank {
            self.rank < other.rank
        } else {
            str_lt(self.name.as_str(), other.name.as_str())
        }
    }
}

proof fn lemma_insert_sorted(out: Seq<ContainerSummary>, x: ContainerSummary, pinned: Set<Seq<char>>, p: int)
    requires
        0 <= p <= out.len(),
        forall|j: int| 0 <= j < p ==> !key_lt(spec_sort_key(x, pinned), spec_sort_key(#[trigger] out[j], pinned)),
        p < out.len() ==> key_lt(spec_sort_key(x, pinned), spec_sort_key(out[p], pinned)),
    ensures
        insert_sorted(out, x, pinned) == out.insert(p, x),
    decreases out.len(),
{
    if out.len() == 0 {
        assert(out.insert(p, x) =~= seq![x]);
    } else if p == 0 {
        assert(out.insert(0, x) =~= seq![x] + out);
    } else {
        assert forall|j: int| 0 <= j < p - 1 implies !key_lt(spec_sort_key(x, pinned), spec_sort_key(#[trigger] out.drop_first()[j], pinned)) by {
            assert(out.drop_first()[j] == out[j + 1]);
        }
        lemma_insert_sorted(out.drop_first(), x, pinned, p - 1);
        assert(out.insert(p, x) =~= seq![out[0]] + out.drop_first().insert(p - 1, x));
    }
}

/// How an image is named to the daemon: its first tag, else its id.
pub open spec fn image_reference(i: ImageSummary) -> Seq<char> {
    if i.repo_tags@.len() > 0 {
        i.repo_tags@[0]@
    } else {
        i.id@
    }
}

/// The reference of the selected image, when the selection is in the image
/// list and on an item.
pub open spec fn spec_selected_image_reference(v: AppView) -> Option<Seq<char>> {
    if v.sidebar_section == crate::app::SidebarSection::Images && v.selected_index < v.images.len() {
        Some(image_reference(v.images[v.selected_index as int]))
    } else {
        None
    }
}

impl App {
    /// The reference (first tag, else id) of the selected image.
    pub fn selected_image_reference(&self) -> (r: Option<&str>)
        ensures
            match r {
                Some(s) => spec_selected_image_reference(self@) == Some(s@),
                None => spec_selected_image_reference(self@) is None,
            },
    {
        if self.sidebar_section == crate::app::SidebarSection::Images && self.selected_index < self.images.len() {
            let image = &self.images[self.selected_index];
            if image.repo_tags.len() > 0 {
                Some(image.repo_tags[0].as_str())
            } else {
                Some(image.id.as_str())
            }
        } else {
            None
        }
    }

    fn sort_key(&self, c: &ContainerSummary) -> (r: SortKey)
        ensures
            r.view() == spec_sort_key(*c, self.pinned_containers@),
    {
        let pinned = match &c.id {
            Some(id) => self.pinned_containers.contains(id.as_str()),
            None => false,
        };
        let rank = rank_of(&c.state);
        let name = to_lowercase(container_display_name(c));
        SortKey { pinned, rank, name }
    }

    /// Orders the containers: pinned first, then running, restarting, paused,
    /// created, exited and the rest, then by lower-cased name; containers
    /// that tie keep their order.
    pub fn sort_containers(&mut self)
        ensures
            final(self)@ == (AppView {
                containers: container_sort(old(self)@.containers, old(self)@.pinned_containers),
                ..old(self)@
            }),
    {
        let ghost pinned = self.pinned_containers@;
        let ghost orig = self.containers@;
        let mut src: Vec<ContainerSummary> = Vec::new();
        std::mem::swap(&mut src, &mut self.containers);
        let mut out: Vec<ContainerSummary> = Vec::new();
        let mut out_keys: Vec<SortKey> = Vec::new();
        let mut i: usize = 0;
        let n = src.len();
        assert(orig.take(0) =~= Seq::<ContainerSummary>::empty());
        while src.len() > 0
            invariant
                pinned == self.pinned_containers@,
                n == orig.len(),
                i + src@.len() == n,
                src@ == orig.skip(i as int),
                out@ == container_sort(orig.take(i as int), pinned),
                out_keys@.len() == out@.len(),
                forall|j: int| 0 <= j < out@.len() ==> #[trigger] out_keys@[j].view() == spec_sort_key(out@[j], pinned),
            decreases src@.len(),
        {
            let x = src.remove(0);
            let kx = self.sort_key(&x);
            proof {
                assert(x == orig[i as int]);
                assert(orig.take(i + 1).drop_last() =~= orig.take(i as int));
                assert(orig.take(i + 1).last() == x);
            }
            let mut p: usize = 0;
            while p < out.len() && !kx.lt(&out_keys[p])
                invariant
                    p <= out@.len(),
                    out_keys@.len() == out@.len(),
                    forall|j: int| 0 <= j < out@.len() ==> #[trigger] out_keys@[j].view() == spec_sort_key(out@[j], pinned),
                    kx.view() == spec_sort_key(x, pinned),
                    forall|j: int| 0 <= j < p ==> !key_lt(spec_sort_key(x, pinned), spec_sort_key(#[trigger] out@[j], pinned)),
                decreases out@.len() - p,
            {
                assert(out_keys@[p as int].view() == spec_sort_key(out@[p as int], pinned));
                p = p + 1;
            }
            proof {
                if p < out@.len() {
                    assert(out_keys@[p as int].view() == spec_sort_key(out@[p as int], pinned));
                }
                lemma_insert_sorted(out@, x, pinned, p as int);
            }
            let ghost old_out = out@;
            let ghost old_keys = out_keys@;
            out.insert(p, x);
            out_keys.insert(p, kx);
            proof {
                assert forall|j: int| 0 <= j < out@.len() implies #[trigger] out_keys@[j].view() == spec_sort_key(out@[j], pinned) by {
                    if j < p {
                        assert(old_keys[j].view() == spec_sort_key(old_out[j], pinned));
                    } else if j > p {
                        assert(old_keys[j - 1].view() == spec_sort_key(old_out[j - 1], pinned));
                    }
                }
                assert(orig.skip(i as int).drop_first() =~= orig.skip(i + 1));
            }
            i = i + 1;
        }
        assert(orig.take(n as int) =~= orig);
        self.containers = out;
    }
}

/// The ids the containers carry.
pub open spec fn container_ids(s: Seq<ContainerSummary>) -> Set<Seq<char>> {
    Set::new(|k: Seq<char>| exists|i: int| 0 <= i < s.len() && opt_view(#[trigger] s[i].id) == Some(k))
}

/// The name by which an image is listed and filtered: its first tag, or nothing.
pub open spec fn image_choice(img: ImageSummary) -> Seq<char> {
    if img.repo_tags@.len() > 0 {
        img.repo_tags@[0]@
    } else {
        Seq::empty()
    }
}

/// The name by which a network is listed and filtered.
pub open spec fn network_choice(n: Network) -> Seq<char> {
    match opt_view(n.name) {
        Some(s) => s,
        None => Seq::empty(),
    }
}

/// The text typed into the sidebar filter, or nothing.
pub open spec fn filter_text(v: AppView) -> Seq<char> {
    match v.sidebar_filter {
        Some(f) => f,
        None => Seq::empty(),
    }
}

/// The positions the filtered list shows, given the name of each item.
pub open spec fn filtered_positions(v: AppView, choices: Seq<Seq<char>>) -> Seq<usize> {
    spec_filter_positions(choices, filter_text(v))
}

/// Pairs each shown position with its item.
fn pair_up<'a, T>(items: &'a Vec<T>, positions: Vec<usize>) -> (r: Vec<(usize, &'a T)>)
    requires
        forall|k: int| 0 <= k < positions@.len() ==> positions@[k] < items@.len(),
    ensures
        r@.len() == positions@.len(),
        forall|k: int| 0 <= k < r@.len() ==> r@[k].0 == positions@[k] && *r@[k].1 == items@[positions@[k] as int],
{
    let mut r: Vec<(usize, &'a T)> = Vec::new();
    let mut k: usize = 0;
    while k < positions.len()
        invariant
            k <= positions@.len(),
            forall|j: int| 0 <= j < positions@.len() ==> positions@[j] < items@.len(),
            r@.len() == k,
            forall|j: int| 0 <= j < k ==> r@[j].0 == positions@[j] && *r@[j].1 == items@[positions@[j] as int],
        decreases positions@.len() - k,
    {
        let p = positions[k];
        r.push((p, &items[p]));
        k = k + 1;
    }
    r
}

proof fn lemma_positions_in_range(choices: Seq<Seq<char>>, filter: Seq<char>)
    ensures
        forall|k: int| 0 <= k < spec_filter_positions(choices, filter).len() ==> spec_filter_positions(choices, filter)[k] < choices.len(),
{
    if filter.len() > 0 {
        let scores = choices.map_values(|c: Seq<char>| crate::filter::skim_score(c, filter));
        lemma_ranked_in_range(scores);
        assert(scores.len() == choices.len());
    }
}

proof fn lemma_insert_in_range(out: Seq<(i64, usize)>, x: (i64, usize), bound: int)
    requires
        forall|k: int| 0 <= k < out.len() ==> out[k].1 < bound,
        x.1 < bound,
    ensures
        forall|k: int| 0 <= k < crate::filter::insert_by_score(out, x).len() ==> crate::filter::insert_by_score(out, x)[k].1 < bound,
        crate::filter::insert_by_score(out, x).len() == out.len() + 1,
    decreases out.len(),
{
    if out.len() > 0 && !(out[0].0 < x.0) {
        lemma_insert_in_range(out.drop_first(), x, bound);
        let rest = crate::filter::insert_by_score(out.drop_first(), x);
        assert forall|k: int| 0 <= k < crate::filter::insert_by_score(out, x).len() implies crate::filter::insert_by_score(out, x)[k].1 < bound by {
            if k > 0 {
                assert(crate::filter::insert_by_score(out, x)[k] == rest[k - 1]);
            }
        }
    }
}

proof fn lemma_ranked_in_range(scores: Seq<Option<i64>>)
    ensures
        forall|k: int| 0 <= k < crate::filter::ranked(scores).len() ==> crate::filter::ranked(scores)[k].1 < scores.len(),
    decreases scores.len(),
{
    if scores.len() > 0 {
        lemma_ranked_in_range(scores.drop_last());
        match scores.last() {
            Some(sc) => lemma_insert_in_range(crate::filter::ranked(scores.drop_last()), (sc, (scores.len() - 1) as usize), scores.len() as int),
            None => {},
        }
    }
}

impl App {
    /// Drops from the multi-selection every id no listed container carries.
    pub fn prune_stale_selections(&mut self)
        ensures
            final(self)@ == (AppView {
                selected_containers: old(self)@.selected_containers.intersect(container_ids(old(self)@.containers)),
                ..old(self)@
            }),
    {
        let mut live: Vec<String> = Vec::new();
        let mut i: usize = 0;
        while i < self.containers.len()
            invariant
                i <= self.containers@.len(),
                forall|k: Seq<char>| views(live@).contains(k) <==> exists|j: int| 0 <= j < i && opt_view(#[trigger] self.containers@[j].id) == Some(k),
            decreases self.containers@.len() - i,
        {
            match &self.containers[i].id {
                Some(id) => {
                    let ghost before = views(live@);
                    live.push(id.clone());
                    assert(views(live@) =~= before.push(id@));
                    assert forall|k: Seq<char>| views(live@).contains(k) <==> exists|j: int| 0 <= j < i + 1 && opt_view(#[trigger] self.containers@[j].id) == Some(k) by {
                        if views(live@).contains(k) {
                            let idx = choose|idx: int| 0 <= idx < views(live@).len() && views(live@)[idx] == k;
                            if idx < before.len() {
                                assert(before[idx] == k);
                                assert(before.contains(k));
                            } else {
                                assert(k == id@);
                                assert(opt_view(self.containers@[i as int].id) == Some(k));
                            }
                        }
                        if exists|j: int| 0 <= j < i + 1 && opt_view(#[trigger] self.containers@[j].id) == Some(k) {
                            let j = choose|j: int| 0 <= j < i + 1 && opt_view(#[trigger] self.containers@[j].id) == Some(k);
                            if j == i {
                                assert(views(live@)[before.len() as int] == k);
                            } else {
                                assert(before.contains(k));
                                let idx = choose|idx: int| 0 <= idx < before.len() && before[idx] == k;
                                assert(views(live@)[idx] == k);
                            }
                        }
                    }
                },
                None => {},
            }
            i = i + 1;
        }
        assert(views(live@).to_set() =~= container_ids(self.containers@));
        self.selected_containers.retain_in(&live);
    }

    /// The containers an action applies to: the multi-selection if there is
    /// one, else the container under the cursor, else none.
    pub fn target_container_ids(&self) -> (r: Vec<String>)
        ensures
            self@.selected_containers != Set::<Seq<char>>::empty() ==> views(r@).to_set() == self@.selected_containers && views(r@).no_duplicates(),
            self@.selected_containers == Set::<Seq<char>>::empty() ==> views(r@) == (match self@.selected_id() {
                Some(id) => seq![id],
                None => Seq::empty(),
            }),
    {
        if !self.selected_containers.is_empty() {
            self.selected_containers.to_vec()
        } else {
            match self.selected_container_id() {
                Some(id) => {
                    let v = vec![id.to_owned()];
                    assert(views(v@) =~= seq![id@]);
                    v
                },
                None => {
                    let v: Vec<String> = Vec::new();
                    assert(views(v@) =~= Seq::<Seq<char>>::empty());
                    v
                },
            }
        }
    }

    /// The text of the sidebar filter.
    fn filter_str(&self) -> (r: &str)
        ensures
            r@ == filter_text(self@),
    {
        proof {
            reveal_strlit("");
        }
        match &self.sidebar_filter {
            Some(f) => f.as_str(),
            None => "",
        }
    }

    /// Containers matching the sidebar filter, best match first, each with its
    /// position in the full list.
    pub fn filtered_containers(&self) -> (r: Vec<(usize, &ContainerSummary)>)
        ensures
            r@.map_values(|p: (usize, &ContainerSummary)| p.0) == filtered_positions(self@, self@.containers.map_values(|c: ContainerSummary| display_name(c))),
            forall|k: int| 0 <= k < r@.len() ==> *r@[k].1 == self@.containers[r@[k].0 as int],
    {
        let mut names: Vec<String> = Vec::new();
        let mut i: usize = 0;
        while i < self.containers.len()
            invariant
                i <= self.containers@.len(),
                names@.len() == i,
                forall|j: int| 0 <= j < i ==> #[trigger] names@[j]@ == display_name(self.containers@[j]),
            decreases self.containers@.len() - i,
        {
            names.push(container_display_name(&self.containers[i]).to_owned());
            i = i + 1;
        }
        assert(names@.map_values(|c: String| c@) =~= self.containers@.map_values(|c: ContainerSummary| display_name(c)));
        let ghost choices = names@.map_values(|c: String| c@);
        let positions = filter_positions(&names, self.filter_str());
        proof {
            lemma_positions_in_range(choices, filter_text(self@));
        }
        let r = pair_up(&self.containers, positions);
        assert(r@.map_values(|p: (usize, &ContainerSummary)| p.0) =~= positions@);
        assert forall|k: int| 0 <= k < r@.len() implies *r@[k].1 == self@.containers[r@[k].0 as int] by {
            assert(r@[k].0 == positions@[k]);
        }
        r
    }

    /// Images matching the sidebar filter by their first tag, best match first.
    pub fn filtered_images(&self) -> (r: Vec<(usize, &ImageSummary)>)
        ensures
            r@.map_values(|p: (usize, &ImageSummary)| p.0) == filtered_positions(self@, self@.images.map_values(|c: ImageSummary| image_choice(c))),
            forall|k: int| 0 <= k < r@.len() ==> *r@[k].1 == self@.images[r@[k].0 as int],
    {
        let mut names: Vec<String> = Vec::new();
        let mut i: usize = 0;
        while i < self.images.len()
            invariant
                i <= self.images@.len(),
                names@.len() == i,
                forall|j: int| 0 <= j < i ==> #[trigger] names@[j]@ == image_choice(self.images@[j]),
            decreases self.images@.len() - i,
        {
            let img = &self.images[i];
            let tag = if img.repo_tags.len() > 0 { img.repo_tags[0].clone() } else { String::new() };
            names.push(tag);
            i = i + 1;
        }
        assert(names@.map_values(|c: String| c@) =~= self.images@.map_values(|c: ImageSummary| image_choice(c)));
        let ghost choices = names@.map_values(|c: String| c@);
        let positions = filter_positions(&names, self.filter_str());
        proof {
            lemma_positions_in_range(choices, filter_text(self@));
        }
        let r = pair_up(&self.images, positions);
        assert(r@.map_values(|p: (usize, &ImageSummary)| p.0) =~= positions@);
        assert forall|k: int| 0 <= k < r@.len() implies *r@[k].1 == self@.images[r@[k].0 as int] by {
            assert(r@[k].0 == positions@[k]);
        }
        r
    }

    /// Volumes matching the sidebar filter by name, best match first.
    pub fn filtered_volumes(&self) -> (r: Vec<(usize, &Volume)>)
        ensures
            r@.map_values(|p: (usize, &Volume)| p.0) == filtered_positions(self@, self@.volumes.map_values(|c: Volume| c.name@)),
            forall|k: int| 0 <= k < r@.len() ==> *r@[k].1 == self@.volumes[r@[k].0 as int],
    {
        let mut names: Vec<String> = Vec::new();
        let mut i: usize = 0;
        while i < self.volumes.len()
            invariant
                i <= self.volumes@.len(),
                names@.len() == i,
                forall|j: int| 0 <= j < i ==> #[trigger] names@[j]@ == self.volumes@[j].name@,
            decreases self.volumes@.len() - i,
        {
            names.push(self.volumes[i].name.clone());
            i = i + 1;
        }
        assert(names@.map_values(|c: String| c@) =~= self.volumes@.map_values(|c: Volume| c.name@));
        let ghost choices = names@.map_values(|c: String| c@);
        let positions = filter_positions(&names, self.filter_str());
        proof {
            lemma_positions_in_range(choices, filter_text(self@));
        }
        let r = pair_up(&self.volumes, positions);
        assert(r@.map_values(|p: (usize, &Volume)| p.0) =~= positions@);
        assert forall|k: int| 0 <= k < r@.len() implies *r@[k].1 == self@.volumes[r@[k].0 as int] by {
            assert(r@[k].0 == positions@[k]);
        }
        r
    }

    /// Networks matching the sidebar filter by name, best match first.
    pub fn filtered_networks(&self) -> (r: Vec<(usize, &Network)>)
        ensures
            r@.map_values(|p: (usize, &Network)| p.0) == filtered_positions(self@, self@.networks.map_values(|c: Network| network_choice(c))),
            forall|k: int| 0 <= k < r@.len() ==> *r@[k].1 == self@.networks[r@[k].0 as int],
    {
        let mut names: Vec<String> = Vec::new();
        let mut i: usize = 0;
        while i < self.networks.len()
            invariant
                i <= self.networks@.len(),
                names@.len() == i,
                forall|j: int| 0 <= j < i ==> #[trigger] names@[j]@ == network_choice(self.networks@[j]),
            decreases self.networks@.len() - i,
        {
            let name = match &self.networks[i].name {
                Some(n) => n.clone(),
                None => String::new(),
            };
            names.push(name);
            i = i + 1;
        }
        assert(names@.map_values(|c: String| c@) =~= self.networks@.map_values(|c: Network| network_choice(c)));
        let ghost choices = names@.map_values(|c: String| c@);
        let positions = filter_positions(&names, self.filter_str());
        proof {
            lemma_positions_in_range(choices, filter_text(self@));
        }
        let r = pair_up(&self.networks, positions);
        assert(r@.map_values(|p: (usize, &Network)| p.0) =~= positions@);
        assert forall|k: int| 0 <= k < r@.len() implies *r@[k].1 == self@.networks[r@[k].0 as int] by {
            assert(r@[k].0 == positions@[k]);
        }
        r
    }

    /// Appends one line to the log kept for a container.
    pub fn push_log(&mut self, container_id: String, line: String)
        ensures
            final(self)@ == (AppView {
                logs: old(self)@.logs.insert(
                    container_id@,
                    (if old(self)@.logs.contains_key(container_id@) { old(self)@.logs[container_id@] } else { Seq::empty() }).push(line@),
                ),
                ..old(self)@
            }),
    {
        self.logs.push_line(container_id, line);
    }
}

} // verus!
