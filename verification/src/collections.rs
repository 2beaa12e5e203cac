//! Two small keyed collections of the interface state: a set of container ids
//! and the log lines kept per container id.
use vstd::prelude::*;
use crate::strings::str_eq;

verus! {

/// The views of a sequence of strings.
pub open spec fn views(s: Seq<String>) -> Seq<Seq<char>> {
    s.map_values(|x: String| x@)
}

/// A set of strings (container ids, log lines), without repetitions.
pub struct StringSet {
    ids: Vec<String>,
}

impl StringSet {
    pub closed spec fn keys(self) -> Seq<Seq<char>> {
        views(self.ids@)
    }

    #[verifier::type_invariant]
    closed spec fn wf(self) -> bool {
        self.keys().no_duplicates()
    }

    /// Where `id` stands among the stored ids, if it is there.
    fn find(&self, id: &str) -> (r: Option<usize>)
        ensures
            r matches Some(i) ==> i < self.ids@.len() && self.keys()[i as int] == id@,
            r is None ==> !self.keys().contains(id@),
    {
        let mut i: usize = 0;
        while i < self.ids.len()
            invariant
                i <= self.ids@.len(),
                forall|j: int| 0 <= j < i ==> self.keys()[j] != id@,
            decreases self.ids@.len() - i,
        {
            if str_eq(self.ids[i].as_str(), id) {
                return Some(i);
            }
            i = i + 1;
        }
        None
    }

    pub fn new() -> (r: StringSet)
        ensures
            r@ == Set::<Seq<char>>::empty(),
    {
        let r = StringSet { ids: Vec::new() };
        assert(r@ =~= Set::<Seq<char>>::empty());
        r
    }

    pub fn contains(&self, id: &str) -> (r: bool)
        ensures
            r == self@.contains(id@),
    {
        self.find(id).is_some()
    }

    pub fn is_empty(&self) -> (r: bool)
        ensures
            r == (self@ == Set::<Seq<char>>::empty()),
    {
        if self.ids.len() == 0 {
            assert(self@ =~= Set::<Seq<char>>::empty());
            true
        } else {
            assert(self@.contains(self.keys()[0]));
            false
        }
    }

    pub fn len(&self) -> (r: usize)
        ensures
            r == self@.len(),
    {
        proof {
            use_type_invariant(self);
            self.keys().unique_seq_to_set();
        }
        self.ids.len()
    }

    pub fn insert(&mut self, id: String)
        ensures
            final(self)@ == old(self)@.insert(id@),
    {
        proof {
            use_type_invariant(&*self);
        }
        let pos = self.find(id.as_str());
        if pos.is_none() {
            let ghost old_keys = self.keys();
            let mut ids: Vec<String> = Vec::new();
            std::mem::swap(&mut ids, &mut self.ids);
            ids.push(id);
            assert(views(ids@) =~= old_keys.push(id@));
            self.ids = ids;
            assert(old_keys == old(self).keys());
            assert forall|k: Seq<char>| self.keys().contains(k) == (old_keys.contains(k) || k == id@) by {
                if self.keys().contains(k) {
                    let j = choose|j: int| 0 <= j < self.keys().len() && self.keys()[j] == k;
                    if j < old_keys.len() {
                        assert(old_keys[j] == k);
                    }
                }
                if old_keys.contains(k) {
                    let j = choose|j: int| 0 <= j < old_keys.len() && old_keys[j] == k;
                    assert(self.keys()[j] == k);
                }
                if k == id@ {
                    assert(self.keys()[old_keys.len() as int] == k);
                }
            }
            assert(self@ =~= old(self)@.insert(id@));
        } else {
            let i = pos.unwrap();
            assert(self.keys().contains(id@));
            assert(self@ =~= old(self)@.insert(id@));
        }
    }

    pub fn remove(&mut self, id: &str)
        ensures
            final(self)@ == old(self)@.remove(id@),
    {
        proof {
            use_type_invariant(&*self);
        }
        match self.find(id) {
            Some(i) => {
                let ghost old_keys = self.keys();
                let mut ids: Vec<String> = Vec::new();
                std::mem::swap(&mut ids, &mut self.ids);
                ids.remove(i);
                assert(views(ids@) =~= old_keys.remove(i as int));
                self.ids = ids;
                assert forall|k: Seq<char>| self@.contains(k) == old(self)@.remove(id@).contains(k) by {
                    if old_keys.contains(k) && k != id@ {
                        let j = choose|j: int| 0 <= j < old_keys.len() && old_keys[j] == k;
                        if j < i {
                            assert(self.keys()[j] == k);
                        } else {
                            assert(self.keys()[j - 1] == k);
                        }
                    }
                }
                assert(self@ =~= old(self)@.remove(id@));
            },
            None => {
                assert(self@ =~= old(self)@.remove(id@));
            },
        }
    }

    pub fn clear(&mut self)
        ensures
            final(self)@ == Set::<Seq<char>>::empty(),
    {
        self.ids = Vec::new();
        assert(self@ =~= Set::<Seq<char>>::empty());
    }

    /// The ids, each once, in the order in which they were first inserted.
    pub fn to_vec(&self) -> (r: Vec<String>)
        ensures
            views(r@).to_set() == self@,
            views(r@).no_duplicates(),
    {
        proof {
            use_type_invariant(self);
        }
        self.ids.clone()
    }

    /// Keeps the ids that also occur in `live`.
    pub fn retain_in(&mut self, live: &Vec<String>)
        ensures
            final(self)@ == old(self)@.intersect(views(live@).to_set()),
    {
        proof {
            use_type_invariant(&*self);
        }
        let ghost live_set = views(live@).to_set();
        let mut kept: Vec<String> = Vec::new();
        let mut i: usize = 0;
        while i < self.ids.len()
            invariant
                i <= self.ids@.len(),
                self.keys().no_duplicates(),
                live_set == views(live@).to_set(),
                views(kept@).no_duplicates(),
                forall|k: Seq<char>| views(kept@).contains(k) <==> (exists|j: int| 0 <= j < i && self.keys()[j] == k && live_set.contains(k)),
            decreases self.ids@.len() - i,
        {
            let mut found = false;
            let mut j: usize = 0;
            while j < live.len()
                invariant
                    j <= live@.len(),
                    i < self.ids@.len(),
                    found == (exists|t: int| 0 <= t < j && views(live@)[t] == self.keys()[i as int]),
                decreases live@.len() - j,
            {
                if str_eq(live[j].as_str(), self.ids[i].as_str()) {
                    found = true;
                }
                assert(views(live@)[j as int] == live@[j as int]@);
                j = j + 1;
            }
            if found {
                let ghost before = views(kept@);
                kept.push(self.ids[i].clone());
                assert(views(kept@) =~= before.push(self.keys()[i as int]));
                proof {
                    if before.contains(self.keys()[i as int]) {
                        let jj = choose|jj: int| 0 <= jj < i && self.keys()[jj] == self.keys()[i as int] && live_set.contains(self.keys()[i as int]);
                        assert(false);
                    }
                }
                assert forall|a: int, b: int| 0 <= a < views(kept@).len() && 0 <= b < views(kept@).len() && a != b implies views(kept@)[a] != views(kept@)[b] by {
                    if a == before.len() as int {
                        assert(before.contains(before[b]));
                    } else if b == before.len() as int {
                        assert(before.contains(before[a]));
                    }
                }
                assert forall|k: Seq<char>| views(kept@).contains(k) <==> (exists|jj: int| 0 <= jj < i + 1 && self.keys()[jj] == k && live_set.contains(k)) by {
                    if views(kept@).contains(k) {
                        let a = choose|a: int| 0 <= a < views(kept@).len() && views(kept@)[a] == k;
                        if a < before.len() {
                            assert(before.contains(k));
                        } else {
                            assert(self.keys()[i as int] == k);
                            let t = choose|t: int| 0 <= t < live@.len() && views(live@)[t] == self.keys()[i as int];
                            assert(views(live@).contains(k));
                        }
                    }
                    if exists|jj: int| 0 <= jj < i + 1 && self.keys()[jj] == k && live_set.contains(k) {
                        let jj = choose|jj: int| 0 <= jj < i + 1 && self.keys()[jj] == k && live_set.contains(k);
                        if jj < i {
                            assert(before.contains(k));
                            let a = choose|a: int| 0 <= a < before.len() && before[a] == k;
                            assert(views(kept@)[a] == k);
                        } else {
                            assert(views(kept@)[before.len() as int] == k);
                        }
                    }
                }
            } else {
                assert forall|k: Seq<char>| views(kept@).contains(k) <==> (exists|jj: int| 0 <= jj < i + 1 && self.keys()[jj] == k && live_set.contains(k)) by {
                    if exists|jj: int| 0 <= jj < i + 1 && self.keys()[jj] == k && live_set.contains(k) {
                        let jj = choose|jj: int| 0 <= jj < i + 1 && self.keys()[jj] == k && live_set.contains(k);
                        if jj == i {
                            let t = choose|t: int| 0 <= t < live@.len() && views(live@)[t] == k;
                            assert(false);
                        }
                    }
                }
            }
            i = i + 1;
        }
        self.ids = kept;
        assert forall|k: Seq<char>| self@.contains(k) == old(self)@.intersect(live_set).contains(k) by {
            if old(self)@.contains(k) {
                let jj = choose|jj: int| 0 <= jj < old(self).keys().len() && old(self).keys()[jj] == k;
            }
        }
        assert(self@ =~= old(self)@.intersect(live_set));
    }
}

impl View for StringSet {
    type V = Set<Seq<char>>;

    closed spec fn view(&self) -> Set<Seq<char>> {
        self.keys().to_set()
    }
}

/// The log lines kept for each container id.
pub struct LogStore {
    entries: Vec<(String, Vec<String>)>,
}

impl LogStore {
    pub closed spec fn keys(self) -> Seq<Seq<char>> {
        self.entries@.map_values(|e: (String, Vec<String>)| e.0@)
    }

    pub closed spec fn lines_at(self, i: int) -> Seq<Seq<char>> {
        views(self.entries@[i].1@)
    }

    #[verifier::type_invariant]
    closed spec fn wf(self) -> bool {
        self.keys().no_duplicates()
    }

    proof fn lemma_lookup(self, i: int)
        requires
            self.keys().no_duplicates(),
            0 <= i < self.entries@.len(),
        ensures
            self@.contains_key(self.keys()[i]),
            self@[self.keys()[i]] == self.lines_at(i),
    {
        let k = self.keys()[i];
        assert(self.keys().contains(k));
        let j = choose|j: int| 0 <= j < self.keys().len() && self.keys()[j] == k;
        assert(j == i);
    }

    fn find(&self, id: &str) -> (r: Option<usize>)
        ensures
            r matches Some(i) ==> i < self.entries@.len() && self.keys()[i as int] == id@,
            r is None ==> !self.keys().contains(id@),
    {
        let mut i: usize = 0;
        while i < self.entries.len()
            invariant
                i <= self.entries@.len(),
                forall|j: int| 0 <= j < i ==> self.keys()[j] != id@,
            decreases self.entries@.len() - i,
        {
            if str_eq(self.entries[i].0.as_str(), id) {
                return Some(i);
            }
            i = i + 1;
        }
        None
    }

    pub fn new() -> (r: LogStore)
        ensures
            r@ == Map::<Seq<char>, Seq<Seq<char>>>::empty(),
    {
        let r = LogStore { entries: Vec::new() };
        assert(r@ =~= Map::<Seq<char>, Seq<Seq<char>>>::empty());
        r
    }

    /// The lines kept for `id`, if any were ever stored.
    pub fn get(&self, id: &str) -> (r: Option<&Vec<String>>)
        ensures
            r is Some == self@.contains_key(id@),
            r matches Some(v) ==> views(v@) == self@[id@],
    {
        proof {
            use_type_invariant(self);
        }
        match self.find(id) {
            Some(i) => {
                proof {
                    self.lemma_lookup(i as int);
                }
                Some(&self.entries[i].1)
            },
            None => None,
        }
    }

    /// Stores `lines` as the log of `id`, replacing what was kept before.
    pub fn insert(&mut self, id: String, lines: Vec<String>)
        ensures
            final(self)@ == old(self)@.insert(id@, views(lines@)),
    {
        proof {
            use_type_invariant(&*self);
        }
        let pos = self.find(id.as_str());
        let ghost old_store = *self;
        let ghost idv = id@;
        let ghost linesv = views(lines@);
        let mut entries: Vec<(String, Vec<String>)> = Vec::new();
        std::mem::swap(&mut entries, &mut self.entries);
        match pos {
            Some(i) => {
                entries.set(i, (id, lines));
            },
            None => {
                entries.push((id, lines));
            },
        }
        let ghost new_store = LogStore { entries: entries };
        proof {
            assert(new_store.keys() =~= (match pos {
                Some(i) => old_store.keys().update(i as int, idv),
                None => old_store.keys().push(idv),
            }));
            assert(new_store.keys().no_duplicates()) by {
                if pos is None {
                    assert forall|a: int, b: int| 0 <= a < new_store.keys().len() && 0 <= b < new_store.keys().len() && a != b implies new_store.keys()[a] != new_store.keys()[b] by {
                        if a == old_store.keys().len() as int {
                            assert(new_store.keys()[b] == old_store.keys()[b]);
                            assert(old_store.keys().contains(old_store.keys()[b]));
                        } else if b == old_store.keys().len() as int {
                            assert(new_store.keys()[a] == old_store.keys()[a]);
                            assert(old_store.keys().contains(old_store.keys()[a]));
                        }
                    }
                }
            }
            assert forall|k: Seq<char>| #[trigger] new_store@.contains_key(k) == old_store@.insert(idv, linesv).contains_key(k) by {
                if new_store.keys().contains(k) {
                    let j = choose|j: int| 0 <= j < new_store.keys().len() && new_store.keys()[j] == k;
                    if k != idv {
                        assert(old_store.keys()[j] == k);
                    }
                }
                if old_store.keys().contains(k) && k != idv {
                    let j = choose|j: int| 0 <= j < old_store.keys().len() && old_store.keys()[j] == k;
                    assert(new_store.keys()[j] == k);
                }
                if k == idv {
                    match pos {
                        Some(i) => assert(new_store.keys()[i as int] == k),
                        None => assert(new_store.keys()[old_store.keys().len() as int] == k),
                    }
                }
            }
            assert forall|k: Seq<char>| #[trigger] new_store@.contains_key(k) implies new_store@[k] == old_store@.insert(idv, linesv)[k] by {
                let j = choose|j: int| 0 <= j < new_store.keys().len() && new_store.keys()[j] == k;
                new_store.lemma_lookup(j);
                if k != idv {
                    old_store.lemma_lookup(j);
                }
            }
            assert(new_store@ =~= old_store@.insert(idv, linesv));
        }
        self.entries = entries;
    }

    /// Appends one line to the log of `id`, starting a log for it if none is kept.
    pub fn push_line(&mut self, id: String, line: String)
        ensures
            final(self)@ == old(self)@.insert(
                id@,
                (if old(self)@.contains_key(id@) { old(self)@[id@] } else { Seq::empty() }).push(line@),
            ),
    {
        proof {
            use_type_invariant(&*self);
        }
        let ghost prior: Seq<Seq<char>> = if self@.contains_key(id@) { self@[id@] } else { Seq::empty() };
        let mut lines: Vec<String> = match self.get(id.as_str()) {
            Some(v) => {
                let c = v.clone();
                assert forall|i: int| 0 <= i < v@.len() implies c@[i] == v@[i] by {
                    assert(cloned::<String>(v[i], c[i]));
                }
                assert(c@ =~= v@);
                c
            },
            None => Vec::new(),
        };
        let ghost before = views(lines@);
        assert(before =~= prior);
        lines.push(line);
        assert(views(lines@) =~= before.push(line@));
        self.insert(id, lines);
    }
}

impl View for LogStore {
    type V = Map<Seq<char>, Seq<Seq<char>>>;

    closed spec fn view(&self) -> Map<Seq<char>, Seq<Seq<char>>> {
        Map::new(
            |k: Seq<char>| self.keys().contains(k),
            |k: Seq<char>| self.lines_at(choose|i: int| 0 <= i < self.keys().len() && self.keys()[i] == k),
        )
    }
}

} // verus!
