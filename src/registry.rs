//! The callback registry: a map from a message kind to the handler that
//! receives frames of that kind. Registering a kind again replaces its handler.
use vstd::prelude::*;

verus! {

/// Handlers keyed by message kind, each kind at most once.
pub struct Registry<H> {
    entries: Vec<(String, H)>,
    map: Ghost<Map<Seq<char>, H>>,
}

impl<H> Registry<H> {
    /// What the registry holds: each registered kind and its handler.
    pub closed spec fn view(&self) -> Map<Seq<char>, H> {
        self.map@
    }

    /// Every entry is in the map under its kind, every key of the map has an
    /// entry, and no kind has two entries.
    pub closed spec fn wf(&self) -> bool {
        &&& forall|i: int|
            0 <= i < self.entries@.len() ==> #[trigger] self.map@.contains_key(self.entries@[i].0@)
                && self.map@[self.entries@[i].0@] == self.entries@[i].1
        &&& forall|k: Seq<char>|
            #[trigger] self.map@.contains_key(k) ==> exists|i: int|
                0 <= i < self.entries@.len() && #[trigger] self.entries@[i].0@ == k
        &&& forall|i: int, j: int|
            0 <= i < j < self.entries@.len() ==> #[trigger] self.entries@[i].0@
                != #[trigger] self.entries@[j].0@
    }

    /// An empty registry.
    pub fn new() -> (r: Self)
        ensures
            r.wf(),
            r@ == Map::<Seq<char>, H>::empty(),
    {
        Registry { entries: Vec::new(), map: Ghost(Map::empty()) }
    }

    /// Position of the entry for `kind`, if there is one.
    fn position(&self, kind: &String) -> (r: Option<usize>)
        requires
            self.wf(),
        ensures
            match r {
                Some(i) => i < self.entries@.len() && self.entries@[i as int].0@ == kind@,
                None => !self@.contains_key(kind@),
            },
    {
        let mut i: usize = 0;
        while i < self.entries.len()
            invariant
                self.wf(),
                i <= self.entries@.len(),
                forall|j: int| 0 <= j < i ==> self.entries@[j].0@ != kind@,
            decreases self.entries@.len() - i,
        {
            if self.entries[i].0 == *kind {
                return Some(i);
            }
            i = i + 1;
        }
        None
    }

    /// Whether a handler is registered for `kind`.
    pub fn contains(&self, kind: &String) -> (r: bool)
        requires
            self.wf(),
        ensures
            r == self@.contains_key(kind@),
    {
        self.position(kind).is_some()
    }

    /// The handler registered for `kind`, if any.
    pub fn get(&self, kind: &String) -> (r: Option<&H>)
        requires
            self.wf(),
        ensures
            match r {
                Some(h) => self@.contains_key(kind@) && *h == self@[kind@],
                None => !self@.contains_key(kind@),
            },
    {
        match self.position(kind) {
            Some(i) => {
                assert(self.map@.contains_key(self.entries@[i as int].0@));
                Some(&self.entries[i].1)
            },
            None => None,
        }
    }

    /// Registers `handler` for `kind`, replacing any handler it had.
    pub fn insert(&mut self, kind: String, handler: H)
        requires
            old(self).wf(),
        ensures
            final(self).wf(),
            final(self)@ == old(self)@.insert(kind@, handler),
    {
        let ghost k = kind@;
        let ghost new_map = self.map@.insert(k, handler);
        match self.position(&kind) {
            Some(i) => {
                self.entries.set(i, (kind, handler));
                self.map = Ghost(new_map);
                assert forall|j: int| 0 <= j < self.entries@.len() implies #[trigger] self.map@.contains_key(
                    self.entries@[j].0@) && self.map@[self.entries@[j].0@] == self.entries@[j].1 by {
                    if j != i {
                        assert(old(self).map@.contains_key(old(self).entries@[j].0@));
                        assert(old(self).entries@[j].0@ != old(self).entries@[i as int].0@);
                    }
                }
                assert forall|a: int, b: int|
                    0 <= a < b < self.entries@.len() implies #[trigger] self.entries@[a].0@
                    != #[trigger] self.entries@[b].0@ by {
                    assert(old(self).entries@[a].0@ != old(self).entries@[b].0@);
                }
                assert forall|k2: Seq<char>| #[trigger] self.map@.contains_key(k2) implies exists|j: int|
                    0 <= j < self.entries@.len() && #[trigger] self.entries@[j].0@ == k2 by {
                    if k2 == k {
                        assert(self.entries@[i as int].0@ == k2);
                    } else {
                        assert(old(self).map@.contains_key(k2));
                        let j = choose|j: int|
                            0 <= j < old(self).entries@.len() && #[trigger] old(self).entries@[j].0@ == k2;
                        assert(self.entries@[j].0@ == k2);
                    }
                }
            },
            None => {
                self.entries.push((kind, handler));
                self.map = Ghost(new_map);
                let ghost n = self.entries@.len() - 1;
                assert(self.entries@[n].0@ == k);
                assert forall|j: int| 0 <= j < self.entries@.len() implies #[trigger] self.map@.contains_key(
                    self.entries@[j].0@) && self.map@[self.entries@[j].0@] == self.entries@[j].1 by {
                    if j != n {
                        assert(old(self).map@.contains_key(old(self).entries@[j].0@));
                    }
                }
                assert forall|k2: Seq<char>| #[trigger] self.map@.contains_key(k2) implies exists|j: int|
                    0 <= j < self.entries@.len() && #[trigger] self.entries@[j].0@ == k2 by {
                    if k2 == k {
                        assert(self.entries@[n].0@ == k2);
                    } else {
                        assert(old(self).map@.contains_key(k2));
                        let j = choose|j: int|
                            0 <= j < old(self).entries@.len() && #[trigger] old(self).entries@[j].0@ == k2;
                        assert(self.entries@[j].0@ == k2);
                    }
                }
                assert forall|a: int, b: int|
                    0 <= a < b < self.entries@.len() implies #[trigger] self.entries@[a].0@
                    != #[trigger] self.entries@[b].0@ by {
                    if b == n {
                        assert(old(self).map@.contains_key(old(self).entries@[a].0@));
                    }
                }
            },
        }
    }
}

} // verus!
