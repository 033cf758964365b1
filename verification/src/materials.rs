//! The materials that a task or a preset asks for: each material's name with
//! the quantity text entered for it, every name at most once, kept in the
//! order of entry.

use vstd::prelude::*;
use crate::keyed::{distinct_keys, has_key, lemma_map_of_pair, lemma_map_of_push, lemma_map_of_remove, lemma_map_of_update, lemma_position_of, map_of, position_of};

verus! {

/// The pairs of `v` as sequences of characters.
pub open spec fn pairs_of(v: Seq<(String, String)>) -> Seq<(Seq<char>, Seq<char>)> {
    Seq::new(v.len(), |i: int| (v[i].0@, v[i].1@))
}

/// Material names with their quantity texts.
pub struct Materials {
    entries: Vec<(String, String)>,
}

impl Materials {
    /// The pairs of name and quantity text, in the order of entry.
    pub closed spec fn pairs(&self) -> Seq<(Seq<char>, Seq<char>)> {
        pairs_of(self.entries@)
    }

    /// No name occurs twice.
    #[verifier::type_invariant]
    pub closed spec fn wf(&self) -> bool {
        distinct_keys(self.pairs())
    }

    /// The quantity text of each name.
    pub open spec fn view(&self) -> Map<Seq<char>, Seq<char>> {
        map_of(self.pairs())
    }

    /// A well-formed value has distinct names.
    pub proof fn lemma_wf(&self)
        requires
            self.wf(),
        ensures
            distinct_keys(self.pairs()),
    {
    }

    /// No materials.
    pub fn new() -> (m: Materials)
        ensures
            m.pairs() == Seq::<(Seq<char>, Seq<char>)>::empty(),
            m@ == Map::<Seq<char>, Seq<char>>::empty(),
            m.wf(),
    {
        let m = Materials { entries: Vec::new() };
        assert(m.pairs() =~= Seq::<(Seq<char>, Seq<char>)>::empty());
        assert(m@ =~= Map::<Seq<char>, Seq<char>>::empty());
        m
    }

    /// How many names there are.
    pub fn len(&self) -> (n: usize)
        ensures
            n == self.pairs().len(),
            self.wf(),
    {
        proof {
            use_type_invariant(self);
        }
        self.entries.len()
    }

    /// The name at position `i` in the order of entry.
    pub fn name_at(&self, i: usize) -> (name: &String)
        requires
            i < self.pairs().len(),
        ensures
            name@ == self.pairs()[i as int].0,
    {
        &self.entries[i].0
    }

    /// The quantity text at position `i` in the order of entry.
    pub fn quantity_at(&self, i: usize) -> (quantity: &String)
        requires
            i < self.pairs().len(),
        ensures
            quantity@ == self.pairs()[i as int].1,
    {
        &self.entries[i].1
    }

    /// The position of `name`, if it is there.
    pub fn position(&self, name: &str) -> (r: Option<usize>)
        ensures
            self.wf(),
            r is Some <==> has_key(self.pairs(), name@),
            r is Some <==> self@.contains_key(name@),
            r matches Some(i) ==> i < self.pairs().len() && self.pairs()[i as int].0 == name@
                && self.pairs()[i as int].1 == self@[name@] && position_of(self.pairs(), name@)
                == Some(i as int),
            r is None ==> position_of(self.pairs(), name@) is None,
    {
        proof {
            use_type_invariant(self);
            lemma_position_of(self.pairs(), name@);
        }
        let mut i: usize = 0;
        while i < self.entries.len()
            invariant
                self.wf(),
                0 <= i <= self.entries@.len(),
                forall|j: int| 0 <= j < i ==> (#[trigger] self.pairs()[j]).0 != name@,
            decreases self.entries@.len() - i,
        {
            if self.entries[i].0.as_str().eq(name) {
                proof {
                    assert(self.pairs()[i as int].0 == name@);
                    lemma_map_of_pair(self.pairs(), i as int);
                    let p = position_of(self.pairs(), name@).unwrap();
                    assert(self.pairs()[p].0 == self.pairs()[i as int].0);
                }
                return Some(i);
            }
            i += 1;
        }
        None
    }

    /// Whether `name` is there.
    pub fn contains_key(&self, name: &str) -> (b: bool)
        ensures
            b == self@.contains_key(name@),
    {
        self.position(name).is_some()
    }

    /// The quantity text entered for `name`, if `name` is there.
    pub fn get(&self, name: &str) -> (r: Option<&String>)
        ensures
            r is Some <==> self@.contains_key(name@),
            r matches Some(q) ==> q@ == self@[name@],
    {
        match self.position(name) {
            Some(i) => Some(&self.entries[i].1),
            None => None,
        }
    }

    /// Enters `quantity` for `name`. A name that is there keeps its place and
    /// gets the new text; a new name goes to the end. Returns the text that
    /// `name` had before.
    pub fn insert(&mut self, name: String, quantity: String) -> (before: Option<String>)
        ensures
            final(self).wf(),
            final(self)@ == old(self)@.insert(name@, quantity@),
            before is Some <==> old(self)@.contains_key(name@),
            before matches Some(q) ==> q@ == old(self)@[name@],
            final(self).pairs() == (match position_of(old(self).pairs(), name@) {
                Some(i) => old(self).pairs().update(i, (name@, quantity@)),
                None => old(self).pairs().push((name@, quantity@)),
            }),
    {
        let found = self.position(name.as_str());
        let ghost before_pairs = self.pairs();
        match found {
            Some(i) => {
                let before = self.entries[i].1.clone();
                proof {
                    lemma_map_of_update(before_pairs, i as int, quantity@);
                    assert(pairs_of(self.entries@.update(i as int, (name, quantity)))
                        =~= before_pairs.update(i as int, (name@, quantity@)));
                }
                let mut entries: Vec<(String, String)> = Vec::new();
                core::mem::swap(&mut self.entries, &mut entries);
                entries.set(i, (name, quantity));
                self.entries = entries;
                Some(before)
            },
            None => {
                proof {
                    lemma_map_of_push(before_pairs, name@, quantity@);
                    assert(pairs_of(self.entries@.push((name, quantity))) =~= before_pairs.push(
                        (name@, quantity@),
                    ));
                }
                let mut entries: Vec<(String, String)> = Vec::new();
                core::mem::swap(&mut self.entries, &mut entries);
                entries.push((name, quantity));
                self.entries = entries;
                None
            },
        }
    }

    /// Takes `name` out. Returns the text that it had.
    pub fn remove(&mut self, name: &str) -> (before: Option<String>)
        ensures
            final(self).wf(),
            final(self)@ == old(self)@.remove(name@),
            before is Some <==> old(self)@.contains_key(name@),
            before matches Some(q) ==> q@ == old(self)@[name@],
            final(self).pairs() == (match position_of(old(self).pairs(), name@) {
                Some(i) => old(self).pairs().remove(i),
                None => old(self).pairs(),
            }),
    {
        let found = self.position(name);
        let ghost before_pairs = self.pairs();
        match found {
            Some(i) => {
                proof {
                    lemma_map_of_remove(before_pairs, i as int);
                    assert(pairs_of(self.entries@.remove(i as int)) =~= before_pairs.remove(
                        i as int,
                    ));
                }
                let mut entries: Vec<(String, String)> = Vec::new();
                core::mem::swap(&mut self.entries, &mut entries);
                let gone = entries.remove(i);
                self.entries = entries;
                Some(gone.1)
            },
            None => {
                assert(self@ =~= self@.remove(name@));
                None
            },
        }
    }
}

impl Materials {
    /// The names, in dictionary order.
    pub fn names_ascending(&self) -> (names: Vec<String>)
        ensures
            crate::order::ascending(crate::order::texts_of(names@)),
            forall|t: Seq<char>| crate::order::texts_of(names@).contains(t) <==> self@.contains_key(t),
    {
        proof {
            use_type_invariant(self);
        }
        let mut names: Vec<String> = Vec::new();
        let mut i: usize = 0;
        while i < self.entries.len()
            invariant
                0 <= i <= self.entries@.len(),
                crate::order::ascending(crate::order::texts_of(names@)),
                forall|t: Seq<char>|
                    crate::order::texts_of(names@).contains(t) <==> exists|j: int|
                        0 <= j < i && (#[trigger] self.pairs()[j]).0 == t,
            decreases self.entries@.len() - i,
        {
            let ghost had = crate::order::texts_of(names@);
            let ghost key = self.pairs()[i as int].0;
            crate::order::insert_ascending(&mut names, self.entries[i].0.clone());
            proof {
                assert forall|t: Seq<char>|
                    crate::order::texts_of(names@).contains(t) <==> exists|j: int|
                        0 <= j < i + 1 && (#[trigger] self.pairs()[j]).0 == t by {
                    if had.contains(t) {
                        let j = choose|j: int| 0 <= j < i && (#[trigger] self.pairs()[j]).0 == t;
                        assert(0 <= j < i + 1 && self.pairs()[j].0 == t);
                    }
                    if t == key {
                        assert(self.pairs()[i as int].0 == t);
                    }
                    if exists|j: int| 0 <= j < i + 1 && (#[trigger] self.pairs()[j]).0 == t {
                        let j = choose|j: int|
                            0 <= j < i + 1 && (#[trigger] self.pairs()[j]).0 == t;
                        if j < i {
                            assert(had.contains(t));
                        }
                    }
                }
            }
            i += 1;
        }
        names
    }
}

impl Clone for Materials {
    /// A copy with the same names and texts in the same order.
    fn clone(&self) -> (m: Self)
        ensures
            m.pairs() == self.pairs(),
            m@ == self@,
            m.wf(),
    {
        proof {
            use_type_invariant(self);
        }
        let mut entries: Vec<(String, String)> = Vec::new();
        let mut i: usize = 0;
        while i < self.entries.len()
            invariant
                0 <= i <= self.entries@.len(),
                entries@.len() == i,
                forall|j: int| 0 <= j < i ==> entries@[j] == self.entries@[j],
            decreases self.entries@.len() - i,
        {
            let name = self.entries[i].0.clone();
            let quantity = self.entries[i].1.clone();
            entries.push((name, quantity));
            i += 1;
        }
        assert(entries@ =~= self.entries@);
        Materials { entries }
    }
}

} // verus!
