//! A map from tokens to values that keeps its entries in order of first
//! insertion; inserting a token again replaces its value.
use vstd::prelude::*;

verus! {

pub struct PriorityMap<V: View> {
    entries: Vec<(String, V)>,
    model: Ghost<Map<Seq<char>, V::V>>,
}

/// The entries' keys are unique, each entry is in the model, and the model
/// holds nothing else.
spec fn entries_model<V: View>(entries: Seq<(String, V)>, model: Map<Seq<char>, V::V>) -> bool {
    &&& forall|i: int, j: int| 0 <= i < j < entries.len() ==> entries[i].0@ != entries[j].0@
    &&& forall|i: int|
        0 <= i < entries.len() ==> {
            &&& model.contains_key(#[trigger] entries[i].0@)
            &&& model[entries[i].0@] == entries[i].1@
        }
    &&& forall|k: Seq<char>|
        #[trigger] model.contains_key(k) ==> exists|i: int| 0 <= i < entries.len() && entries[i].0@ == k
}

impl<V: View> View for PriorityMap<V> {
    type V = Map<Seq<char>, V::V>;

    closed spec fn view(&self) -> Map<Seq<char>, V::V> {
        self.model@
    }
}

impl<V: View> PriorityMap<V> {
    #[verifier::type_invariant]
    spec fn well_formed(self) -> bool {
        entries_model(self.entries@, self.model@)
    }

    /// The keys, in order of first insertion.
    pub closed spec fn keys(&self) -> Seq<Seq<char>> {
        self.entries@.map_values(|e: (String, V)| e.0@)
    }

    pub fn new() -> (r: Self)
        ensures
            r@ == Map::<Seq<char>, V::V>::empty(),
            r.keys().len() == 0,
    {
        PriorityMap { entries: Vec::new(), model: Ghost(Map::empty()) }
    }

    /// The number of entries.
    pub fn len(&self) -> (r: usize)
        ensures
            r == self.keys().len(),
    {
        self.entries.len()
    }

    /// The index of the entry for `key`, if there is one.
    fn position(&self, key: &String) -> (r: Option<usize>)
        ensures
            match r {
                Some(i) => i < self.entries@.len() && self.entries@[i as int].0@ == key@,
                None => !self@.contains_key(key@),
            },
    {
        proof {
            use_type_invariant(self);
        }
        let mut i: usize = 0;
        while i < self.entries.len()
            invariant
                i <= self.entries@.len(),
                forall|j: int| 0 <= j < i ==> self.entries@[j].0@ != key@,
            decreases self.entries@.len() - i,
        {
            if self.entries[i].0 == *key {
                return Some(i);
            }
            i += 1;
        }
        None
    }

    /// The value for `key`, if the map has one.
    pub fn get(&self, key: &str) -> (r: Option<&V>)
        ensures
            match r {
                Some(v) => self@.contains_key(key@) && self@[key@] == v@,
                None => !self@.contains_key(key@),
            },
    {
        proof {
            use_type_invariant(self);
        }
        match self.position(&String::from_str(key)) {
            Some(i) => {
                assert(self.entries@[i as int].0@ == key@);
                Some(&self.entries[i].1)
            },
            None => None,
        }
    }

    /// Sets the value for `key`; a value that `key` had is replaced.
    pub fn insert(&mut self, key: String, value: V)
        ensures
            final(self)@ == old(self)@.insert(key@, value@),
    {
        proof {
            use_type_invariant(&*self);
        }
        let ghost k = key@;
        let ghost v = value@;
        let found = self.position(&key);
        let mut this = PriorityMap::new();
        core::mem::swap(self, &mut this);
        proof {
            use_type_invariant(&this);
        }
        let PriorityMap { mut entries, model } = this;
        match found {
            Some(i) => {
                entries.set(i, (key, value));
            },
            None => {
                entries.push((key, value));
            },
        }
        let ghost old_entries = old(self).entries@;
        let ghost m2 = model@.insert(k, v);
        assert forall|k2: Seq<char>| #[trigger] m2.contains_key(k2) implies exists|i: int|
            0 <= i < entries@.len() && entries@[i].0@ == k2 by {
            if k2 != k {
                let i = choose|i: int| 0 <= i < old_entries.len() && old_entries[i].0@ == k2;
                assert(entries@[i].0@ == k2);
            } else {
                match found {
                    Some(i) => assert(entries@[i as int].0@ == k),
                    None => assert(entries@[entries@.len() - 1].0@ == k),
                }
            }
        }
        assert forall|i: int| 0 <= i < entries@.len() implies {
            &&& m2.contains_key(#[trigger] entries@[i].0@)
            &&& m2[entries@[i].0@] == entries@[i].1@
        } by {
            if entries@[i].0@ != k {
                assert(entries@[i] == old_entries[i]);
            }
        }
        assert forall|i: int, j: int| 0 <= i < j < entries@.len() implies entries@[i].0@
            != entries@[j].0@ by {
            if j == old_entries.len() {
                assert(old(self)@.contains_key(old_entries[i].0@));
            } else {
                assert(entries@[i].0@ == old_entries[i].0@);
                assert(entries@[j].0@ == old_entries[j].0@);
            }
        }
        assert(entries_model(entries@, m2));
        let r = PriorityMap { entries, model: Ghost(m2) };
        *self = r;
    }

    /// The key and the value of the entry at `i`, in order of first insertion.
    pub fn entry(&self, i: usize) -> (r: (&String, &V))
        requires
            i < self.keys().len(),
        ensures
            r.0@ == self.keys()[i as int],
            self@.contains_key(r.0@),
            self@[r.0@] == r.1@,
    {
        proof {
            use_type_invariant(self);
        }
        let e = &self.entries[i];
        assert(self.entries@[i as int] == *e);
        (&e.0, &e.1)
    }
}

} // verus!
