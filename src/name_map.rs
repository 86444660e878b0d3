use vstd::prelude::*;

verus! {

/// An association list from names to values in which each name occurs at most once.
pub struct NameMap<T> {
    entries: Vec<(String, T)>,
}

impl<T> NameMap<T> {
    #[verifier::type_invariant]
    spec fn keys_unique(self) -> bool {
        forall|i: int, j: int|
            0 <= i < j < self.entries@.len() ==> #[trigger] self.entries@[i].0@
                != #[trigger] self.entries@[j].0@
    }

    /// The map from each stored name to its value.
    pub closed spec fn view(&self) -> Map<Seq<char>, T> {
        Map::new(
            |k: Seq<char>| exists|i: int| 0 <= i < self.entries@.len() && self.entries@[i].0@ == k,
            |k: Seq<char>|
                self.entries@[choose|i: int| 0 <= i < self.entries@.len() && self.entries@[i].0@ == k].1,
        )
    }

    /// The stored names, in insertion order.
    pub closed spec fn names(&self) -> Seq<Seq<char>> {
        self.entries@.map_values(|e: (String, T)| e.0@)
    }

    proof fn lemma_view_at(&self, i: int)
        requires
            self.keys_unique(),
            0 <= i < self.entries@.len(),
        ensures
            self@.contains_key(self.entries@[i].0@),
            self@[self.entries@[i].0@] == self.entries@[i].1,
    {
        let k = self.entries@[i].0@;
        assert(self@.dom().contains(k));
        let j = choose|j: int| 0 <= j < self.entries@.len() && self.entries@[j].0@ == k;
        if j != i {
            if j < i {
                assert(self.entries@[j].0@ != self.entries@[i].0@);
            } else {
                assert(self.entries@[i].0@ != self.entries@[j].0@);
            }
        }
    }

    pub fn new() -> (r: Self)
        ensures
            r@ == Map::<Seq<char>, T>::empty(),
            r.names() == Seq::<Seq<char>>::empty(),
    {
        let r = NameMap { entries: Vec::new() };
        assert(r@ =~= Map::<Seq<char>, T>::empty());
        assert(r.names() =~= Seq::<Seq<char>>::empty());
        r
    }

    pub fn len(&self) -> (r: usize)
        ensures
            r == self.names().len(),
            self.names().no_duplicates(),
            forall|k: Seq<char>| self.names().contains(k) <==> #[trigger] self@.contains_key(k),
    {
        proof {
            use_type_invariant(self);
            assert forall|k: Seq<char>| self.names().contains(k) <==> #[trigger] self@.contains_key(k) by {
                if self@.contains_key(k) {
                    let i = choose|i: int| 0 <= i < self.entries@.len() && self.entries@[i].0@ == k;
                    assert(self.names()[i] == k);
                }
                if self.names().contains(k) {
                    let i = choose|i: int| 0 <= i < self.names().len() && self.names()[i] == k;
                    assert(self.entries@[i].0@ == k);
                }
            }
            assert forall|i: int, j: int| 0 <= i < self.names().len() && 0 <= j < self.names().len() && i != j
                implies self.names()[i] != self.names()[j] by {
                if i < j {
                    assert(self.entries@[i].0@ != self.entries@[j].0@);
                } else {
                    assert(self.entries@[j].0@ != self.entries@[i].0@);
                }
            }
        }
        self.entries.len()
    }

    pub fn contains_key(&self, name: &str) -> (r: bool)
        ensures
            r == self@.contains_key(name@),
    {
        proof { use_type_invariant(self); }
        match self.position(name) {
            Some(i) => {
                proof { self.lemma_view_at(i as int); }
                true
            },
            None => false,
        }
    }

    pub fn get(&self, name: &str) -> (r: Option<&T>)
        ensures
            match r {
                Some(v) => self@.contains_key(name@) && *v == self@[name@],
                None => !self@.contains_key(name@),
            },
    {
        proof { use_type_invariant(self); }
        match self.position(name) {
            Some(i) => {
                proof { self.lemma_view_at(i as int); }
                Some(&self.entries[i].1)
            },
            None => None,
        }
    }

    /// The name stored at position `i`.
    pub fn key_at(&self, i: usize) -> (r: &String)
        requires
            i < self.names().len(),
        ensures
            r@ == self.names()[i as int],
    {
        &self.entries[i].0
    }

    /// The value stored at position `i`.
    pub fn value_at(&self, i: usize) -> (r: &T)
        requires
            i < self.names().len(),
        ensures
            self@.contains_key(self.names()[i as int]),
            *r == self@[self.names()[i as int]],
    {
        proof {
            use_type_invariant(self);
            self.lemma_view_at(i as int);
        }
        &self.entries[i].1
    }

    /// Stores `value` under `name`, handing back the value it replaced.
    pub fn insert(&mut self, name: &str, value: T) -> (r: Option<T>)
        ensures
            final(self)@ == old(self)@.insert(name@, value),
            final(self).names() == if old(self)@.contains_key(name@) {
                old(self).names()
            } else {
                old(self).names().push(name@)
            },
            match r {
                Some(v) => old(self)@.contains_key(name@) && v == old(self)@[name@],
                None => !old(self)@.contains_key(name@),
            },
    {
        proof { use_type_invariant(&*self); }
        let pos = self.position(name);
        let mut entries: Vec<(String, T)> = Vec::new();
        std::mem::swap(&mut entries, &mut self.entries);
        let ghost before = NameMap { entries };
        let ghost old_entries = entries@;
        match pos {
            Some(i) => {
                proof { before.lemma_view_at(i as int); }
                let (k, v) = entries.remove(i);
                entries.insert(i, (k, value));
                proof {
                    let after = NameMap { entries };
                    assert(after.keys_unique()) by {
                        assert forall|a: int, b: int| 0 <= a < b < entries@.len() implies
                            #[trigger] entries@[a].0@ != #[trigger] entries@[b].0@ by {
                            assert(entries@[a].0@ == old_entries[a].0@);
                            assert(entries@[b].0@ == old_entries[b].0@);
                        }
                    }
                    assert forall|k2: Seq<char>| after@.contains_key(k2) <==> before@.insert(name@, value).contains_key(k2) by {
                        if after@.contains_key(k2) {
                            let j = choose|j: int| 0 <= j < entries@.len() && entries@[j].0@ == k2;
                            assert(old_entries[j].0@ == k2);
                        }
                        if before@.contains_key(k2) {
                            let j = choose|j: int| 0 <= j < old_entries.len() && old_entries[j].0@ == k2;
                            assert(entries@[j].0@ == k2);
                        }
                        if k2 == name@ {
                            assert(entries@[i as int].0@ == k2);
                        }
                    }
                    assert forall|k2: Seq<char>| #[trigger] after@.contains_key(k2) implies after@[k2] == before@.insert(name@, value)[k2] by {
                        let j = choose|j: int| 0 <= j < entries@.len() && entries@[j].0@ == k2;
                        after.lemma_view_at(j);
                        if j != i {
                            before.lemma_view_at(j);
                        }
                    }
                    assert(after@ =~= before@.insert(name@, value));
                    assert(after.names() =~= before.names());
                }
                self.entries = entries;
                Some(v)
            },
            None => {
                entries.push((name.to_owned(), value));
                proof {
                    let after = NameMap { entries };
                    assert(after.keys_unique()) by {
                        assert forall|a: int, b: int| 0 <= a < b < entries@.len() implies
                            #[trigger] entries@[a].0@ != #[trigger] entries@[b].0@ by {
                            if b == old_entries.len() {
                                assert(entries@[a].0@ == old_entries[a].0@);
                                assert(before@.contains_key(old_entries[a].0@));
                            } else {
                                assert(entries@[a].0@ == old_entries[a].0@);
                                assert(entries@[b].0@ == old_entries[b].0@);
                            }
                        }
                    }
                    assert forall|k2: Seq<char>| after@.contains_key(k2) <==> before@.insert(name@, value).contains_key(k2) by {
                        if after@.contains_key(k2) {
                            let j = choose|j: int| 0 <= j < entries@.len() && entries@[j].0@ == k2;
                            if j < old_entries.len() {
                                assert(old_entries[j].0@ == k2);
                            }
                        }
                        if before@.contains_key(k2) {
                            let j = choose|j: int| 0 <= j < old_entries.len() && old_entries[j].0@ == k2;
                            assert(entries@[j].0@ == k2);
                        }
                        if k2 == name@ {
                            assert(entries@[old_entries.len() as int].0@ == k2);
                        }
                    }
                    assert forall|k2: Seq<char>| #[trigger] after@.contains_key(k2) implies after@[k2] == before@.insert(name@, value)[k2] by {
                        let j = choose|j: int| 0 <= j < entries@.len() && entries@[j].0@ == k2;
                        after.lemma_view_at(j);
                        if j < old_entries.len() {
                            before.lemma_view_at(j);
                        }
                    }
                    assert(after@ =~= before@.insert(name@, value));
                    assert(after.names() =~= before.names().push(name@));
                }
                self.entries = entries;
                None
            },
        }
    }

    /// Takes the value stored under `name` out of the map.
    pub fn remove(&mut self, name: &str) -> (r: Option<T>)
        ensures
            final(self)@ == old(self)@.remove(name@),
            match r {
                Some(v) => old(self)@.contains_key(name@) && v == old(self)@[name@],
                None => !old(self)@.contains_key(name@),
            },
    {
        proof { use_type_invariant(&*self); }
        let pos = self.position(name);
        match pos {
            None => {
                assert(self@ =~= self@.remove(name@));
                None
            },
            Some(i) => {
                let mut entries: Vec<(String, T)> = Vec::new();
                std::mem::swap(&mut entries, &mut self.entries);
                let ghost before = NameMap { entries };
                let ghost old_entries = entries@;
                proof { before.lemma_view_at(i as int); }
                let (_k, v) = entries.remove(i);
                proof {
                    let after = NameMap { entries };
                    assert(after.keys_unique()) by {
                        assert forall|a: int, b: int| 0 <= a < b < entries@.len() implies
                            #[trigger] entries@[a].0@ != #[trigger] entries@[b].0@ by {
                            let oa = if a < i { a } else { a + 1 };
                            let ob = if b < i { b } else { b + 1 };
                            assert(entries@[a] == old_entries[oa]);
                            assert(entries@[b] == old_entries[ob]);
                        }
                    }
                    assert forall|k2: Seq<char>| after@.contains_key(k2) <==> before@.remove(name@).contains_key(k2) by {
                        if after@.contains_key(k2) {
                            let j = choose|j: int| 0 <= j < entries@.len() && entries@[j].0@ == k2;
                            let oj = if j < i { j } else { j + 1 };
                            assert(entries@[j] == old_entries[oj]);
                            assert(old_entries[oj].0@ != old_entries[i as int].0@);
                        }
                        if before@.remove(name@).contains_key(k2) {
                            let j = choose|j: int| 0 <= j < old_entries.len() && old_entries[j].0@ == k2;
                            if j < i {
                                assert(entries@[j].0@ == k2);
                            } else {
                                assert(j != i);
                                assert(entries@[j - 1].0@ == k2);
                            }
                        }
                    }
                    assert forall|k2: Seq<char>| #[trigger] after@.contains_key(k2) implies after@[k2] == before@.remove(name@)[k2] by {
                        let j = choose|j: int| 0 <= j < entries@.len() && entries@[j].0@ == k2;
                        after.lemma_view_at(j);
                        let oj = if j < i { j } else { j + 1 };
                        assert(entries@[j] == old_entries[oj]);
                        before.lemma_view_at(oj);
                    }
                    assert(after@ =~= before@.remove(name@));
                }
                self.entries = entries;
                Some(v)
            },
        }
    }

    /// The position of `name`, if it is stored.
    fn position(&self, name: &str) -> (r: Option<usize>)
        ensures
            match r {
                Some(i) => i < self.entries@.len() && self.entries@[i as int].0@ == name@,
                None => !self@.contains_key(name@),
            },
    {
        let key: String = name.to_owned();
        let mut i: usize = 0;
        while i < self.entries.len()
            invariant
                i <= self.entries@.len(),
                key@ == name@,
                forall|j: int| 0 <= j < i ==> self.entries@[j].0@ != name@,
            decreases self.entries@.len() - i,
        {
            if self.entries[i].0 == key {
                return Some(i);
            }
            i = i + 1;
        }
        None
    }
}

} // verus!
