//! A map from names to values, kept as a list of entries with distinct
//! names.
use vstd::prelude::*;

verus! {

/// Values that can be copied with their contents kept.
pub trait Replicate: View + Sized {
    /// A copy with the same contents.
    fn replicate(&self) -> (r: Self)
        ensures
            r@ == self@,
    ;
}

/// Whether some entry of `entries` is named `name`.
pub open spec fn has_name<V>(entries: Seq<(String, V)>, name: Seq<char>) -> bool {
    exists|i: int| 0 <= i < entries.len() && (#[trigger] entries[i]).0@ == name
}

/// The index of an entry of `entries` that is named `name`.
pub open spec fn index_of<V>(entries: Seq<(String, V)>, name: Seq<char>) -> int {
    choose|i: int| 0 <= i < entries.len() && (#[trigger] entries[i]).0@ == name
}

/// Whether no two entries of `entries` have the same name.
pub open spec fn distinct_names<V>(entries: Seq<(String, V)>) -> bool {
    forall|i: int, j: int|
        0 <= i < j < entries.len() ==> (#[trigger] entries[i]).0@ != (#[trigger] entries[j]).0@
}

/// The map that `entries` stand for.
pub open spec fn entries_map<V: View>(entries: Seq<(String, V)>) -> Map<Seq<char>, V::V> {
    Map::new(
        |name: Seq<char>| has_name(entries, name),
        |name: Seq<char>| entries[index_of(entries, name)].1@,
    )
}

/// A finite map from names to values.
#[derive(Debug)]
pub struct Table<V> {
    entries: Vec<(String, V)>,
}

impl<V: View> View for Table<V> {
    type V = Map<Seq<char>, V::V>;

    closed spec fn view(&self) -> Map<Seq<char>, V::V> {
        entries_map(self.entries@)
    }
}

impl<V> Table<V> {
    #[verifier::type_invariant]
    spec fn names_are_distinct(self) -> bool {
        distinct_names(self.entries@)
    }
}

impl<V: View> Table<V> {
    /// The empty table.
    pub fn new() -> (r: Self)
        ensures
            r@ == Map::<Seq<char>, V::V>::empty(),
    {
        let r = Table { entries: Vec::new() };
        assert(r@ =~= Map::<Seq<char>, V::V>::empty());
        r
    }

    /// The index of the entry named `name`, if there is one.
    fn find(&self, name: &String) -> (r: Option<usize>)
        ensures
            match r {
                Some(i) => i < self.entries.len() && self.entries[i as int].0@ == name@,
                None => !has_name(self.entries@, name@),
            },
    {
        let mut i: usize = 0;
        while i < self.entries.len()
            invariant
                i <= self.entries.len(),
                forall|j: int| 0 <= j < i ==> (#[trigger] self.entries[j]).0@ != name@,
            decreases self.entries.len() - i,
        {
            if self.entries[i].0 == *name {
                return Some(i);
            }
            i += 1;
        }
        None
    }

    /// Whether `name` is bound.
    pub fn contains(&self, name: &String) -> (r: bool)
        ensures
            r == self@.contains_key(name@),
    {
        self.find(name).is_some()
    }

    /// The value bound to `name`, if any.
    pub fn get(&self, name: &String) -> (r: Option<&V>)
        ensures
            match r {
                Some(value) => self@.contains_key(name@) && value@ == self@[name@],
                None => !self@.contains_key(name@),
            },
    {
        proof {
            use_type_invariant(self);
        }
        match self.find(name) {
            Some(i) => {
                assert(has_name(self.entries@, name@));
                Some(&self.entries[i].1)
            },
            None => None,
        }
    }

    /// Binds `name` to `value`, in place of what it was bound to before.
    pub fn insert(&mut self, name: String, value: V)
        ensures
            final(self)@ == old(self)@.insert(name@, value@),
    {
        proof {
            use_type_invariant(&*self);
        }
        let ghost before = self.entries@;
        let found: Option<usize> = self.find(&name);
        let mut entries: Vec<(String, V)> = Vec::new();
        core::mem::swap(&mut self.entries, &mut entries);
        match found {
            Some(i) => {
                entries.set(i, (name, value));
                core::mem::swap(&mut self.entries, &mut entries);
                let ghost after = self.entries@;
                assert forall|k: Seq<char>| has_name(after, k) <==> has_name(before, k) by {
                    if has_name(after, k) {
                        let j = index_of(after, k);
                        assert(before[j].0@ == k);
                    }
                    if has_name(before, k) {
                        let j = index_of(before, k);
                        assert(after[j].0@ == k);
                    }
                }
                assert(has_name(before, name@));
                assert(self@ =~= old(self)@.insert(name@, value@));
            },
            None => {
                entries.push((name, value));
                core::mem::swap(&mut self.entries, &mut entries);
                let ghost after = self.entries@;
                assert(after[before.len() as int].0@ == name@);
                assert forall|k: Seq<char>| has_name(after, k) <==> (has_name(before, k) || k
                    == name@) by {
                    if has_name(after, k) {
                        let j = index_of(after, k);
                        if j < before.len() {
                            assert(before[j].0@ == k);
                        }
                    }
                    if has_name(before, k) {
                        let j = index_of(before, k);
                        assert(after[j].0@ == k);
                    }
                }
                assert(self@ =~= old(self)@.insert(name@, value@));
            },
        }
    }

    /// Removes the binding of `name`, if there is one.
    pub fn remove(&mut self, name: &String)
        ensures
            final(self)@ == old(self)@.remove(name@),
    {
        proof {
            use_type_invariant(&*self);
        }
        let ghost before = self.entries@;
        match self.find(name) {
            Some(i) => {
                let mut entries: Vec<(String, V)> = Vec::new();
                core::mem::swap(&mut self.entries, &mut entries);
                entries.remove(i);
                core::mem::swap(&mut self.entries, &mut entries);
                let ghost after = self.entries@;
                assert forall|k: Seq<char>| has_name(after, k) <==> (has_name(before, k) && k
                    != name@) by {
                    if has_name(after, k) {
                        let j = index_of(after, k);
                        if j < i {
                            assert(before[j].0@ == k);
                        } else {
                            assert(before[j + 1].0@ == k);
                        }
                    }
                    if has_name(before, k) && k != name@ {
                        let j = index_of(before, k);
                        if j < i {
                            assert(after[j].0@ == k);
                        } else {
                            assert(after[j - 1].0@ == k);
                        }
                    }
                }
                assert forall|k: Seq<char>| has_name(after, k) implies after[index_of(after, k)].1@
                    == before[index_of(before, k)].1@ by {
                    let j = index_of(after, k);
                    if j < i {
                        assert(before[j].0@ == k);
                    } else {
                        assert(before[j + 1].0@ == k);
                    }
                }
                assert(self@ =~= old(self)@.remove(name@));
            },
            None => {
                assert(self@ =~= old(self)@.remove(name@));
            },
        }
    }
}

impl<V: Replicate> Table<V> {
    /// A copy of the table with copies of its values.
    pub fn replicate(&self) -> (r: Self)
        ensures
            r@ == self@,
    {
        proof {
            use_type_invariant(self);
        }
        let mut entries: Vec<(String, V)> = Vec::new();
        let mut i: usize = 0;
        while i < self.entries.len()
            invariant
                i <= self.entries.len(),
                entries.len() == i,
                forall|j: int|
                    0 <= j < i ==> (#[trigger] entries[j]).0@ == self.entries[j].0@ && entries[j].1@
                        == self.entries[j].1@,
            decreases self.entries.len() - i,
        {
            entries.push((self.entries[i].0.clone(), self.entries[i].1.replicate()));
            i += 1;
        }
        let ghost mine = self.entries@;
        let ghost copy = entries@;
        assert forall|k: Seq<char>| has_name(copy, k) <==> has_name(mine, k) by {
            if has_name(copy, k) {
                let j = index_of(copy, k);
                assert(mine[j].0@ == k);
            }
            if has_name(mine, k) {
                let j = index_of(mine, k);
                assert(copy[j].0@ == k);
            }
        }
        assert forall|k: Seq<char>| has_name(copy, k) implies copy[index_of(copy, k)].1@
            == mine[index_of(mine, k)].1@ by {
            let j = index_of(copy, k);
            assert(mine[j].0@ == k);
        }
        let r = Table { entries };
        assert(r@ =~= self@);
        r
    }
}

} // verus!
