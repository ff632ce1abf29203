//! A table of values keyed by name, in which no name occurs twice.
//!
//! The table keeps its entries in the order in which they were added. Its
//! model is the sequence of names together with the sequence of values; the
//! map from names to values is derived from the two.

use vstd::prelude::*;

verus! {

/// The map that sends `names[i]` to `values[i]`.
pub open spec fn entries_map<T>(names: Seq<Seq<char>>, values: Seq<T>) -> Map<Seq<char>, T> {
    Map::new(|k: Seq<char>| names.contains(k), |k: Seq<char>| values[names.index_of(k)])
}

/// In a sequence without duplicates, `index_of` finds the position of each
/// element.
pub proof fn lemma_index_of_unique(names: Seq<Seq<char>>, i: int)
    requires
        names.no_duplicates(),
        0 <= i < names.len(),
    ensures
        names.contains(names[i]),
        names.index_of(names[i]) == i,
{
    let j = names.index_of(names[i]);
    assert(names.contains(names[i]));
    assert(0 <= j < names.len() && names[j] == names[i]);
}

/// Adding an entry under a name that is not yet present extends the map by
/// that entry.
pub proof fn lemma_entries_push<T>(names: Seq<Seq<char>>, values: Seq<T>, name: Seq<char>, value: T)
    requires
        names.no_duplicates(),
        names.len() == values.len(),
        !names.contains(name),
    ensures
        names.push(name).no_duplicates(),
        entries_map(names.push(name), values.push(value)) == entries_map(names, values).insert(
            name,
            value,
        ),
{
    let names2 = names.push(name);
    let values2 = values.push(value);
    assert forall|i: int, j: int| 0 <= i < names2.len() && 0 <= j < names2.len() && i != j implies names2[i]
        != names2[j] by {
        if i < names.len() && j < names.len() {
        } else if i < names.len() {
            assert(names.contains(names[i]));
        } else {
            assert(names.contains(names[j]));
        }
    }
    let before = entries_map(names, values);
    let after = entries_map(names2, values2);
    assert forall|k: Seq<char>| after.dom().contains(k) <==> before.insert(name, value).dom().contains(
        k,
    ) by {
        if names2.contains(k) {
            let i = names2.index_of(k);
            if i < names.len() {
                assert(names[i] == k);
            }
        }
        if names.contains(k) {
            let i = names.index_of(k);
            assert(names2[i] == k);
        }
        if k == name {
            assert(names2[names.len() as int] == k);
        }
    }
    assert forall|k: Seq<char>| after.dom().contains(k) implies after[k] == before.insert(
        name,
        value,
    )[k] by {
        let i = names2.index_of(k);
        lemma_index_of_unique(names2, i);
        if k != name {
            assert(i < names.len());
            lemma_index_of_unique(names, i);
        } else {
            lemma_index_of_unique(names2, names.len() as int);
        }
    }
    assert(after =~= before.insert(name, value));
}

/// Removing the entry at a position removes its name from the map.
pub proof fn lemma_entries_remove<T>(names: Seq<Seq<char>>, values: Seq<T>, i: int)
    requires
        names.no_duplicates(),
        names.len() == values.len(),
        0 <= i < names.len(),
    ensures
        names.remove(i).no_duplicates(),
        !names.remove(i).contains(names[i]),
        entries_map(names.remove(i), values.remove(i)) == entries_map(names, values).remove(names[i]),
{
    let names2 = names.remove(i);
    let values2 = values.remove(i);
    assert forall|a: int| 0 <= a < names2.len() implies names2[a] == names[if a < i {
        a
    } else {
        a + 1
    }] by {}
    assert forall|a: int, b: int| 0 <= a < names2.len() && 0 <= b < names2.len() && a != b implies names2[a]
        != names2[b] by {}
    if names2.contains(names[i]) {
        let a = names2.index_of(names[i]);
        assert(names2[a] == names[i]);
    }
    let before = entries_map(names, values);
    let after = entries_map(names2, values2);
    assert forall|k: Seq<char>| after.dom().contains(k) <==> before.remove(names[i]).dom().contains(
        k,
    ) by {
        if names2.contains(k) {
            let a = names2.index_of(k);
            assert(names[if a < i {
                a
            } else {
                a + 1
            }] == k);
        }
        if names.contains(k) && k != names[i] {
            let a = names.index_of(k);
            assert(names2[if a < i {
                a
            } else {
                a - 1
            }] == k);
        }
    }
    assert forall|k: Seq<char>| after.dom().contains(k) implies after[k] == before.remove(
        names[i],
    )[k] by {
        let a = names2.index_of(k);
        lemma_index_of_unique(names2, a);
        let b = if a < i {
            a
        } else {
            a + 1
        };
        lemma_index_of_unique(names, b);
    }
    assert(after =~= before.remove(names[i]));
}

/// Replacing the value at a position replaces the value under its name.
pub proof fn lemma_entries_update<T>(names: Seq<Seq<char>>, values: Seq<T>, i: int, value: T)
    requires
        names.no_duplicates(),
        names.len() == values.len(),
        0 <= i < names.len(),
    ensures
        entries_map(names, values.update(i, value)) == entries_map(names, values).insert(
            names[i],
            value,
        ),
{
    let before = entries_map(names, values);
    let after = entries_map(names, values.update(i, value));
    assert(names.contains(names[i]));
    assert forall|k: Seq<char>| after.dom().contains(k) implies after[k] == before.insert(
        names[i],
        value,
    )[k] by {
        let a = names.index_of(k);
        lemma_index_of_unique(names, i);
    }
    assert(after =~= before.insert(names[i], value));
}

/// The names of a table, without its values.
#[derive(Debug)]
pub struct NameList {
    names: Vec<String>,
}

impl NameList {
    /// No name occurs twice.
    #[verifier::type_invariant]
    pub closed spec fn wf(&self) -> bool {
        self.names().no_duplicates()
    }

    /// The names, in order.
    pub closed spec fn names(&self) -> Seq<Seq<char>> {
        Seq::new(self.names.len() as nat, |i: int| self.names[i]@)
    }

    /// The number of names.
    pub fn len(&self) -> (n: usize)
        ensures
            n == self.names().len(),
    {
        self.names.len()
    }

    /// The name at a position.
    pub fn name_at(&self, i: usize) -> (name: &str)
        requires
            i < self.names().len(),
        ensures
            name@ == self.names()[i as int],
    {
        self.names[i].as_str()
    }

    /// The table that has these names and, position by position, the given
    /// values.
    pub fn with_values<T>(self, values: Vec<T>) -> (table: NameTable<T>)
        requires
            values.len() == self.names().len(),
        ensures
            table.wf(),
            table.names() == self.names(),
            table.values() == values@,
    {
        proof {
            use_type_invariant(&self);
        }
        let ghost names = self.names();
        let NameList { names: list } = self;
        let table = NameTable { names: list, values };
        assert(table.names() =~= names);
        table
    }
}

/// Values keyed by name. No name occurs twice, and entries stay in the order
/// in which they were added.
#[derive(Debug)]
pub struct NameTable<T> {
    names: Vec<String>,
    values: Vec<T>,
}

impl<T> NameTable<T> {
    /// Every name has a value, and no name occurs twice.
    #[verifier::type_invariant]
    pub closed spec fn wf(&self) -> bool {
        &&& self.names.len() == self.values.len()
        &&& self.names().no_duplicates()
    }

    /// The names, in the order in which they were added.
    pub closed spec fn names(&self) -> Seq<Seq<char>> {
        Seq::new(self.names.len() as nat, |i: int| self.names[i]@)
    }

    /// The values, each at the position of its name.
    pub closed spec fn values(&self) -> Seq<T> {
        self.values@
    }

    /// Whether an entry of that name is present.
    pub open spec fn contains(&self, name: Seq<char>) -> bool {
        self.names().contains(name)
    }

    /// The position of the entry of that name.
    pub open spec fn index_of(&self, name: Seq<char>) -> int {
        self.names().index_of(name)
    }

    /// The table as a map from names to values.
    pub open spec fn view(&self) -> Map<Seq<char>, T> {
        entries_map(self.names(), self.values())
    }

    /// What `wf` says, over `names` and `values`.
    pub proof fn lemma_wf(&self)
        requires
            self.wf(),
        ensures
            self.names().len() == self.values().len(),
            self.names().len() <= usize::MAX,
            self.names().no_duplicates(),
    {
    }

    /// A table without entries.
    pub fn new() -> (table: Self)
        ensures
            table.wf(),
            table.names() == Seq::<Seq<char>>::empty(),
            table.values() == Seq::<T>::empty(),
    {
        let table = NameTable { names: Vec::new(), values: Vec::new() };
        assert(table.names() =~= Seq::<Seq<char>>::empty());
        table
    }

    /// The number of entries.
    pub fn len(&self) -> (n: usize)
        ensures
            self.wf(),
            n == self.names().len(),
            n == self.values().len(),
    {
        proof {
            use_type_invariant(self);
        }
        self.names.len()
    }

    /// The position of the entry of that name, if there is one.
    pub fn find(&self, name: &str) -> (found: Option<usize>)
        ensures
            self.wf(),
            match found {
                Some(i) => i < self.names().len() && self.names()[i as int] == name@
                    && self.index_of(name@) == i,
                None => !self.contains(name@),
            },
    {
        proof {
            use_type_invariant(self);
        }
        let key = name.to_owned();
        let mut i: usize = 0;
        while i < self.names.len()
            invariant
                self.wf(),
                i <= self.names.len(),
                key@ == name@,
                self.names().len() == self.names.len(),
                forall|j: int| 0 <= j < i ==> self.names()[j] != name@,
            decreases self.names.len() - i,
        {
            if self.names[i] == key {
                proof {
                    lemma_index_of_unique(self.names(), i as int);
                }
                return Some(i);
            }
            i += 1;
        }
        None
    }

    /// The name at a position.
    pub fn name_at(&self, i: usize) -> (name: &str)
        requires
            i < self.names().len(),
        ensures
            name@ == self.names()[i as int],
    {
        proof {
            use_type_invariant(self);
        }
        self.names[i].as_str()
    }

    /// Whether the name at a position is the given one.
    pub fn name_equals(&self, i: usize, name: &str) -> (equal: bool)
        requires
            i < self.names().len(),
        ensures
            equal == (self.names()[i as int] == name@),
    {
        proof {
            use_type_invariant(self);
        }
        let key = name.to_owned();
        self.names[i] == key
    }

    /// The entries, in order.
    pub fn entries(&self) -> (entries: Vec<(&str, &T)>)
        ensures
            entries.len() == self.names().len(),
            entries.len() == self.values().len(),
            forall|i: int|
                0 <= i < entries.len() ==> (#[trigger] entries[i]).0@ == self.names()[i]
                    && *entries[i].1 == self.values()[i],
    {
        proof {
            use_type_invariant(self);
        }
        let mut entries: Vec<(&str, &T)> = Vec::new();
        let mut i: usize = 0;
        while i < self.names.len()
            invariant
                self.wf(),
                i <= self.names.len(),
                entries.len() == i,
                self.names().len() == self.names.len(),
                forall|j: int|
                    0 <= j < i ==> (#[trigger] entries[j]).0@ == self.names()[j] && *entries[j].1
                        == self.values()[j],
            decreases self.names.len() - i,
        {
            entries.push((self.names[i].as_str(), &self.values[i]));
            i += 1;
        }
        entries
    }

    /// The entry at a position, with its value for writing. The names stay
    /// as they are.
    pub fn entry_at_mut(&mut self, i: usize) -> (entry: (&str, &mut T))
        requires
            i < old(self).values().len(),
        ensures
            entry.0@ == old(self).names()[i as int],
            *entry.1 == old(self).values()[i as int],
            final(self).wf(),
            final(self).names() == old(self).names(),
            final(self).values() == old(self).values().update(i as int, *final(entry.1)),
    {
        proof {
            use_type_invariant(&*self);
        }
        (self.names[i].as_str(), &mut self.values[i])
    }

    /// The names and the values, apart.
    pub fn into_parts(self) -> (parts: (NameList, Vec<T>))
        ensures
            parts.0.names() == self.names(),
            parts.1@ == self.values(),
            parts.0.names().len() == parts.1.len(),
    {
        proof {
            use_type_invariant(&self);
        }
        let ghost names = self.names();
        let NameTable { names: list, values } = self;
        let list = NameList { names: list };
        assert(list.names() =~= names);
        (list, values)
    }

    /// The value at a position.
    pub fn value_at(&self, i: usize) -> (value: &T)
        requires
            i < self.values().len(),
        ensures
            *value == self.values()[i as int],
    {
        &self.values[i]
    }

    /// The value at a position, for writing. The names stay as they are.
    pub fn value_at_mut(&mut self, i: usize) -> (value: &mut T)
        requires
            i < old(self).values().len(),
        ensures
            *value == old(self).values()[i as int],
            final(self).wf(),
            final(self).names() == old(self).names(),
            final(self).values() == old(self).values().update(i as int, *final(value)),
    {
        proof {
            use_type_invariant(&*self);
        }
        &mut self.values[i]
    }

    /// Adds an entry at the end if the name is not yet present; otherwise
    /// hands the entry back and leaves the table as it was.
    pub fn insert(&mut self, name: String, value: T) -> (refused: Option<(String, T)>)
        ensures
            final(self).wf(),
            old(self).contains(name@) ==> {
                &&& refused == Some((name, value))
                &&& final(self).names() == old(self).names()
                &&& final(self).values() == old(self).values()
            },
            !old(self).contains(name@) ==> {
                &&& refused.is_none()
                &&& final(self).names() == old(self).names().push(name@)
                &&& final(self).values() == old(self).values().push(value)
            },
    {
        proof {
            use_type_invariant(&*self);
        }
        match self.find(name.as_str()) {
            Some(_) => Some((name, value)),
            None => {
                let mut taken = NameTable { names: Vec::new(), values: Vec::new() };
                assert(taken.names() =~= Seq::<Seq<char>>::empty());
                core::mem::swap(self, &mut taken);
                let NameTable { mut names, mut values } = taken;
                let ghost before = Seq::new(names.len() as nat, |i: int| names[i]@);
                names.push(name);
                values.push(value);
                proof {
                    let after = Seq::new(names.len() as nat, |i: int| names[i]@);
                    assert(after =~= before.push(name@));
                    lemma_entries_push(before, old(self).values(), name@, value);
                }
                *self = NameTable { names, values };
                None
            },
        }
    }

    /// Takes the entry of that name out of the table, if there is one. The
    /// other entries keep their order.
    pub fn remove(&mut self, name: &str) -> (taken: Option<(String, T)>)
        ensures
            final(self).wf(),
            match taken {
                Some((key, value)) => {
                    &&& old(self).contains(name@)
                    &&& key@ == name@
                    &&& value == old(self).values()[old(self).index_of(name@)]
                    &&& final(self).names() == old(self).names().remove(old(self).index_of(name@))
                    &&& final(self).values() == old(self).values().remove(
                        old(self).index_of(name@),
                    )
                },
                None => {
                    &&& !old(self).contains(name@)
                    &&& final(self).names() == old(self).names()
                    &&& final(self).values() == old(self).values()
                },
            },
    {
        proof {
            use_type_invariant(&*self);
        }
        match self.find(name) {
            None => None,
            Some(i) => {
                let mut taken = NameTable { names: Vec::new(), values: Vec::new() };
                assert(taken.names() =~= Seq::<Seq<char>>::empty());
                core::mem::swap(self, &mut taken);
                let NameTable { mut names, mut values } = taken;
                let ghost before = Seq::new(names.len() as nat, |i: int| names[i]@);
                let key = names.remove(i);
                let value = values.remove(i);
                proof {
                    let after = Seq::new(names.len() as nat, |i: int| names[i]@);
                    assert(after =~= before.remove(i as int));
                    lemma_entries_remove(before, old(self).values(), i as int);
                }
                *self = NameTable { names, values };
                Some((key, value))
            },
        }
    }
}

} // verus!
