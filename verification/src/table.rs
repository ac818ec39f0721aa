//! A table of records keyed by name.

use vstd::prelude::*;

verus! {

/// A finite map from names to records. No name occurs twice.
pub struct NameTable<T> {
    names: Vec<String>,
    values: Vec<T>,
}

impl<T> NameTable<T> {
    /// The table holds one record for each of its names.
    pub closed spec fn wf(&self) -> bool {
        &&& self.names.len() == self.values.len()
        &&& forall|i: int, j: int|
            0 <= i < j < self.names.len() ==> (#[trigger] self.names[i])@ != (
            #[trigger] self.names[j])@
    }

    /// The number of entries.
    pub closed spec fn spec_len(&self) -> nat {
        self.names.len() as nat
    }

    /// The name of the entry at position `i`.
    pub closed spec fn name_at(&self, i: int) -> Seq<char> {
        self.names[i]@
    }

    /// The record of the entry at position `i`.
    pub closed spec fn value_at(&self, i: int) -> T {
        self.values[i]
    }

    /// Whether the table holds an entry named `name`.
    pub open spec fn has(&self, name: Seq<char>) -> bool {
        exists|i: int| 0 <= i < self.spec_len() && #[trigger] self.name_at(i) == name
    }

    /// The position of the entry named `name`.
    pub open spec fn position(&self, name: Seq<char>) -> int {
        choose|i: int| 0 <= i < self.spec_len() && #[trigger] self.name_at(i) == name
    }

    /// The table as a map.
    pub open spec fn map(&self) -> Map<Seq<char>, T> {
        Map::new(
            |name: Seq<char>| self.has(name),
            |name: Seq<char>| self.value_at(self.position(name)),
        )
    }

    /// The entry at position `i` is what the map holds for its name.
    pub proof fn lemma_entry(&self, i: int)
        requires
            self.wf(),
            0 <= i < self.spec_len(),
        ensures
            self.map().contains_key(self.name_at(i)),
            self.map()[self.name_at(i)] == self.value_at(i),
            self.position(self.name_at(i)) == i,
    {
        let j = self.position(self.name_at(i));
        assert(self.name_at(i) == self.name_at(i));
        if j < i {
            assert(self.names[j]@ != self.names[i]@);
        } else if i < j {
            assert(self.names[i]@ != self.names[j]@);
        }
    }

    /// An empty table.
    pub fn new() -> (table: Self)
        ensures
            table.wf(),
            table.spec_len() == 0,
            table.map() == Map::<Seq<char>, T>::empty(),
    {
        let table = NameTable { names: Vec::new(), values: Vec::new() };
        assert(table.map() =~= Map::<Seq<char>, T>::empty());
        table
    }

    /// The number of entries.
    pub fn len(&self) -> (n: usize)
        requires
            self.wf(),
        ensures
            n == self.spec_len(),
    {
        self.names.len()
    }

    /// The position of the entry named `name`, if there is one.
    pub fn find(&self, name: &String) -> (found: Option<usize>)
        requires
            self.wf(),
        ensures
            found is Some <==> self.map().contains_key(name@),
            found is Some ==> found->0 < self.spec_len() && self.name_at(found->0 as int) == name@
                && self.map()[name@] == self.value_at(found->0 as int),
    {
        let n: usize = self.names.len();
        let mut i: usize = 0;
        while i < n
            invariant
                self.wf(),
                n == self.names.len(),
                i <= n,
                forall|j: int| 0 <= j < i ==> #[trigger] self.name_at(j) != name@,
            decreases n - i,
        {
            if self.names[i] == *name {
                proof {
                    self.lemma_entry(i as int);
                }
                return Some(i);
            }
            i += 1;
        }
        None
    }

    /// The record at position `i`.
    pub fn get(&self, i: usize) -> (value: &T)
        requires
            self.wf(),
            i < self.spec_len(),
        ensures
            *value == self.value_at(i as int),
    {
        &self.values[i]
    }

    /// Gives `name` the record `value`, in place of the one it had if it had
    /// one.
    pub fn insert(&mut self, name: String, value: T)
        requires
            old(self).wf(),
        ensures
            final(self).wf(),
            final(self).map() == old(self).map().insert(name@, value),
    {
        match self.find(&name) {
            Some(i) => {
                self.set_at(i, value);
            },
            None => {
                let ghost before = *self;
                self.names.push(name);
                self.values.push(value);
                proof {
                    let n = before.spec_len() as int;
                    assert forall|i: int, j: int| 0 <= i < j < self.names.len() implies (
                    #[trigger] self.names[i])@ != (#[trigger] self.names[j])@ by {
                        if j == n {
                            assert(before.name_at(i) != name@);
                        }
                    }
                    assert forall|k: Seq<char>| #[trigger]
                        self.map().contains_key(k) == before.map().insert(
                            name@,
                            value,
                        ).contains_key(k) by {
                        if k == name@ {
                            assert(self.name_at(n) == k);
                        } else if before.has(k) {
                            let i = before.position(k);
                            assert(self.name_at(i) == k);
                        } else if self.has(k) {
                            let i = self.position(k);
                            assert(before.name_at(i) == k);
                        }
                    }
                    assert forall|k: Seq<char>| #[trigger]
                        self.map().contains_key(k) implies self.map()[k] == before.map().insert(
                        name@,
                        value,
                    )[k] by {
                        let i = self.position(k);
                        self.lemma_entry(i);
                        if i < n {
                            before.lemma_entry(i);
                        }
                    }
                    assert(self.map() =~= before.map().insert(name@, value));
                }
            },
        }
    }

    /// Replaces the record at position `i`.
    pub fn set_at(&mut self, i: usize, value: T)
        requires
            old(self).wf(),
            i < old(self).spec_len(),
        ensures
            final(self).wf(),
            final(self).spec_len() == old(self).spec_len(),
            final(self).map() == old(self).map().insert(old(self).name_at(i as int), value),
            forall|j: int|
                0 <= j < old(self).spec_len() ==> final(self).name_at(j) == old(self).name_at(j),
            forall|j: int|
                0 <= j < old(self).spec_len() && j != i ==> final(self).value_at(j) == old(
                    self
                ).value_at(j),
            final(self).value_at(i as int) == value,
    {
        let ghost before = *self;
        self.values[i] = value;
        proof {
            let name = before.name_at(i as int);
            assert forall|k: Seq<char>| #[trigger]
                self.map().contains_key(k) == before.map().insert(name, value).contains_key(
                    k,
                ) by {
                if before.has(k) {
                    let j = before.position(k);
                    assert(self.name_at(j) == k);
                } else if self.has(k) {
                    let j = self.position(k);
                    assert(before.name_at(j) == k);
                }
                if k == name {
                    assert(self.name_at(i as int) == k);
                }
            }
            assert forall|k: Seq<char>| #[trigger] self.map().contains_key(k) implies self.map()[k]
                == before.map().insert(name, value)[k] by {
                let j = self.position(k);
                self.lemma_entry(j);
                before.lemma_entry(j);
            }
            assert(self.map() =~= before.map().insert(name, value));
        }
    }

    /// Takes the entry at position `i` out. The entries after it move one
    /// position down.
    pub fn remove_at(&mut self, i: usize)
        requires
            old(self).wf(),
            i < old(self).spec_len(),
        ensures
            final(self).wf(),
            final(self).spec_len() == old(self).spec_len() - 1,
            final(self).map() == old(self).map().remove(old(self).name_at(i as int)),
            forall|j: int|
                0 <= j < i ==> final(self).name_at(j) == old(self).name_at(j) && final(
                    self
                ).value_at(j) == old(self).value_at(j),
            forall|j: int|
                i <= j < final(self).spec_len() ==> final(self).name_at(j) == old(self).name_at(
                    j + 1,
                ) && final(self).value_at(j) == old(self).value_at(j + 1),
    {
        let ghost before = *self;
        self.names.remove(i);
        self.values.remove(i);
        proof {
            let name = before.name_at(i as int);
            assert forall|a: int, b: int| 0 <= a < b < self.names.len() implies (
            #[trigger] self.names[a])@ != (#[trigger] self.names[b])@ by {
                let a0 = if a < i { a } else { a + 1 };
                let b0 = if b < i { b } else { b + 1 };
                assert(before.names[a0]@ != before.names[b0]@);
            }
            assert forall|k: Seq<char>| #[trigger]
                self.map().contains_key(k) == before.map().remove(name).contains_key(k) by {
                if before.has(k) && k != name {
                    let j = before.position(k);
                    let j1 = if j < i { j } else { j - 1 };
                    assert(self.name_at(j1) == k);
                }
                if self.has(k) {
                    let j = self.position(k);
                    let j0 = if j < i { j } else { j + 1 };
                    assert(before.name_at(j0) == k);
                    if k == name {
                        before.lemma_entry(j0);
                        before.lemma_entry(i as int);
                    }
                }
            }
            assert forall|k: Seq<char>| #[trigger] self.map().contains_key(k) implies self.map()[k]
                == before.map().remove(name)[k] by {
                let j = self.position(k);
                let j0 = if j < i { j } else { j + 1 };
                self.lemma_entry(j);
                before.lemma_entry(j0);
            }
            assert(self.map() =~= before.map().remove(name));
        }
    }
}

} // verus!
