//! The binding environment: variable names bound to values. Its model is a
//! map from names to value models.

use crate::values::{EllexValue, ValueModel};
use vstd::prelude::*;

verus! {

/// One name bound to one value.
#[derive(Debug, Clone)]
pub struct Binding {
    pub name: String,
    pub value: EllexValue,
}

/// The index of the first entry named `name`, or the length if none is.
pub open spec fn first_index(entries: Seq<Binding>, name: Seq<char>) -> int
    decreases entries.len(),
{
    if entries.len() == 0 {
        0
    } else if entries[0].name@ == name {
        0
    } else {
        1 + first_index(entries.drop_first(), name)
    }
}

/// `first_index` is the least index that holds the name.
pub proof fn lemma_first_index(entries: Seq<Binding>, name: Seq<char>)
    ensures
        0 <= first_index(entries, name) <= entries.len(),
        first_index(entries, name) < entries.len() ==> entries[first_index(entries, name)].name@
            == name,
        forall|j: int| 0 <= j < first_index(entries, name) ==> entries[j].name@ != name,
    decreases entries.len(),
{
    if entries.len() > 0 && entries[0].name@ != name {
        let rest = entries.drop_first();
        lemma_first_index(rest, name);
        assert forall|j: int| 0 <= j < first_index(entries, name) implies entries[j].name@
            != name by {
            if j > 0 {
                assert(rest[j - 1] == entries[j]);
            }
        }
    }
}

/// An index that holds the name and has no earlier match is the first one.
pub proof fn lemma_first_index_is(entries: Seq<Binding>, name: Seq<char>, i: int)
    requires
        0 <= i <= entries.len(),
        i < entries.len() ==> entries[i].name@ == name,
        forall|j: int| 0 <= j < i ==> entries[j].name@ != name,
    ensures
        first_index(entries, name) == i,
{
    lemma_first_index(entries, name);
    let f = first_index(entries, name);
    if f < i {
        assert(entries[f].name@ != name);
    }
}

/// Where the name `k` stands after `key` was bound: in place of its first
/// entry, or at the end if it had none.
pub proof fn lemma_insert_key(before: Seq<Binding>, after: Seq<Binding>, key: Seq<char>, k: Seq<char>)
    requires
        ({
            let i = first_index(before, key);
            if i < before.len() {
                &&& after.len() == before.len()
                &&& after[i].name@ == key
                &&& forall|j: int| 0 <= j < before.len() && j != i ==> after[j] == before[j]
            } else {
                &&& after.len() == before.len() + 1
                &&& after[i].name@ == key
                &&& forall|j: int| 0 <= j < before.len() ==> after[j] == before[j]
            }
        }),
    ensures
        k == key ==> first_index(after, k) == first_index(before, key),
        k != key && first_index(before, k) < before.len() ==> first_index(after, k) == first_index(
            before,
            k,
        ) && after[first_index(after, k)] == before[first_index(before, k)],
        k != key && first_index(before, k) >= before.len() ==> first_index(after, k)
            == after.len(),
{
    let i = first_index(before, key);
    lemma_first_index(before, key);
    lemma_first_index(before, k);
    let f = first_index(before, k);
    if k == key {
        assert forall|j: int| 0 <= j < i implies after[j].name@ != k by {
            assert(after[j] == before[j]);
        }
        lemma_first_index_is(after, k, i);
    } else if f < before.len() {
        assert(f != i);
        assert forall|j: int| 0 <= j < f implies after[j].name@ != k by {
            if j != i {
                assert(after[j] == before[j]);
            }
        }
        assert(after[f] == before[f]);
        lemma_first_index_is(after, k, f);
    } else {
        assert forall|j: int| 0 <= j < after.len() implies after[j].name@ != k by {
            if j != i {
                assert(after[j] == before[j]);
            }
        }
        lemma_first_index_is(after, k, after.len() as int);
    }
}

/// The map that a list of entries stands for: a name is bound if an entry
/// holds it, to the value of the first such entry.
pub open spec fn entries_map(entries: Seq<Binding>) -> Map<Seq<char>, ValueModel> {
    Map::new(
        |name: Seq<char>| first_index(entries, name) < entries.len(),
        |name: Seq<char>| entries[first_index(entries, name)].value@,
    )
}

/// Variable names bound to values.
#[derive(Debug)]
pub struct Bindings {
    entries: Vec<Binding>,
}

impl View for Bindings {
    type V = Map<Seq<char>, ValueModel>;

    closed spec fn view(&self) -> Map<Seq<char>, ValueModel> {
        entries_map(self.entries@)
    }
}

/// The names of a list of entries, in order.
pub open spec fn entry_names(entries: Seq<Binding>) -> Seq<Seq<char>> {
    Seq::new(entries.len(), |i: int| entries[i].name@)
}

impl Bindings {
    #[verifier::type_invariant]
    spec fn names_are_distinct(&self) -> bool {
        forall|i: int, j: int|
            0 <= i < j < self.entries.len() ==> self.entries[i].name@ != self.entries[j].name@
    }

    /// The bound names, in the order in which they were first bound.
    pub closed spec fn names(&self) -> Seq<Seq<char>> {
        entry_names(self.entries@)
    }

    /// No name is bound.
    pub fn new() -> (b: Self)
        ensures
            b@ == Map::<Seq<char>, ValueModel>::empty(),
            b.names() == Seq::<Seq<char>>::empty(),
    {
        let b = Bindings { entries: Vec::new() };
        assert(b@ =~= Map::<Seq<char>, ValueModel>::empty());
        assert(b.names() =~= Seq::<Seq<char>>::empty());
        b
    }

    fn position(&self, name: &str) -> (i: usize)
        ensures
            i == first_index(self.entries@, name@),
            i <= self.entries.len(),
    {
        let mut i: usize = 0;
        while i < self.entries.len()
            invariant
                0 <= i <= self.entries.len(),
                forall|j: int| 0 <= j < i ==> self.entries[j].name@ != name@,
            decreases self.entries.len() - i,
        {
            if crate::text::same_text(self.entries[i].name.as_str(), name) {
                proof {
                    lemma_first_index_is(self.entries@, name@, i as int);
                }
                return i;
            }
            i += 1;
        }
        proof {
            lemma_first_index_is(self.entries@, name@, i as int);
        }
        i
    }

    /// The value bound to `name`, if any.
    pub fn get(&self, name: &str) -> (r: Option<&EllexValue>)
        ensures
            r is Some <==> self@.contains_key(name@),
            r is Some ==> r.unwrap()@ == self@[name@],
    {
        let i = self.position(name);
        if i < self.entries.len() {
            Some(&self.entries[i].value)
        } else {
            None
        }
    }

    /// Whether `name` is bound.
    pub fn contains(&self, name: &str) -> (r: bool)
        ensures
            r == self@.contains_key(name@),
    {
        let i = self.position(name);
        i < self.entries.len()
    }

    /// Binds `name` to `value`, replacing an earlier binding of the name.
    pub fn insert(&mut self, name: String, value: EllexValue)
        ensures
            final(self)@ == old(self)@.insert(name@, value@),
    {
        proof {
            use_type_invariant(&*self);
        }
        let i = self.position(name.as_str());
        let ghost before = self.entries@;
        let ghost key = name@;
        let ghost model = value@;
        proof {
            lemma_first_index(before, key);
        }
        let mut entries: Vec<Binding> = Vec::new();
        std::mem::swap(&mut entries, &mut self.entries);
        if i < entries.len() {
            entries.set(i, Binding { name, value });
        } else {
            entries.push(Binding { name, value });
        }
        proof {
            assert forall|a: int, b: int| 0 <= a < b < entries.len() implies entries[a].name@
                != entries[b].name@ by {
                if a < before.len() && a != i {
                    assert(entries[a] == before[a]);
                }
                if b < before.len() && b != i {
                    assert(entries[b] == before[b]);
                }
            }
        }
        std::mem::swap(&mut entries, &mut self.entries);
        proof {
            let after = self.entries@;
            assert(self@ =~= old(self)@.insert(key, model)) by {
                assert forall|k: Seq<char>|
                    self@.contains_key(k) == #[trigger] old(self)@.insert(key, model).contains_key(
                        k,
                    ) by {
                    lemma_insert_key(before, after, key, k);
                }
                assert forall|k: Seq<char>| self@.contains_key(k) implies #[trigger] self@[k]
                    == old(self)@.insert(key, model)[k] by {
                    lemma_insert_key(before, after, key, k);
                }
            }
        }
    }

    /// The number of bound names. No name is counted twice, and the names
    /// counted are those that the map binds.
    pub fn len(&self) -> (n: usize)
        ensures
            n == self.names().len(),
            self.names().no_duplicates(),
            forall|name: Seq<char>| self@.contains_key(name) <==> self.names().contains(name),
    {
        proof {
            use_type_invariant(self);
            assert forall|name: Seq<char>| self@.contains_key(name) <==> self.names().contains(
                name,
            ) by {
                lemma_first_index(self.entries@, name);
                if self@.contains_key(name) {
                    assert(self.names()[first_index(self.entries@, name)] == name);
                }
                if self.names().contains(name) {
                    let i = choose|i: int| 0 <= i < self.names().len() && self.names()[i] == name;
                    assert(self.entries[i].name@ == name);
                }
            }
        }
        self.entries.len()
    }

    /// Whether no name is bound.
    pub fn is_empty(&self) -> (r: bool)
        ensures
            r == (self@ == Map::<Seq<char>, ValueModel>::empty()),
    {
        proof {
            if self.entries.len() == 0 {
                assert(self@ =~= Map::<Seq<char>, ValueModel>::empty());
            } else {
                assert(first_index(self.entries@, self.entries[0].name@) == 0);
                assert(self@.contains_key(self.entries[0].name@));
            }
        }
        self.entries.len() == 0
    }

    /// A copy of `self`.
    pub fn duplicate(&self) -> (b: Self)
        ensures
            b@ == self@,
            b.names() == self.names(),
    {
        proof {
            use_type_invariant(self);
        }
        let mut entries: Vec<Binding> = Vec::new();
        let mut i: usize = 0;
        while i < self.entries.len()
            invariant
                0 <= i <= self.entries.len(),
                entries.len() == i,
                forall|j: int|
                    0 <= j < i ==> (#[trigger] entries[j]).name@ == self.entries[j].name@
                        && entries[j].value@ == self.entries[j].value@,
            decreases self.entries.len() - i,
        {
            let entry = &self.entries[i];
            entries.push(Binding { name: entry.name.clone(), value: entry.value.duplicate() });
            i += 1;
        }
        proof {
            assert forall|a: int, b: int| 0 <= a < b < entries.len() implies entries[a].name@
                != entries[b].name@ by {
                assert(entries[a].name@ == self.entries[a].name@);
                assert(entries[b].name@ == self.entries[b].name@);
            }
        }
        let b = Bindings { entries };
        proof {
            assert forall|k: Seq<char>|
                first_index(b.entries@, k) == #[trigger] first_index(self.entries@, k) by {
                lemma_first_index(self.entries@, k);
                let f = first_index(self.entries@, k);
                assert forall|j: int| 0 <= j < f implies b.entries[j].name@ != k by {
                    assert(b.entries[j].name@ == self.entries[j].name@);
                }
                if f < self.entries.len() {
                    assert(b.entries[f].name@ == self.entries[f].name@);
                }
                lemma_first_index_is(b.entries@, k, f);
            }
            assert(b@ =~= self@) by {
                assert forall|k: Seq<char>| b@.contains_key(k) implies b@[k] == self@[k] by {
                    let f = first_index(self.entries@, k);
                    assert(first_index(b.entries@, k) == f);
                    assert(0 <= f < self.entries.len()) by {
                        lemma_first_index(self.entries@, k);
                    }
                    assert(b.entries[f].value@ == self.entries[f].value@);
                }
            }
            assert(b.names() =~= self.names()) by {
                assert forall|j: int| 0 <= j < b.entries.len() implies b.names()[j]
                    == self.names()[j] by {
                    assert(b.entries[j].name@ == self.entries[j].name@);
                }
            }
        }
        b
    }

    /// Unbinds every name.
    pub fn clear(&mut self)
        ensures
            final(self)@ == Map::<Seq<char>, ValueModel>::empty(),
    {
        let mut entries: Vec<Binding> = Vec::new();
        std::mem::swap(&mut entries, &mut self.entries);
        assert(self@ =~= Map::<Seq<char>, ValueModel>::empty());
    }
}

impl Clone for Bindings {
    fn clone(&self) -> (b: Self)
        ensures
            b@ == self@,
    {
        self.duplicate()
    }
}

} // verus!
