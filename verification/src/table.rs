//! A table of values found by name, in the order in which the names were added.
use vstd::prelude::*;

use crate::text::same_text;

verus! {

/// Whether `key` names an entry of `entries`.
pub open spec fn names_entry<T>(entries: Seq<(Seq<char>, T)>, key: Seq<char>) -> bool {
    exists|i: int| 0 <= i < entries.len() && #[trigger] entries[i].0 == key
}

/// The place of the entry that `key` names.
pub open spec fn entry_index<T>(entries: Seq<(Seq<char>, T)>, key: Seq<char>) -> int {
    choose|i: int| 0 <= i < entries.len() && #[trigger] entries[i].0 == key
}

/// No two entries have the same name.
pub open spec fn distinct_names<T>(entries: Seq<(Seq<char>, T)>) -> bool {
    forall|i: int, j: int|
        0 <= i < j < entries.len() ==> #[trigger] entries[i].0 != #[trigger] entries[j].0
}

/// Values found by name. A name occurs at most once; the entries keep the order in which
/// their names came.
pub struct Table<T> {
    entries: Vec<(String, T)>,
}

impl<T> View for Table<T> {
    type V = Map<Seq<char>, T>;

    open spec fn view(&self) -> Map<Seq<char>, T> {
        Map::new(
            |key: Seq<char>| names_entry(self.rows(), key),
            |key: Seq<char>| self.rows()[entry_index(self.rows(), key)].1,
        )
    }
}

impl<T> Table<T> {
    /// The entries, each a name and a value, in their order.
    pub closed spec fn rows(self) -> Seq<(Seq<char>, T)> {
        self.entries@.map_values(|entry: (String, T)| (entry.0@, entry.1))
    }

    /// No two entries share a name.
    #[verifier::type_invariant]
    pub open spec fn wf(self) -> bool {
        distinct_names(self.rows())
    }

    /// An empty table.
    pub fn new() -> (table: Self)
        ensures
            table.wf(),
            table.rows() == Seq::<(Seq<char>, T)>::empty(),
            table@ == Map::<Seq<char>, T>::empty(),
    {
        let table = Table { entries: Vec::new() };
        assert(table.rows() =~= Seq::<(Seq<char>, T)>::empty());
        assert(table@ =~= Map::<Seq<char>, T>::empty());
        table
    }

    /// How many entries there are.
    pub fn len(&self) -> (count: usize)
        ensures
            self.wf(),
            count == self.rows().len(),
    {
        proof {
            use_type_invariant(self);
        }
        self.entries.len()
    }

    /// The name of the entry at `index`.
    pub fn name_at(&self, index: usize) -> (name: &String)
        requires
            index < self.rows().len(),
        ensures
            name@ == self.rows()[index as int].0,
    {
        &self.entries[index].0
    }

    /// The value of the entry at `index`.
    pub fn value_at(&self, index: usize) -> (value: &T)
        requires
            index < self.rows().len(),
        ensures
            *value == self.rows()[index as int].1,
            self@.contains_key(self.rows()[index as int].0),
            self@[self.rows()[index as int].0] == *value,
    {
        proof {
            use_type_invariant(self);
            lemma_row_is_entry(self.rows(), index as int);
        }
        &self.entries[index].1
    }

    /// The place of the entry with the given name.
    pub fn position(&self, name: &str) -> (index: Option<usize>)
        ensures
            self.wf(),
            match index {
                Some(i) => i < self.rows().len() && self.rows()[i as int].0 == name@
                    && self@.contains_key(name@) && self@[name@] == self.rows()[i as int].1,
                None => !self@.contains_key(name@),
            },
    {
        proof {
            use_type_invariant(self);
        }
        let mut i: usize = 0;
        while i < self.entries.len()
            invariant
                self.wf(),
                i <= self.entries.len(),
                forall|j: int| 0 <= j < i ==> #[trigger] self.rows()[j].0 != name@,
            decreases self.entries.len() - i,
        {
            assert(self.rows()[i as int].0 == self.entries@[i as int].0@);
            if same_text(self.entries[i].0.as_str(), name) {
                proof {
                    lemma_row_is_entry(self.rows(), i as int);
                }
                return Some(i);
            }
            i = i + 1;
        }
        None
    }

    /// The value with the given name.
    pub fn get(&self, name: &str) -> (value: Option<&T>)
        ensures
            match value {
                Some(v) => self@.contains_key(name@) && *v == self@[name@],
                None => !self@.contains_key(name@),
            },
    {
        match self.position(name) {
            Some(i) => Some(self.value_at(i)),
            None => None,
        }
    }

    /// Puts a value under a name: in place of the value that the name had, or at the end.
    pub fn insert(&mut self, name: String, value: T)
        ensures
            final(self).wf(),
            final(self)@ == old(self)@.insert(name@, value),
            old(self)@.contains_key(name@) ==> final(self).rows() == old(self).rows().update(
                entry_index(old(self).rows(), name@),
                (name@, value),
            ),
            !old(self)@.contains_key(name@) ==> final(self).rows() == old(self).rows().push(
                (name@, value),
            ),
    {
        proof {
            use_type_invariant(&*self);
        }
        let ghost before = self.rows();
        let found = self.position(name.as_str());
        let mut entries: Vec<(String, T)> = Vec::new();
        std::mem::swap(&mut entries, &mut self.entries);
        let ghost given = name@;
        match found {
            Some(i) => {
                proof {
                    lemma_row_is_entry(before, i as int);
                }
                entries.set(i, (name, value));
                let ghost after = entries@.map_values(|entry: (String, T)| (entry.0@, entry.1));
                assert(after =~= before.update(i as int, (given, value)));
                assert(distinct_names(after));
            },
            None => {
                assert forall|j: int| 0 <= j < before.len() implies #[trigger] before[j].0
                    != given by {}
                entries.push((name, value));
                let ghost after = entries@.map_values(|entry: (String, T)| (entry.0@, entry.1));
                assert(after =~= before.push((given, value)));
                assert(distinct_names(after));
            },
        }
        self.entries = entries;
        proof {
            lemma_inserted(before, self.rows(), given, value);
            assert(self@ =~= old(self)@.insert(given, value));
        }
    }
}

/// Where names are distinct, each row is the entry that its name finds.
pub proof fn lemma_row_is_entry<T>(entries: Seq<(Seq<char>, T)>, i: int)
    requires
        distinct_names(entries),
        0 <= i < entries.len(),
    ensures
        names_entry(entries, entries[i].0),
        entry_index(entries, entries[i].0) == i,
{
    let key = entries[i].0;
    let k = entry_index(entries, key);
    assert(0 <= k < entries.len() && entries[k].0 == key);
}

proof fn lemma_inserted<T>(
    before: Seq<(Seq<char>, T)>,
    after: Seq<(Seq<char>, T)>,
    key: Seq<char>,
    value: T,
)
    requires
        distinct_names(before),
        distinct_names(after),
        names_entry(before, key) ==> after == before.update(
            entry_index(before, key),
            (key, value),
        ),
        !names_entry(before, key) ==> after == before.push((key, value)),
    ensures
        forall|k: Seq<char>| #[trigger]
            names_entry(after, k) <==> (k == key || names_entry(before, k)),
        after[entry_index(after, key)].1 == value,
        forall|k: Seq<char>|
            k != key && names_entry(before, k) ==> after[#[trigger] entry_index(after, k)].1
                == before[entry_index(before, k)].1,
{
    let place = if names_entry(before, key) {
        entry_index(before, key)
    } else {
        before.len() as int
    };
    assert(after[place].0 == key);
    lemma_row_is_entry(after, place);
    assert forall|k: Seq<char>| #[trigger]
        names_entry(after, k) <==> (k == key || names_entry(before, k)) by {
        if names_entry(after, k) && k != key {
            let i = entry_index(after, k);
            assert(before[i].0 == k);
        }
        if names_entry(before, k) {
            let i = entry_index(before, k);
            assert(after[i].0 == k);
        }
    }
    assert forall|k: Seq<char>| k != key && names_entry(before, k) implies after[
        #[trigger] entry_index(after, k)
    ].1 == before[entry_index(before, k)].1 by {
        let i = entry_index(before, k);
        assert(after[i].0 == k);
        lemma_row_is_entry(after, i);
    }
}

/// Each row has a name that is a text.
pub proof fn row_name<T>(table: Table<T>, i: int) -> (name: String)
    requires
        0 <= i < table.rows().len(),
    ensures
        name@ == table.rows()[i].0,
{
    table.entries@[i].0
}

} // verus!
