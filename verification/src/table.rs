//! A small table from names to values.

use vstd::prelude::*;

use crate::text;

verus! {

/// The names of a list of entries.
pub open spec fn names_of<T>(entries: Seq<(String, T)>) -> Seq<Seq<char>> {
    entries.map_values(|entry: (String, T)| entry.0@)
}

/// The map that a list of entries spells, where no name occurs twice.
pub open spec fn map_of<T>(entries: Seq<(String, T)>) -> Map<Seq<char>, T> {
    Map::new(
        |name: Seq<char>| names_of(entries).contains(name),
        |name: Seq<char>| entries[names_of(entries).index_of(name)].1,
    )
}

/// The texts of a map of strings.
pub open spec fn texts_of(map: Map<Seq<char>, String>) -> Map<Seq<char>, Seq<char>> {
    map.map_values(|value: String| value@)
}

/// A list of entries after `name` was given the value `value`: in the place of the entry that had
/// the name, or at the end where none had.
pub open spec fn placed<T>(entries: Seq<(String, T)>, name: String, value: T) -> Seq<(String, T)> {
    if names_of(entries).contains(name@) {
        entries.update(names_of(entries).index_of(name@), (name, value))
    } else {
        entries.push((name, value))
    }
}

/// Names with their values. No name occurs twice, and the entries stand in the order in which
/// their names first came.
pub struct Table<T> {
    entries: Vec<(String, T)>,
}

impl<T> View for Table<T> {
    type V = Map<Seq<char>, T>;

    closed spec fn view(&self) -> Map<Seq<char>, T> {
        map_of(self.entries@)
    }
}

impl<T> Table<T> {
    /// No name occurs twice.
    pub closed spec fn wf(&self) -> bool {
        names_of(self.entries@).no_duplicates()
    }

    /// The entries, in order.
    pub closed spec fn list(&self) -> Seq<(String, T)> {
        self.entries@
    }

    /// A well-formed table is the map that its entries spell.
    pub proof fn lemma_list(&self)
        requires
            self.wf(),
        ensures
            names_of(self.list()).no_duplicates(),
            self@ == map_of(self.list()),
            self@.dom().finite(),
            self@.dom().len() == self.list().len(),
    {
        let names = names_of(self.entries@);
        names.unique_seq_to_set();
        assert(self@.dom() =~= names.to_set());
    }

    /// A table without entries.
    pub fn new() -> (table: Table<T>)
        ensures
            table.wf(),
            table@ == Map::<Seq<char>, T>::empty(),
            table.list() == Seq::<(String, T)>::empty(),
    {
        let table = Table { entries: Vec::new() };
        assert(table@ =~= Map::<Seq<char>, T>::empty());
        table
    }

    /// The table of a list of entries in which no name occurs twice.
    pub fn from_entries(entries: Vec<(String, T)>) -> (table: Table<T>)
        requires
            names_of(entries@).no_duplicates(),
        ensures
            table.wf(),
            table@ == map_of(entries@),
            table.list() == entries@,
    {
        Table { entries }
    }

    /// The position of `name`.
    fn find(&self, name: &str) -> (found: Option<usize>)
        ensures
            match found {
                Some(i) => i < self.entries@.len() && self.entries@[i as int].0@ == name@,
                None => !names_of(self.entries@).contains(name@),
            },
    {
        let mut i: usize = 0;
        while i < self.entries.len()
            invariant
                i <= self.entries@.len(),
                forall|j: int| 0 <= j < i ==> (#[trigger] self.entries@[j]).0@ != name@,
            decreases self.entries@.len() - i,
        {
            if text::same_text(self.entries[i].0.as_str(), name) {
                return Some(i);
            }
            i = i + 1;
        }
        proof {
            let names = names_of(self.entries@);
            if names.contains(name@) {
                let j = choose|j: int| 0 <= j < names.len() && names[j] == name@;
                assert(self.entries@[j].0@ == name@);
            }
        }
        None
    }

    /// Gives `name` the value `value`, whatever it had before.
    pub fn insert(&mut self, name: String, value: T)
        requires
            old(self).wf(),
        ensures
            final(self).wf(),
            final(self)@ == old(self)@.insert(name@, value),
            final(self).list() == placed(old(self).list(), name, value),
    {
        let ghost before = self.entries@;
        let ghost name_view = name@;
        let found = self.find(name.as_str());
        match found {
            Some(i) => {
                self.entries.set(i, (name, value));
                proof {
                    let names = names_of(before);
                    assert(names[i as int] == name_view);
                    assert(names.contains(name_view));
                    assert(names[names.index_of(name_view)] == names[i as int]);
                    lemma_replaced(before, self.entries@, i as int, name_view, value);
                }
            },
            None => {
                self.entries.push((name, value));
                proof {
                    assert(self.entries@.drop_last() =~= before);
                    lemma_added(before, self.entries@, name_view, value);
                }
            },
        }
    }

    /// The value of `name`.
    pub fn get(&self, name: &str) -> (value: Option<&T>)
        requires
            self.wf(),
        ensures
            match value {
                Some(v) => self@.contains_key(name@) && *v == self@[name@],
                None => !self@.contains_key(name@),
            },
    {
        match self.find(name) {
            Some(i) => {
                proof {
                    lemma_at(self.entries@, i as int);
                }
                Some(&self.entries[i].1)
            },
            None => None,
        }
    }

    /// How many names have a value.
    pub fn len(&self) -> (count: usize)
        requires
            self.wf(),
        ensures
            count == self@.dom().len(),
    {
        proof {
            self.lemma_list();
        }
        self.entries.len()
    }

    /// Whether no name has a value.
    pub fn is_empty(&self) -> (empty: bool)
        requires
            self.wf(),
        ensures
            empty == (self@ == Map::<Seq<char>, T>::empty()),
    {
        proof {
            self.lemma_list();
            if self.entries@.len() == 0 {
                assert(self@ =~= Map::<Seq<char>, T>::empty());
            } else {
                assert(names_of(self.entries@)[0] == self.entries@[0].0@);
                assert(self@.contains_key(self.entries@[0].0@));
            }
        }
        self.entries.len() == 0
    }

    /// The entries, in order.
    pub fn entries(&self) -> (entries: &Vec<(String, T)>)
        ensures
            entries@ == self.list(),
    {
        &self.entries
    }

    /// The entries, in order, with the table given up.
    pub fn into_entries(self) -> (entries: Vec<(String, T)>)
        ensures
            entries@ == self.list(),
    {
        self.entries
    }
}

/// Headers by name.
pub type HeaderTable = Table<String>;

/// The entry at `i` is what its name has in the map.
pub proof fn lemma_at<T>(entries: Seq<(String, T)>, i: int)
    requires
        names_of(entries).no_duplicates(),
        0 <= i < entries.len(),
    ensures
        map_of(entries).contains_key(entries[i].0@),
        map_of(entries)[entries[i].0@] == entries[i].1,
{
    let names = names_of(entries);
    assert(names[i] == entries[i].0@);
    assert(names.contains(entries[i].0@));
    let j = names.index_of(entries[i].0@);
    assert(0 <= j < names.len() && names[j] == names[i]);
}

proof fn lemma_replaced<T>(
    before: Seq<(String, T)>,
    after: Seq<(String, T)>,
    i: int,
    name: Seq<char>,
    value: T,
)
    requires
        names_of(before).no_duplicates(),
        0 <= i < before.len() == after.len(),
        before[i].0@ == name,
        after == before.update(i, after[i]),
        after[i].0@ == name,
        after[i].1 == value,
    ensures
        names_of(after).no_duplicates(),
        map_of(after) == map_of(before).insert(name, value),
{
    assert(names_of(after) =~= names_of(before));
    assert forall|n: Seq<char>| map_of(after).contains_key(n) implies map_of(after)[n] == map_of(
        before,
    ).insert(name, value)[n] by {
        let j = names_of(after).index_of(n);
        assert(names_of(after)[j] == n);
        lemma_at(after, j);
        lemma_at(before, j);
        if j != i {
            assert(names_of(before)[j] != names_of(before)[i]);
            assert(after[j] == before[j]);
        }
    }
    lemma_at(before, i);
    assert(map_of(after) =~= map_of(before).insert(name, value));
}

proof fn lemma_added<T>(
    before: Seq<(String, T)>,
    after: Seq<(String, T)>,
    name: Seq<char>,
    value: T,
)
    requires
        names_of(before).no_duplicates(),
        !names_of(before).contains(name),
        after.len() == before.len() + 1,
        after.drop_last() == before,
        after.last().0@ == name,
        after.last().1 == value,
    ensures
        names_of(after).no_duplicates(),
        map_of(after) == map_of(before).insert(name, value),
{
    let names = names_of(before);
    assert(names_of(after) =~= names.push(name));
    assert forall|i: int, j: int|
        0 <= i < names_of(after).len() && 0 <= j < names_of(after).len() && i
            != j implies names_of(after)[i] != names_of(after)[j] by {
        if i < names.len() && j < names.len() {
        } else if i < names.len() {
            assert(names.contains(names[i]));
        } else {
            assert(names.contains(names[j]));
        }
    }
    assert forall|n: Seq<char>| map_of(after).contains_key(n) <==> map_of(before).insert(
        name,
        value,
    ).contains_key(n) by {
        if names.contains(n) {
            let i = names.index_of(n);
            assert(names_of(after)[i] == n);
        }
        assert(names_of(after)[names.len() as int] == name);
        if names_of(after).contains(n) && n != name {
            let i = names_of(after).index_of(n);
            assert(names[i] == n);
        }
    }
    assert forall|n: Seq<char>| map_of(after).contains_key(n) implies map_of(after)[n] == map_of(
        before,
    ).insert(name, value)[n] by {
        let j = names_of(after).index_of(n);
        assert(names_of(after)[j] == n);
        lemma_at(after, j);
        if j < before.len() {
            assert(after[j] == before[j]);
            lemma_at(before, j);
        }
    }
    assert(map_of(after) =~= map_of(before).insert(name, value));
}

/// One entry more of a list in which no name occurs twice is one text more in the map.
pub proof fn lemma_prefix<T>(entries: Seq<(String, T)>, k: int)
    requires
        names_of(entries).no_duplicates(),
        0 <= k < entries.len(),
    ensures
        map_of(entries.take(k + 1)) == map_of(entries.take(k)).insert(
            entries[k].0@,
            entries[k].1,
        ),
{
    let names = names_of(entries);
    let shorter = names_of(entries.take(k));
    assert(shorter =~= names.take(k));
    if shorter.contains(entries[k].0@) {
        let i = choose|i: int| 0 <= i < shorter.len() && shorter[i] == entries[k].0@;
        assert(names[i] == names[k]);
    }
    assert(entries.take(k + 1).drop_last() =~= entries.take(k));
    lemma_added(entries.take(k), entries.take(k + 1), entries[k].0@, entries[k].1);
}

} // verus!
