//! Laws of texts and tables.

use vstd::prelude::*;

use crate::table;
use crate::table::Table;
use crate::text;

verus! {

/// Whether `s` is `lower` but for ASCII capitals, which stand 32 places before their small letters.
pub open spec fn spells(s: Seq<char>, lower: Seq<char>) -> bool {
    &&& s.len() == lower.len()
    &&& forall|i: int|
        0 <= i < s.len() ==> if 'A' <= #[trigger] s[i] && s[i] <= 'Z' {
            lower[i] == (s[i] as u32 + 32) as char
        } else {
            lower[i] == s[i]
        }
}

/// Folding a text changes its ASCII capitals to their small letters, place by place, and nothing
/// else.
pub proof fn law_folded_text(s: Seq<char>, lower: Seq<char>)
    ensures
        text::ascii_lower(s) == lower <==> spells(s, lower),
{
    let folded = text::ascii_lower(s);
    assert forall|i: int| 0 <= i < s.len() implies if 'A' <= #[trigger] s[i] && s[i] <= 'Z' {
        folded[i] == (s[i] as u32 + 32) as char
    } else {
        folded[i] == s[i]
    } by {}
    assert(spells(s, folded));
    if spells(s, lower) {
        assert forall|i: int| 0 <= i < s.len() implies #[trigger] folded[i] == lower[i] by {
            assert(s[i] == s[i]);
        }
        assert(folded =~= lower);
    }
}

/// A text folds to another exactly where it is that text but for ASCII capitals.
pub proof fn law_lowers_to(s: &str, lower: &str, equal: bool)
    requires
        call_ensures(text::lowers_to, (s, lower), equal),
    ensures
        equal <==> spells(s@, lower@),
{
    law_folded_text(s@, lower@);
}

/// Two texts are the same exactly where they have the same characters.
pub proof fn law_same_text(a: &str, b: &str, same: bool)
    requires
        call_ensures(text::same_text, (a, b), same),
    ensures
        same <==> a@.len() == b@.len() && forall|i: int|
            0 <= i < a@.len() ==> #[trigger] a@[i] == b@[i],
{
    if a@.len() == b@.len() && forall|i: int| 0 <= i < a@.len() ==> #[trigger] a@[i] == b@[i] {
        assert(a@ =~= b@);
    }
}

/// Two joined texts can be taken apart again.
pub proof fn law_joined(a: &str, b: &str, both: String)
    requires
        call_ensures(text::joined, (a, b), both),
    ensures
        both@.len() == a@.len() + b@.len(),
        both@.take(a@.len() as int) == a@,
        both@.skip(a@.len() as int) == b@,
{
    assert(both@.take(a@.len() as int) =~= a@);
    assert(both@.skip(a@.len() as int) =~= b@);
}

/// A new table has nothing under any name.
pub proof fn law_new_table<T>(
    table: &Table<T>,
    key: &str,
    got: Option<&T>,
    count: usize,
    empty: bool,
    entries: &Vec<(String, T)>,
)
    requires
        call_ensures(Table::<T>::new, (), *table),
        call_ensures(Table::<T>::get, (table, key), got),
        call_ensures(Table::<T>::len, (table,), count),
        call_ensures(Table::<T>::is_empty, (table,), empty),
        call_ensures(Table::<T>::entries, (table,), entries),
    ensures
        got is None,
        count == 0,
        empty,
        entries@.len() == 0,
{
}

/// After a name was given a value it has that value, and every other name has what it had.
pub proof fn law_insert_and_get<T>(
    table: &mut Table<T>,
    name: String,
    value: T,
    after: &Table<T>,
    key: &str,
    had: Option<&T>,
    has: Option<&T>,
)
    requires
        call_ensures(Table::<T>::insert, (table, name, value), ()),
        *after == *final(table),
        call_ensures(Table::<T>::get, (&*old(table), key), had),
        call_ensures(Table::<T>::get, (after, key), has),
    ensures
        key@ == name@ ==> has == Some(&value),
        key@ != name@ ==> has == had,
{
}

/// Giving a name a value adds one name where it had none, and adds none where it had one.
pub proof fn law_insert_and_len<T>(
    table: &mut Table<T>,
    name: String,
    value: T,
    after: &Table<T>,
    key: &str,
    had: Option<&T>,
    before_count: usize,
    after_count: usize,
)
    requires
        old(table).wf(),
        call_ensures(Table::<T>::insert, (table, name, value), ()),
        *after == *final(table),
        key@ == name@,
        call_ensures(Table::<T>::get, (&*old(table), key), had),
        call_ensures(Table::<T>::len, (&*old(table),), before_count),
        call_ensures(Table::<T>::len, (after,), after_count),
    ensures
        had is None ==> after_count == before_count + 1,
        had is Some ==> after_count == before_count,
{
    old(table).lemma_list();
    assert(after@.dom() =~= old(table)@.dom().insert(name@));
}

/// A new name stands behind all others, and a name that is given another value keeps its place.
pub proof fn law_insert_and_order<T>(
    table: &mut Table<T>,
    name: String,
    value: T,
    after: &Table<T>,
    before_entries: &Vec<(String, T)>,
    after_entries: &Vec<(String, T)>,
)
    requires
        old(table).wf(),
        call_ensures(Table::<T>::insert, (table, name, value), ()),
        *after == *final(table),
        call_ensures(Table::<T>::entries, (&*old(table),), before_entries),
        call_ensures(Table::<T>::entries, (after,), after_entries),
    ensures
        (forall|i: int| 0 <= i < before_entries@.len() ==> (#[trigger] before_entries@[i]).0@ != name@)
            ==> after_entries@ == before_entries@.push((name, value)),
        forall|i: int|
            0 <= i < before_entries@.len() && (#[trigger] before_entries@[i]).0@ == name@
                ==> after_entries@ == before_entries@.update(i, (name, value)),
{
    let entries = before_entries@;
    let names = table::names_of(entries);
    old(table).lemma_list();
    if forall|i: int| 0 <= i < entries.len() ==> (#[trigger] entries[i]).0@ != name@ {
        if names.contains(name@) {
            let i = choose|i: int| 0 <= i < names.len() && names[i] == name@;
            assert(entries[i].0@ == name@);
        }
    }
    assert forall|i: int|
        0 <= i < entries.len() && (#[trigger] entries[i]).0@ == name@ implies after_entries@
        == entries.update(i, (name, value)) by {
        assert(names[i] == name@);
        assert(names.contains(name@));
        let j = names.index_of(name@);
        assert(names[j] == names[i]);
    }
}

/// The entries of a table are its names with their values, each once.
pub proof fn law_entries<T>(
    table: &Table<T>,
    entries: &Vec<(String, T)>,
    moved: Vec<(String, T)>,
    key: &str,
    got: Option<&T>,
    count: usize,
    empty: bool,
)
    requires
        table.wf(),
        call_ensures(Table::<T>::entries, (table,), entries),
        call_ensures(Table::<T>::into_entries, (*table,), moved),
        call_ensures(Table::<T>::get, (table, key), got),
        call_ensures(Table::<T>::len, (table,), count),
        call_ensures(Table::<T>::is_empty, (table,), empty),
    ensures
        moved@ == entries@,
        count == entries@.len(),
        empty <==> entries@.len() == 0,
        forall|i: int, j: int|
            0 <= i < j < entries@.len() ==> (#[trigger] entries@[i]).0@ != (#[trigger]
            entries@[j]).0@,
        forall|i: int|
            0 <= i < entries@.len() && (#[trigger] entries@[i]).0@ == key@ ==> got == Some(
                &entries@[i].1,
            ),
        got is Some ==> exists|i: int| 0 <= i < entries@.len() && (#[trigger] entries@[i]).0@ == key@,
{
    let list = entries@;
    let names = table::names_of(list);
    table.lemma_list();
    assert forall|i: int, j: int| 0 <= i < j < list.len() implies (#[trigger] list[i]).0@ != (
    #[trigger] list[j]).0@ by {
        assert(names[i] != names[j]);
    }
    assert forall|i: int| 0 <= i < list.len() && (#[trigger] list[i]).0@ == key@ implies got == Some(
        &list[i].1,
    ) by {
        table::lemma_at(list, i);
    }
    if got is Some {
        assert(names.contains(key@));
        let i = choose|i: int| 0 <= i < names.len() && names[i] == key@;
        assert(list[i].0@ == key@);
    }
    if list.len() == 0 {
        assert(table@ =~= Map::empty());
    } else {
        table::lemma_at(list, 0);
    }
}

/// A table of a list of entries has those entries.
pub proof fn law_from_entries<T>(
    given: Vec<(String, T)>,
    table: &Table<T>,
    entries: &Vec<(String, T)>,
)
    requires
        call_ensures(Table::<T>::from_entries, (given,), *table),
        call_ensures(Table::<T>::entries, (table,), entries),
    ensures
        entries@ == given@,
{
}

} // verus!
