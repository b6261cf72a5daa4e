//! A table from texts to values, in which no key is listed twice.

use vstd::prelude::*;

use crate::text::same_text;

verus! {

/// Whether a list of entries has one for `key`.
pub open spec fn listed<V>(entries: Seq<(String, V)>, key: Seq<char>) -> bool {
    exists|i: int| 0 <= i < entries.len() && (#[trigger] entries[i]).0@ == key
}

/// Whether no key is listed twice.
pub open spec fn distinct_keys<V>(entries: Seq<(String, V)>) -> bool {
    forall|i: int, j: int|
        0 <= i < j < entries.len() ==> (#[trigger] entries[i]).0@ != (#[trigger] entries[j]).0@
}

/// An index at which `key` is listed.
pub open spec fn position_of<V>(entries: Seq<(String, V)>, key: Seq<char>) -> int {
    choose|i: int| 0 <= i < entries.len() && (#[trigger] entries[i]).0@ == key
}

/// The map that a list of entries without repeated keys writes down.
pub open spec fn entry_map<V>(entries: Seq<(String, V)>) -> Map<Seq<char>, V> {
    Map::new(
        |key: Seq<char>| listed(entries, key),
        |key: Seq<char>| entries[position_of(entries, key)].1,
    )
}

/// A table from texts to values.
#[derive(Debug)]
pub struct Table<V> {
    entries: Vec<(String, V)>,
}

impl<V> View for Table<V> {
    type V = Map<Seq<char>, V>;

    closed spec fn view(&self) -> Map<Seq<char>, V> {
        entry_map(self.entries@)
    }
}

/// Each entry of a list without repeated keys is in its map.
proof fn lemma_entry<V>(entries: Seq<(String, V)>, i: int)
    requires
        distinct_keys(entries),
        0 <= i < entries.len(),
    ensures
        entry_map(entries).dom().contains(entries[i].0@),
        entry_map(entries)[entries[i].0@] == entries[i].1,
{
    let key = entries[i].0@;
    assert(listed(entries, key));
    let j = position_of(entries, key);
    assert(j == i) by {
        assert(0 <= j < entries.len() && entries[j].0@ == key);
        if i < j {
            assert(entries[i].0@ != entries[j].0@);
        } else if j < i {
            assert(entries[j].0@ != entries[i].0@);
        }
    }
}

/// An entry under a new key, put at the end, is an insertion into the map.
proof fn lemma_push<V>(entries: Seq<(String, V)>, entry: (String, V))
    requires
        distinct_keys(entries),
        !listed(entries, entry.0@),
    ensures
        distinct_keys(entries.push(entry)),
        entry_map(entries.push(entry)) == entry_map(entries).insert(entry.0@, entry.1),
{
    let more = entries.push(entry);
    assert forall|i: int, j: int| 0 <= i < j < more.len() implies (#[trigger] more[i]).0@ != (
    #[trigger] more[j]).0@ by {
        assert(more[i] == entries[i]);
        if j < entries.len() {
            assert(more[j] == entries[j]);
        }
    }
    lemma_entry(more, entries.len() as int);
    assert forall|key: Seq<char>| key != entry.0@ implies listed(more, key) == #[trigger] listed(
        entries,
        key,
    ) by {
        if listed(entries, key) {
            let i = position_of(entries, key);
            assert(more[i].0@ == key);
        }
        if listed(more, key) {
            let i = position_of(more, key);
            assert(entries[i].0@ == key);
        }
    }
    assert forall|key: Seq<char>| key != entry.0@ && listed(entries, key) implies #[trigger] entry_map(
        more,
    )[key] == entry_map(entries)[key] by {
        let i = position_of(entries, key);
        lemma_entry(entries, i);
        assert(more[i] == entries[i]);
        lemma_entry(more, i);
    }
    assert(entry_map(more) =~= entry_map(entries).insert(entry.0@, entry.1));
}

/// The map of a list grows entry by entry.
pub(crate) proof fn lemma_prefix<V>(entries: Seq<(String, V)>, i: int)
    requires
        distinct_keys(entries),
        0 <= i < entries.len(),
    ensures
        distinct_keys(entries.take(i)),
        !entry_map(entries.take(i)).dom().contains(entries[i].0@),
        entry_map(entries.take(i + 1)) == entry_map(entries.take(i)).insert(
            entries[i].0@,
            entries[i].1,
        ),
{
    let done = entries.take(i);
    assert forall|j: int, k: int| 0 <= j < k < done.len() implies (#[trigger] done[j]).0@ != (
    #[trigger] done[k]).0@ by {
        assert(entries[j].0@ != entries[k].0@);
    }
    assert(!listed(done, entries[i].0@)) by {
        if listed(done, entries[i].0@) {
            let j = position_of(done, entries[i].0@);
            assert(entries[j].0@ != entries[i].0@);
        }
    }
    lemma_push(done, entries[i]);
    assert(entries.take(i + 1) =~= done.push(entries[i]));
}

/// A new value for a listed key is an insertion into the map.
proof fn lemma_update<V>(entries: Seq<(String, V)>, i: int, entry: (String, V))
    requires
        distinct_keys(entries),
        0 <= i < entries.len(),
        entries[i].0@ == entry.0@,
    ensures
        distinct_keys(entries.update(i, entry)),
        entry_map(entries.update(i, entry)) == entry_map(entries).insert(entry.0@, entry.1),
{
    let new = entries.update(i, entry);
    assert forall|j: int| 0 <= j < entries.len() implies (#[trigger] new[j]).0@ == entries[j].0@ by {
    }
    assert forall|j: int, k: int| 0 <= j < k < new.len() implies (#[trigger] new[j]).0@ != (
    #[trigger] new[k]).0@ by {
        assert(entries[j].0@ != entries[k].0@);
    }
    lemma_entry(new, i);
    assert forall|key: Seq<char>| listed(new, key) == #[trigger] listed(entries, key) by {
        if listed(entries, key) {
            assert(new[position_of(entries, key)].0@ == key);
        }
        if listed(new, key) {
            assert(entries[position_of(new, key)].0@ == key);
        }
    }
    assert forall|key: Seq<char>| key != entry.0@ && listed(entries, key) implies #[trigger] entry_map(
        new,
    )[key] == entry_map(entries)[key] by {
        let j = position_of(entries, key);
        lemma_entry(entries, j);
        assert(new[j] == entries[j]);
        lemma_entry(new, j);
    }
    assert(entry_map(new) =~= entry_map(entries).insert(entry.0@, entry.1));
}

/// Taking an entry out is a removal from the map.
proof fn lemma_remove<V>(entries: Seq<(String, V)>, i: int)
    requires
        distinct_keys(entries),
        0 <= i < entries.len(),
    ensures
        distinct_keys(entries.remove(i)),
        entry_map(entries.remove(i)) == entry_map(entries).remove(entries[i].0@),
{
    let new = entries.remove(i);
    let gone = entries[i].0@;
    assert forall|j: int| 0 <= j < new.len() implies #[trigger] new[j] == entries[if j < i {
        j
    } else {
        j + 1
    }] by {}
    assert forall|j: int, k: int| 0 <= j < k < new.len() implies (#[trigger] new[j]).0@ != (
    #[trigger] new[k]).0@ by {
        let a = if j < i { j } else { j + 1 };
        let b = if k < i { k } else { k + 1 };
        assert(entries[a].0@ != entries[b].0@);
    }
    assert forall|key: Seq<char>| #[trigger] listed(new, key) == (key != gone && listed(entries, key)) by {
        if listed(new, key) {
            let j = position_of(new, key);
            let a = if j < i { j } else { j + 1 };
            assert(entries[a].0@ == key);
            if a < i {
                assert(entries[a].0@ != entries[i].0@);
            } else {
                assert(entries[i].0@ != entries[a].0@);
            }
        }
        if key != gone && listed(entries, key) {
            let a = position_of(entries, key);
            let j = if a < i { a } else { a - 1 };
            assert(new[j].0@ == key);
        }
    }
    assert forall|key: Seq<char>| listed(new, key) implies #[trigger] entry_map(new)[key]
        == entry_map(entries)[key] by {
        let j = position_of(new, key);
        let a = if j < i { j } else { j + 1 };
        lemma_entry(new, j);
        lemma_entry(entries, a);
    }
    assert(entry_map(new) =~= entry_map(entries).remove(gone));
}

impl<V> Table<V> {
    #[verifier::type_invariant]
    spec fn keys_are_distinct(&self) -> bool {
        distinct_keys(self.entries@)
    }

    /// A table without entries.
    pub fn new() -> (table: Self)
        ensures
            table@ == Map::<Seq<char>, V>::empty(),
    {
        let table = Table { entries: Vec::new() };
        assert(table@ =~= Map::<Seq<char>, V>::empty());
        table
    }

    /// The table of a list of entries without repeated keys.
    pub(crate) fn from_entries(entries: Vec<(String, V)>) -> (table: Self)
        requires
            distinct_keys(entries@),
        ensures
            table@ == entry_map(entries@),
    {
        Table { entries }
    }

    /// The entries, each key once.
    pub fn entries(&self) -> (entries: &Vec<(String, V)>)
        ensures
            distinct_keys(entries@),
            entry_map(entries@) == self@,
    {
        proof {
            use_type_invariant(self);
        }
        &self.entries
    }

    /// The entries of a table that is given up, each key once.
    pub fn into_entries(self) -> (entries: Vec<(String, V)>)
        ensures
            distinct_keys(entries@),
            entry_map(entries@) == self@,
    {
        proof {
            use_type_invariant(&self);
        }
        self.entries
    }

    /// The index of `key`, if it is listed.
    fn find(&self, key: &str) -> (found: Option<usize>)
        ensures
            match found {
                Some(i) => i < self.entries@.len() && self.entries@[i as int].0@ == key@,
                None => !listed(self.entries@, key@),
            },
    {
        let mut i: usize = 0;
        while i < self.entries.len()
            invariant
                i <= self.entries@.len(),
                forall|j: int| 0 <= j < i ==> (#[trigger] self.entries@[j]).0@ != key@,
            decreases self.entries@.len() - i,
        {
            if same_text(self.entries[i].0.as_str(), key) {
                return Some(i);
            }
            i = i + 1;
        }
        None
    }

    /// The value under `key`.
    pub fn get(&self, key: &str) -> (value: Option<&V>)
        ensures
            match value {
                Some(v) => self@.dom().contains(key@) && *v == self@[key@],
                None => !self@.dom().contains(key@),
            },
    {
        proof {
            use_type_invariant(self);
        }
        match self.find(key) {
            Some(i) => {
                proof {
                    lemma_entry(self.entries@, i as int);
                }
                Some(&self.entries[i].1)
            },
            None => None,
        }
    }

    /// Puts `value` under `key`, in the place of what was there.
    pub fn insert(&mut self, key: String, value: V)
        ensures
            final(self)@ == old(self)@.insert(key@, value),
    {
        proof {
            use_type_invariant(&*self);
        }
        let found = self.find(key.as_str());
        let mut entries: Vec<(String, V)> = Vec::new();
        std::mem::swap(&mut entries, &mut self.entries);
        match found {
            Some(i) => {
                proof {
                    lemma_update(entries@, i as int, (key, value));
                }
                entries.set(i, (key, value));
            },
            None => {
                proof {
                    lemma_push(entries@, (key, value));
                }
                entries.push((key, value));
            },
        }
        self.entries = entries;
    }

    /// Takes out what is under `key`, if anything is.
    pub fn remove(&mut self, key: &str)
        ensures
            final(self)@ == old(self)@.remove(key@),
    {
        proof {
            use_type_invariant(&*self);
        }
        match self.find(key) {
            Some(i) => {
                let mut entries: Vec<(String, V)> = Vec::new();
                std::mem::swap(&mut entries, &mut self.entries);
                proof {
                    lemma_remove(entries@, i as int);
                }
                let _ = entries.remove(i);
                self.entries = entries;
            },
            None => {
                assert(self@ =~= self@.remove(key@));
            },
        }
    }
}

impl<V: Copy> Clone for Table<V> {
    fn clone(&self) -> (copy: Self)
        ensures
            copy@ == self@,
    {
        proof {
            use_type_invariant(self);
        }
        let mut entries: Vec<(String, V)> = Vec::new();
        let mut i: usize = 0;
        while i < self.entries.len()
            invariant
                i <= self.entries@.len(),
                entries@ == self.entries@.take(i as int),
            decreases self.entries@.len() - i,
        {
            entries.push((self.entries[i].0.clone(), self.entries[i].1));
            i = i + 1;
            assert(entries@ =~= self.entries@.take(i as int));
        }
        assert(entries@ =~= self.entries@);
        Table { entries }
    }
}

/// In a new table nothing is found.
pub proof fn law_nothing_is_found_in_a_new_table<V>(
    table: Table<V>,
    key: &str,
    found: Option<&V>,
)
    requires
        call_ensures(Table::<V>::new, (), table),
        call_ensures(Table::<V>::get, (&table, key), found),
    ensures
        found is None,
{
}

/// What is put under a key is found there, and what is found under any other key stays.
pub proof fn law_inserted_value_is_found<V>(
    table: &mut Table<V>,
    key: String,
    value: V,
    other: &str,
    before: Option<&V>,
    after: Option<&V>,
)
    requires
        call_ensures(Table::<V>::get, (&*old(table), other), before),
        call_ensures(Table::<V>::insert, (table, key, value), ()),
        call_ensures(Table::<V>::get, (&*final(table), other), after),
    ensures
        other@ == key@ ==> after == Some(&value),
        other@ != key@ ==> after == before,
{
}

/// What is taken out is no longer found, and what is found under any other key stays.
pub proof fn law_removed_value_is_not_found<V>(
    table: &mut Table<V>,
    key: &str,
    other: &str,
    before: Option<&V>,
    after: Option<&V>,
)
    requires
        call_ensures(Table::<V>::get, (&*old(table), other), before),
        call_ensures(Table::<V>::remove, (table, key), ()),
        call_ensures(Table::<V>::get, (&*final(table), other), after),
    ensures
        other@ == key@ ==> after is None,
        other@ != key@ ==> after == before,
{
}

/// In a copy of a table the same is found.
pub proof fn law_same_is_found_in_a_copy<V: Copy>(
    table: Table<V>,
    copy: Table<V>,
    key: &str,
    found: Option<&V>,
    found_in_copy: Option<&V>,
)
    requires
        call_ensures(<Table<V> as Clone>::clone, (&table,), copy),
        call_ensures(Table::<V>::get, (&table, key), found),
        call_ensures(Table::<V>::get, (&copy, key), found_in_copy),
    ensures
        found_in_copy == found,
{
}

/// A list without repeated keys writes down a map with exactly its entries.
pub proof fn law_list_writes_its_entries_down<V>(entries: Seq<(String, V)>, key: Seq<char>)
    requires
        forall|i: int, j: int|
            0 <= i < j < entries.len() ==> (#[trigger] entries[i]).0@ != (#[trigger] entries[j]).0@,
    ensures
        distinct_keys(entries),
        entry_map(entries).dom().contains(key) <==> exists|i: int|
            0 <= i < entries.len() && (#[trigger] entries[i]).0@ == key,
        forall|i: int|
            0 <= i < entries.len() && (#[trigger] entries[i]).0@ == key ==> entry_map(entries)[key]
                == entries[i].1,
{
    assert forall|i: int| 0 <= i < entries.len() && (#[trigger] entries[i]).0@ == key implies
        entry_map(entries)[key] == entries[i].1 by {
        lemma_entry(entries, i);
    }
}

/// A list with repeated keys is not taken for one without.
pub proof fn law_repeated_keys_are_noticed<V>(entries: Seq<(String, V)>, i: int, j: int)
    requires
        distinct_keys(entries),
        0 <= i < j < entries.len(),
    ensures
        entries[i].0@ != entries[j].0@,
{
}

/// The entries of a table are what is found in it: each key that something is found under is listed
/// once, with what is found, and no other.
pub proof fn law_entries_are_what_is_found<V>(
    table: Table<V>,
    entries: &Vec<(String, V)>,
    given_up: Vec<(String, V)>,
    key: &str,
    found: Option<&V>,
)
    requires
        call_ensures(Table::<V>::entries, (&table,), entries),
        call_ensures(Table::<V>::into_entries, (table,), given_up),
        call_ensures(Table::<V>::get, (&table, key), found),
    ensures
        forall|i: int, j: int|
            0 <= i < j < entries@.len() ==> (#[trigger] entries@[i]).0@ != (
            #[trigger] entries@[j]).0@,
        forall|i: int|
            0 <= i < entries@.len() && (#[trigger] entries@[i]).0@ == key@ ==> found == Some(
                &entries@[i].1,
            ),
        found is Some ==> exists|i: int|
            0 <= i < entries@.len() && (#[trigger] entries@[i]).0@ == key@,
        forall|i: int, j: int|
            0 <= i < j < given_up@.len() ==> (#[trigger] given_up@[i]).0@ != (
            #[trigger] given_up@[j]).0@,
        forall|i: int|
            0 <= i < given_up@.len() && (#[trigger] given_up@[i]).0@ == key@ ==> found == Some(
                &given_up@[i].1,
            ),
        found is Some ==> exists|i: int|
            0 <= i < given_up@.len() && (#[trigger] given_up@[i]).0@ == key@,
{
    law_list_writes_its_entries_down(entries@, key@);
    law_list_writes_its_entries_down(given_up@, key@);
    assert forall|i: int| 0 <= i < entries@.len() && (#[trigger] entries@[i]).0@ == key@ implies
        found == Some(&entries@[i].1) by {
        lemma_entry(entries@, i);
    }
    assert forall|i: int| 0 <= i < given_up@.len() && (#[trigger] given_up@[i]).0@ == key@ implies
        found == Some(&given_up@[i].1) by {
        lemma_entry(given_up@, i);
    }
}

} // verus!
