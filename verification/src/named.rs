//! Lists of named entries, read as maps from names.

use crate::text::strings_equal;
use vstd::prelude::*;

verus! {

/// No two entries have the same name.
pub open spec fn spec_names_distinct<T>(entries: Seq<(Seq<char>, T)>) -> bool {
    forall|i: int, j: int|
        0 <= i < entries.len() && 0 <= j < entries.len() && i != j ==> entries[i].0 != entries[j].0
}

/// The map that a list of named entries stands for: each name with the first
/// entry that bears it.
pub open spec fn spec_entries_map<T>(entries: Seq<(Seq<char>, T)>) -> Map<Seq<char>, T> {
    Map::new(
        |name: Seq<char>| exists|i: int| 0 <= i < entries.len() && entries[i].0 == name,
        |name: Seq<char>| entries[spec_index_of(entries, name)].1,
    )
}

/// The first index at which `name` stands in `entries`; `entries.len()` when it
/// stands nowhere.
pub open spec fn spec_index_of<T>(entries: Seq<(Seq<char>, T)>, name: Seq<char>) -> int
    decreases entries.len(),
{
    if entries.len() == 0 {
        0
    } else if entries[0].0 == name {
        0
    } else {
        1 + spec_index_of(entries.drop_first(), name)
    }
}

/// `spec_index_of` gives the first index that bears the name, or the length.
pub proof fn lemma_index_of<T>(entries: Seq<(Seq<char>, T)>, name: Seq<char>)
    ensures
        0 <= spec_index_of(entries, name) <= entries.len(),
        spec_index_of(entries, name) < entries.len() ==> entries[spec_index_of(
            entries,
            name,
        )].0 == name,
        forall|j: int| 0 <= j < spec_index_of(entries, name) ==> entries[j].0 != name,
    decreases entries.len(),
{
    if entries.len() == 0 {
    } else if entries[0].0 == name {
    } else {
        let rest = entries.drop_first();
        lemma_index_of(rest, name);
        let k = spec_index_of(rest, name);
        assert forall|j: int| 0 <= j < 1 + k implies entries[j].0 != name by {
            if j > 0 {
                assert(rest[j - 1] == entries[j]);
            }
        }
        if k < rest.len() {
            assert(rest[k] == entries[k + 1]);
        }
    }
}

/// What `spec_entries_map` holds, entry by entry.
pub proof fn lemma_entries_map<T>(entries: Seq<(Seq<char>, T)>, name: Seq<char>)
    ensures
        spec_entries_map(entries).contains_key(name) <==> spec_index_of(entries, name)
            < entries.len(),
        spec_entries_map(entries).contains_key(name) ==> spec_entries_map(entries)[name]
            == entries[spec_index_of(entries, name)].1,
{
    lemma_index_of(entries, name);
}

/// Where names are distinct, each entry is what the map holds under its name.
pub proof fn lemma_entries_map_distinct<T>(entries: Seq<(Seq<char>, T)>, i: int)
    requires
        spec_names_distinct(entries),
        0 <= i < entries.len(),
    ensures
        spec_index_of(entries, entries[i].0) == i,
        spec_entries_map(entries).contains_key(entries[i].0),
        spec_entries_map(entries)[entries[i].0] == entries[i].1,
{
    lemma_index_of(entries, entries[i].0);
}

/// Finds the first entry that bears `name`.
pub fn index_of<T: DeepView>(entries: &Vec<(String, T)>, name: &String) -> (index: usize)
    ensures
        index == spec_index_of(entries.deep_view(), name@),
        index <= entries.len(),
{
    let ghost view = entries.deep_view();
    proof {
        lemma_index_of(view, name@);
    }
    let mut i: usize = 0;
    while i < entries.len()
        invariant
            i <= entries.len(),
            view == entries.deep_view(),
            forall|j: int| 0 <= j < i ==> view[j].0 != name@,
            0 <= spec_index_of(view, name@) <= view.len(),
            spec_index_of(view, name@) < view.len() ==> view[spec_index_of(view, name@)].0
                == name@,
            forall|j: int| 0 <= j < spec_index_of(view, name@) ==> view[j].0 != name@,
        decreases entries.len() - i,
    {
        assert(view[i as int].0 == entries@[i as int].0@);
        if strings_equal(&entries[i].0, name) {
            return i;
        }
        i = i + 1;
    }
    i
}

} // verus!
