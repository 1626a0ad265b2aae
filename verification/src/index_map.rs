//! Maps with numbered entries (`indexmap::IndexMap`), from names or from pairs of numbers to
//! numbers.

use indexmap::IndexMap;
use vstd::prelude::*;

verus! {

/// `indexmap::IndexMap`: a hash map with numbered entries.
#[verifier::external_type_specification]
#[verifier::external_body]
#[verifier::reject_recursive_types(K)]
#[verifier::reject_recursive_types(V)]
#[verifier::reject_recursive_types(S)]
pub struct ExIndexMap<K, V, S>(IndexMap<K, V, S>);

/// The entries of a map, in order.
pub uninterp spec fn name_entries(map: IndexMap<String, u32>) -> Seq<(Seq<char>, u32)>;

/// Entry `i` has the key `key`.
pub open spec fn entry_at(entries: Seq<(Seq<char>, u32)>, key: Seq<char>, i: int) -> bool {
    0 <= i < entries.len() && entries[i].0 == key
}

/// Some entry has the key `key`.
pub open spec fn has_name(entries: Seq<(Seq<char>, u32)>, key: Seq<char>) -> bool {
    exists|i: int| entry_at(entries, key, i)
}

/// No two entries have the same key.
pub open spec fn names_distinct(entries: Seq<(Seq<char>, u32)>) -> bool {
    forall|i: int, j: int|
        0 <= i < j < entries.len() ==> (#[trigger] entries[i]).0 != (#[trigger] entries[j]).0
}

/// `IndexMap::new` makes an empty map.
#[verifier::external_body]
pub(crate) fn new_names() -> (map: IndexMap<String, u32>)
    ensures
        name_entries(map) == Seq::<(Seq<char>, u32)>::empty(),
{
    IndexMap::new()
}

/// `IndexMap::get_index_of` finds the entry with a key.
#[verifier::external_body]
pub(crate) fn name_index(map: &IndexMap<String, u32>, key: &str) -> (index: Option<usize>)
    ensures
        match index {
            Some(i) => entry_at(name_entries(*map), key@, i as int),
            None => !has_name(name_entries(*map), key@),
        },
{
    map.get_index_of(key)
}

/// `IndexMap::insert_full` replaces the value of the entry with that key, or appends an entry;
/// it returns the number of the entry and the value that was replaced.
#[verifier::external_body]
pub(crate) fn insert_name(map: &mut IndexMap<String, u32>, key: String, value: u32) -> (result: (
    usize,
    Option<u32>,
))
    ensures
        match result.1 {
            Some(replaced) => {
                &&& entry_at(name_entries(*old(map)), key@, result.0 as int)
                &&& name_entries(*old(map))[result.0 as int].1 == replaced
                &&& name_entries(*final(map)) == name_entries(*old(map)).update(
                    result.0 as int,
                    (key@, value),
                )
            },
            None => {
                &&& !has_name(name_entries(*old(map)), key@)
                &&& result.0 == name_entries(*old(map)).len()
                &&& name_entries(*final(map)) == name_entries(*old(map)).push((key@, value))
            },
        },
{
    map.insert_full(key, value)
}

/// `IndexMap::get_index` reads the entry with a number.
#[verifier::external_body]
pub(crate) fn name_entry(map: &IndexMap<String, u32>, index: usize) -> (entry: Option<
    (&String, &u32),
>)
    ensures
        match entry {
            Some((key, value)) => index < name_entries(*map).len() && name_entries(
                *map,
            )[index as int] == (key@, *value),
            None => index >= name_entries(*map).len(),
        },
{
    map.get_index(index)
}

/// `IndexMap::len` counts the entries.
#[verifier::external_body]
pub(crate) fn name_count(map: &IndexMap<String, u32>) -> (count: usize)
    ensures
        count == name_entries(*map).len(),
{
    map.len()
}

/// Inserting a name keeps the names distinct.
pub proof fn insert_keeps_distinct(entries: Seq<(Seq<char>, u32)>, key: Seq<char>, value: u32)
    requires
        names_distinct(entries),
        !has_name(entries, key),
    ensures
        names_distinct(entries.push((key, value))),
{
    let all = entries.push((key, value));
    assert forall|i: int, j: int| 0 <= i < j < all.len() implies (#[trigger] all[i]).0 != (
    #[trigger] all[j]).0 by {
        assert(!entry_at(entries, key, i));
    }
}

/// The entries of a map, in order.
pub uninterp spec fn id_entries(map: IndexMap<(u32, u64), u64>) -> Seq<((u32, u64), u64)>;

/// Entry `i` has the key `key`.
pub open spec fn id_at(entries: Seq<((u32, u64), u64)>, key: (u32, u64), i: int) -> bool {
    0 <= i < entries.len() && entries[i].0 == key
}

/// Some entry has the key `key`.
pub open spec fn has_id(entries: Seq<((u32, u64), u64)>, key: (u32, u64)) -> bool {
    exists|i: int| id_at(entries, key, i)
}

/// No two entries have the same key.
pub open spec fn ids_distinct(entries: Seq<((u32, u64), u64)>) -> bool {
    forall|i: int, j: int|
        0 <= i < j < entries.len() ==> (#[trigger] entries[i]).0 != (#[trigger] entries[j]).0
}

/// The entries after entry `i` was taken out and the last one put in its place.
pub open spec fn swap_removed(entries: Seq<((u32, u64), u64)>, i: int) -> Seq<((u32, u64), u64)> {
    entries.update(i, entries.last()).drop_last()
}

/// `IndexMap::new` makes an empty map.
#[verifier::external_body]
pub(crate) fn new_ids() -> (map: IndexMap<(u32, u64), u64>)
    ensures
        id_entries(map) == Seq::<((u32, u64), u64)>::empty(),
{
    IndexMap::new()
}

/// `IndexMap::get_index_of` finds the entry with a key.
#[verifier::external_body]
pub(crate) fn id_index(map: &IndexMap<(u32, u64), u64>, key: (u32, u64)) -> (index: Option<usize>)
    ensures
        match index {
            Some(i) => id_at(id_entries(*map), key, i as int),
            None => !has_id(id_entries(*map), key),
        },
{
    map.get_index_of(&key)
}

/// `IndexMap::insert_full` appends an entry where no entry has the key, and returns its number.
#[verifier::external_body]
pub(crate) fn insert_id(map: &mut IndexMap<(u32, u64), u64>, key: (u32, u64), value: u64) -> (result: (
    usize,
    Option<u64>,
))
    requires
        !has_id(id_entries(*old(map)), key),
    ensures
        result == (id_entries(*old(map)).len() as usize, None::<u64>),
        result.0 == id_entries(*old(map)).len(),
        id_entries(*final(map)) == id_entries(*old(map)).push((key, value)),
{
    map.insert_full(key, value)
}

/// `IndexMap::swap_remove_full` takes out the entry with a key and puts the last entry in its
/// place; it returns the number of the entry with its key and value.
#[verifier::external_body]
pub(crate) fn swap_remove_id(map: &mut IndexMap<(u32, u64), u64>, key: (u32, u64)) -> (result: Option<
    (usize, (u32, u64), u64),
>)
    ensures
        match result {
            Some((i, k, value)) => {
                &&& id_at(id_entries(*old(map)), key, i as int)
                &&& id_entries(*old(map))[i as int] == (k, value)
                &&& id_entries(*final(map)) == swap_removed(id_entries(*old(map)), i as int)
            },
            None => !has_id(id_entries(*old(map)), key) && id_entries(*final(map)) == id_entries(
                *old(map),
            ),
        },
{
    map.swap_remove_full(&key)
}

/// `IndexMap::get_index` reads the entry with a number.
#[verifier::external_body]
pub(crate) fn id_entry(map: &IndexMap<(u32, u64), u64>, index: usize) -> (entry: Option<
    (&(u32, u64), &u64),
>)
    ensures
        match entry {
            Some((key, value)) => index < id_entries(*map).len() && id_entries(*map)[index as int]
                == (*key, *value),
            None => index >= id_entries(*map).len(),
        },
{
    map.get_index(index)
}

/// `IndexMap::len` counts the entries.
#[verifier::external_body]
pub(crate) fn id_count(map: &IndexMap<(u32, u64), u64>) -> (count: usize)
    ensures
        count == id_entries(*map).len(),
{
    map.len()
}

/// Inserting a key keeps the keys distinct.
pub proof fn insert_keeps_ids_distinct(entries: Seq<((u32, u64), u64)>, key: (u32, u64), value: u64)
    requires
        ids_distinct(entries),
        !has_id(entries, key),
    ensures
        ids_distinct(entries.push((key, value))),
{
    let all = entries.push((key, value));
    assert forall|i: int, j: int| 0 <= i < j < all.len() implies (#[trigger] all[i]).0 != (
    #[trigger] all[j]).0 by {
        assert(!id_at(entries, key, i));
    }
}

/// Taking out an entry keeps the keys distinct, and takes out just its key.
pub proof fn swap_removed_keeps(entries: Seq<((u32, u64), u64)>, i: int)
    requires
        ids_distinct(entries),
        0 <= i < entries.len(),
    ensures
        ids_distinct(swap_removed(entries, i)),
        forall|key: (u32, u64)| #[trigger]
            has_id(swap_removed(entries, i), key) <==> has_id(entries, key) && key != entries[i].0,
{
    let rest = swap_removed(entries, i);
    assert forall|key: (u32, u64)| #[trigger]
        has_id(rest, key) <==> has_id(entries, key) && key != entries[i].0 by {
        if has_id(rest, key) {
            let k = choose|k: int| id_at(rest, key, k);
            let m = if k == i {
                entries.len() - 1
            } else {
                k
            };
            assert(id_at(entries, key, m));
            assert(m != i);
            if m < i {
                assert(entries[m].0 != entries[i].0);
            } else {
                assert(entries[i].0 != entries[m].0);
            }
        }
        if has_id(entries, key) && key != entries[i].0 {
            let m = choose|m: int| id_at(entries, key, m);
            if m == entries.len() - 1 {
                assert(id_at(rest, key, i));
            } else {
                assert(id_at(rest, key, m));
            }
        }
    }
}

} // verus!
