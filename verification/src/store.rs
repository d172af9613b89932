use crate::config::{Scope, ScopedServer, ServerEntry};
use indexmap::IndexMap;
use vstd::prelude::*;

verus! {

/// `indexmap::IndexMap`: a map that keeps its entries in a sequence, each
/// key once. Nothing is known of a value of it but through the functions
/// below.
#[verifier::external_type_specification]
#[verifier::external_body]
#[verifier::reject_recursive_types(K)]
#[verifier::reject_recursive_types(V)]
#[verifier::reject_recursive_types(S)]
pub struct ExIndexMap<K, V, S>(IndexMap<K, V, S>);

/// The entries of a map of scopes, in the order in which the map holds them.
pub uninterp spec fn scope_entries(map: IndexMap<String, Scope>) -> Seq<(Seq<char>, Scope)>;

/// The entries of a map of scoped servers, in the order in which the map
/// holds them.
pub uninterp spec fn scoped_entries(map: IndexMap<String, ScopedServer>) -> Seq<
    (Seq<char>, ScopedServer),
>;

/// The entries of a map of server entries, in the order in which the map
/// holds them.
pub uninterp spec fn server_entries(map: IndexMap<String, ServerEntry>) -> Seq<
    (Seq<char>, ServerEntry),
>;

/// Whether `index` is the place of the first entry named `key`.
pub open spec fn first_named<V>(entries: Seq<(Seq<char>, V)>, key: Seq<char>, index: int) -> bool {
    &&& 0 <= index < entries.len()
    &&& entries[index].0 == key
    &&& forall|j: int| 0 <= j < index ==> entries[j].0 != key
}

/// Whether some entry is named `key`.
pub open spec fn has_name<V>(entries: Seq<(Seq<char>, V)>, key: Seq<char>) -> bool {
    exists|i: int| 0 <= i < entries.len() && entries[i].0 == key
}

/// The place of the first entry named `key`, if there is one.
pub open spec fn place_of<V>(entries: Seq<(Seq<char>, V)>, key: Seq<char>) -> Option<int> {
    if has_name(entries, key) {
        Some(choose|i: int| first_named(entries, key, i))
    } else {
        None
    }
}

/// The entries after the one at `index` has been taken out and the last
/// entry has moved to its place.
pub open spec fn swap_removed<V>(entries: Seq<(Seq<char>, V)>, index: int) -> Seq<(Seq<char>, V)> {
    entries.update(index, entries.last()).drop_last()
}

/// Whether `a` comes before `b` in the order of strings: character by
/// character, by code point, a proper prefix before what extends it.
pub open spec fn text_before(a: Seq<char>, b: Seq<char>) -> bool
    decreases a.len(),
{
    if b.len() == 0 {
        false
    } else if a.len() == 0 {
        true
    } else if a[0] != b[0] {
        (a[0] as u32) < (b[0] as u32)
    } else {
        text_before(a.drop_first(), b.drop_first())
    }
}

/// Whether each entry's name comes before the names of all later entries.
pub open spec fn names_ascending<V>(entries: Seq<(Seq<char>, V)>) -> bool {
    forall|i: int, j: int|
        0 <= i < j < entries.len() ==> text_before(
            (#[trigger] entries[i]).0,
            (#[trigger] entries[j]).0,
        )
}

/// Whether `sorted` holds the entries of `given` in the ascending order
/// of their names.
pub open spec fn sorting_of<V>(sorted: Seq<(Seq<char>, V)>, given: Seq<(Seq<char>, V)>) -> bool {
    names_ascending(sorted) && sorted.to_multiset() == given.to_multiset()
}

/// `place_of` finds the first entry of that name, and finds nothing only
/// where no entry has it.
pub proof fn lemma_place_of<V>(entries: Seq<(Seq<char>, V)>, key: Seq<char>)
    ensures
        match place_of(entries, key) {
            Some(i) => first_named(entries, key, i),
            None => forall|j: int| 0 <= j < entries.len() ==> entries[j].0 != key,
        },
{
    if has_name(entries, key) {
        let k = choose|i: int| 0 <= i < entries.len() && entries[i].0 == key;
        lemma_first_exists(entries, key, k);
    }
}

proof fn lemma_first_exists<V>(entries: Seq<(Seq<char>, V)>, key: Seq<char>, k: int)
    requires
        0 <= k < entries.len(),
        entries[k].0 == key,
    ensures
        exists|i: int| first_named(entries, key, i),
    decreases k,
{
    if forall|j: int| 0 <= j < k ==> entries[j].0 != key {
        assert(first_named(entries, key, k));
    } else {
        let j = choose|j: int| 0 <= j < k && entries[j].0 == key;
        lemma_first_exists(entries, key, j);
    }
}

/// Where `index` is the place of the first entry named `key`, `place_of`
/// gives it.
pub proof fn lemma_place_is<V>(entries: Seq<(Seq<char>, V)>, key: Seq<char>, index: int)
    requires
        first_named(entries, key, index),
    ensures
        place_of(entries, key) == Some(index),
{
    lemma_place_of(entries, key);
    let i = place_of(entries, key).unwrap();
    assert(i == index);
}

/// Two lists with the same names in the same places find a name in the
/// same place.
pub proof fn lemma_place_by_names<A, B>(
    a: Seq<(Seq<char>, A)>,
    b: Seq<(Seq<char>, B)>,
    key: Seq<char>,
)
    requires
        a.len() == b.len(),
        forall|i: int| 0 <= i < a.len() ==> a[i].0 == b[i].0,
    ensures
        place_of(a, key) == place_of(b, key),
{
    lemma_place_of(a, key);
    lemma_place_of(b, key);
    match place_of(a, key) {
        Some(i) => {
            assert(first_named(b, key, i));
            lemma_place_is(b, key, i);
        },
        None => {
            if place_of(b, key) is Some {
                let j = place_of(b, key).unwrap();
                assert(a[j].0 == key);
            }
        },
    }
}

/// `IndexMap::new` for a map of scopes: a map without entries.
#[verifier::external_body]
pub(crate) fn scopes_new() -> (map: IndexMap<String, Scope>)
    ensures
        scope_entries(map) == Seq::<(Seq<char>, Scope)>::empty(),
{
    IndexMap::new()
}

/// `IndexMap::len` for a map of scopes: the number of entries.
#[verifier::external_body]
pub(crate) fn scopes_len(map: &IndexMap<String, Scope>) -> (count: usize)
    ensures
        count == scope_entries(*map).len(),
{
    map.len()
}

/// `IndexMap::get` for a map of scopes: the value stored under `key`, if the
/// map has that key.
#[verifier::external_body]
pub(crate) fn scopes_get<'a>(
    map: &'a IndexMap<String, Scope>,
    key: &str,
) -> (found: Option<&'a Scope>)
    ensures
        match place_of(scope_entries(*map), key@) {
            Some(i) => found == Some(&scope_entries(*map)[i].1),
            None => found is None,
        },
{
    map.get(key)
}

/// `IndexMap::get_index` for a map of scopes: the key and the value at `index`,
/// if the map has that many entries.
#[verifier::external_body]
pub(crate) fn scopes_at<'a>(
    map: &'a IndexMap<String, Scope>,
    index: usize,
) -> (entry: Option<(&'a String, &'a Scope)>)
    ensures
        match entry {
            Some((key, value)) => index < scope_entries(*map).len()
                && (key@, *value) == scope_entries(*map)[index as int],
            None => index >= scope_entries(*map).len(),
        },
{
    map.get_index(index)
}

/// `IndexMap::insert` for a map of scopes: where the map has `key`, the entry
/// keeps its place and gets `value`, and the value that it had is returned;
/// where it has not, the pair becomes the last entry.
#[verifier::external_body]
pub(crate) fn scopes_insert(
    map: &mut IndexMap<String, Scope>,
    key: String,
    value: Scope,
) -> (before: Option<Scope>)
    ensures
        match place_of(scope_entries(*old(map)), key@) {
            Some(i) => before == Some(scope_entries(*old(map))[i].1)
                && scope_entries(*final(map)) == scope_entries(*old(map)).update(i, (key@, value)),
            None => before is None
                && scope_entries(*final(map)) == scope_entries(*old(map)).push((key@, value)),
        },
{
    map.insert(key, value)
}

/// `IndexMap::swap_remove` for a map of scopes: where the map has `key`, that
/// entry leaves, the last entry takes its place, and the value is returned;
/// where it has not, nothing changes.
#[verifier::external_body]
pub(crate) fn scopes_swap_remove(
    map: &mut IndexMap<String, Scope>,
    key: &str,
) -> (removed: Option<Scope>)
    ensures
        match place_of(scope_entries(*old(map)), key@) {
            Some(i) => removed == Some(scope_entries(*old(map))[i].1)
                && scope_entries(*final(map)) == swap_removed(scope_entries(*old(map)), i),
            None => removed is None && scope_entries(*final(map)) == scope_entries(*old(map)),
        },
{
    map.swap_remove(key)
}

/// `IndexMap::sort_unstable_keys` for a map of scopes: the same entries, in the
/// ascending order of their keys.
#[verifier::external_body]
pub(crate) fn scopes_sort(map: &mut IndexMap<String, Scope>)
    ensures
        sorting_of(scope_entries(*final(map)), scope_entries(*old(map))),
{
    map.sort_unstable_keys()
}

/// `IndexMap::new` for a map of scoped servers: a map without entries.
#[verifier::external_body]
pub(crate) fn scoped_new() -> (map: IndexMap<String, ScopedServer>)
    ensures
        scoped_entries(map) == Seq::<(Seq<char>, ScopedServer)>::empty(),
{
    IndexMap::new()
}

/// `IndexMap::len` for a map of scoped servers: the number of entries.
#[verifier::external_body]
pub(crate) fn scoped_len(map: &IndexMap<String, ScopedServer>) -> (count: usize)
    ensures
        count == scoped_entries(*map).len(),
{
    map.len()
}

/// `IndexMap::get` for a map of scoped servers: the value stored under `key`, if the
/// map has that key.
#[verifier::external_body]
pub(crate) fn scoped_get<'a>(
    map: &'a IndexMap<String, ScopedServer>,
    key: &str,
) -> (found: Option<&'a ScopedServer>)
    ensures
        match place_of(scoped_entries(*map), key@) {
            Some(i) => found == Some(&scoped_entries(*map)[i].1),
            None => found is None,
        },
{
    map.get(key)
}

/// `IndexMap::get_index` for a map of scoped servers: the key and the value at `index`,
/// if the map has that many entries.
#[verifier::external_body]
pub(crate) fn scoped_at<'a>(
    map: &'a IndexMap<String, ScopedServer>,
    index: usize,
) -> (entry: Option<(&'a String, &'a ScopedServer)>)
    ensures
        match entry {
            Some((key, value)) => index < scoped_entries(*map).len()
                && (key@, *value) == scoped_entries(*map)[index as int],
            None => index >= scoped_entries(*map).len(),
        },
{
    map.get_index(index)
}

/// `IndexMap::insert` for a map of scoped servers: where the map has `key`, the entry
/// keeps its place and gets `value`, and the value that it had is returned;
/// where it has not, the pair becomes the last entry.
#[verifier::external_body]
pub(crate) fn scoped_insert(
    map: &mut IndexMap<String, ScopedServer>,
    key: String,
    value: ScopedServer,
) -> (before: Option<ScopedServer>)
    ensures
        match place_of(scoped_entries(*old(map)), key@) {
            Some(i) => before == Some(scoped_entries(*old(map))[i].1)
                && scoped_entries(*final(map)) == scoped_entries(*old(map)).update(
                    i,
                    (key@, value),
                ),
            None => before is None
                && scoped_entries(*final(map)) == scoped_entries(*old(map)).push((key@, value)),
        },
{
    map.insert(key, value)
}

/// `IndexMap::swap_remove` for a map of scoped servers: where the map has `key`, that
/// entry leaves, the last entry takes its place, and the value is returned;
/// where it has not, nothing changes.
#[verifier::external_body]
pub(crate) fn scoped_swap_remove(
    map: &mut IndexMap<String, ScopedServer>,
    key: &str,
) -> (removed: Option<ScopedServer>)
    ensures
        match place_of(scoped_entries(*old(map)), key@) {
            Some(i) => removed == Some(scoped_entries(*old(map))[i].1)
                && scoped_entries(*final(map)) == swap_removed(scoped_entries(*old(map)), i),
            None => removed is None && scoped_entries(*final(map)) == scoped_entries(*old(map)),
        },
{
    map.swap_remove(key)
}

/// `IndexMap::sort_unstable_keys` for a map of scoped servers: the same entries, in the
/// ascending order of their keys.
#[verifier::external_body]
pub(crate) fn scoped_sort(map: &mut IndexMap<String, ScopedServer>)
    ensures
        sorting_of(scoped_entries(*final(map)), scoped_entries(*old(map))),
{
    map.sort_unstable_keys()
}

/// `IndexMap::new` for a map of server entries: a map without entries.
#[verifier::external_body]
pub(crate) fn servers_new() -> (map: IndexMap<String, ServerEntry>)
    ensures
        server_entries(map) == Seq::<(Seq<char>, ServerEntry)>::empty(),
{
    IndexMap::new()
}

/// `IndexMap::len` for a map of server entries: the number of entries.
#[verifier::external_body]
pub(crate) fn servers_len(map: &IndexMap<String, ServerEntry>) -> (count: usize)
    ensures
        count == server_entries(*map).len(),
{
    map.len()
}

/// `IndexMap::get` for a map of server entries: the value stored under `key`, if the
/// map has that key.
#[verifier::external_body]
pub(crate) fn servers_get<'a>(
    map: &'a IndexMap<String, ServerEntry>,
    key: &str,
) -> (found: Option<&'a ServerEntry>)
    ensures
        match place_of(server_entries(*map), key@) {
            Some(i) => found == Some(&server_entries(*map)[i].1),
            None => found is None,
        },
{
    map.get(key)
}

/// `IndexMap::get_mut` for a map of server entries: the value stored under `key`, if
/// the map has that key, to be changed in its place. Nothing else changes.
#[verifier::external_body]
pub(crate) fn servers_get_mut<'a>(
    map: &'a mut IndexMap<String, ServerEntry>,
    key: &str,
) -> (found: Option<&'a mut ServerEntry>)
    ensures
        match found {
            Some(value) => place_of(server_entries(*old(map)), key@) matches Some(i)
                && *value == server_entries(*old(map))[i].1
                && server_entries(*final(map)) == server_entries(*old(map)).update(
                    i,
                    (server_entries(*old(map))[i].0, *final(value)),
                ),
            None => place_of(server_entries(*old(map)), key@) is None
                && server_entries(*final(map)) == server_entries(*old(map)),
        },
{
    map.get_mut(key)
}

/// `IndexMap::get_index` for a map of server entries: the key and the value at `index`,
/// if the map has that many entries.
#[verifier::external_body]
pub(crate) fn servers_at<'a>(
    map: &'a IndexMap<String, ServerEntry>,
    index: usize,
) -> (entry: Option<(&'a String, &'a ServerEntry)>)
    ensures
        match entry {
            Some((key, value)) => index < server_entries(*map).len()
                && (key@, *value) == server_entries(*map)[index as int],
            None => index >= server_entries(*map).len(),
        },
{
    map.get_index(index)
}

/// `IndexMap::get_index_mut` for a map of server entries: the value at `index`, if the
/// map has that many entries, to be changed in its place. Nothing else
/// changes.
#[verifier::external_body]
pub(crate) fn servers_at_mut<'a>(
    map: &'a mut IndexMap<String, ServerEntry>,
    index: usize,
) -> (entry: Option<&'a mut ServerEntry>)
    ensures
        match entry {
            Some(value) => index < server_entries(*old(map)).len()
                && *value == server_entries(*old(map))[index as int].1
                && server_entries(*final(map)) == server_entries(*old(map)).update(
                    index as int,
                    (server_entries(*old(map))[index as int].0, *final(value)),
                ),
            None => index >= server_entries(*old(map)).len()
                && server_entries(*final(map)) == server_entries(*old(map)),
        },
{
    map.get_index_mut(index).map(|pair| pair.1)
}

/// `IndexMap::insert` for a map of server entries: where the map has `key`, the entry
/// keeps its place and gets `value`, and the value that it had is returned;
/// where it has not, the pair becomes the last entry.
#[verifier::external_body]
pub(crate) fn servers_insert(
    map: &mut IndexMap<String, ServerEntry>,
    key: String,
    value: ServerEntry,
) -> (before: Option<ServerEntry>)
    ensures
        match place_of(server_entries(*old(map)), key@) {
            Some(i) => before == Some(server_entries(*old(map))[i].1)
                && server_entries(*final(map)) == server_entries(*old(map)).update(
                    i,
                    (key@, value),
                ),
            None => before is None
                && server_entries(*final(map)) == server_entries(*old(map)).push((key@, value)),
        },
{
    map.insert(key, value)
}

/// `IndexMap::swap_remove` for a map of server entries: where the map has `key`, that
/// entry leaves, the last entry takes its place, and the value is returned;
/// where it has not, nothing changes.
#[verifier::external_body]
pub(crate) fn servers_swap_remove(
    map: &mut IndexMap<String, ServerEntry>,
    key: &str,
) -> (removed: Option<ServerEntry>)
    ensures
        match place_of(server_entries(*old(map)), key@) {
            Some(i) => removed == Some(server_entries(*old(map))[i].1)
                && server_entries(*final(map)) == swap_removed(server_entries(*old(map)), i),
            None => removed is None && server_entries(*final(map)) == server_entries(*old(map)),
        },
{
    map.swap_remove(key)
}

/// `IndexMap::sort_unstable_keys` for a map of server entries: the same entries, in the
/// ascending order of their keys.
#[verifier::external_body]
pub(crate) fn servers_sort(map: &mut IndexMap<String, ServerEntry>)
    ensures
        sorting_of(server_entries(*final(map)), server_entries(*old(map))),
{
    map.sort_unstable_keys()
}

} // verus!
