//! Insertion-ordered collections from the `indexmap` crate, together with
//! the sequence model this crate reasons about.
//!
//! An `IndexSet<String>` is modelled as the sequence of its member names in
//! insertion order; an `IndexMap<String, ColumnType>` as the sequence of its
//! (name, type) entries in insertion order. The model functions are left
//! uninterpreted; everything the verified code knows about the collections
//! comes from the contracts of the small wrappers below, each of which
//! mirrors what the `indexmap` documentation promises of one method.

use crate::types::ColumnType;
use vstd::prelude::*;

verus! {

#[verifier::external_type_specification]
#[verifier::external_body]
#[verifier::reject_recursive_types(T)]
#[verifier::reject_recursive_types(S)]
pub struct ExIndexSet<T, S>(indexmap::IndexSet<T, S>);

#[verifier::external_type_specification]
#[verifier::external_body]
#[verifier::reject_recursive_types(K)]
#[verifier::reject_recursive_types(V)]
#[verifier::reject_recursive_types(S)]
pub struct ExIndexMap<K, V, S>(indexmap::IndexMap<K, V, S>);

/// The member names of an insertion-ordered string set, in order.
pub uninterp spec fn index_set_view(s: indexmap::IndexSet<String>) -> Seq<Seq<char>>;

/// The (name, type) entries of an insertion-ordered column map, in order.
pub uninterp spec fn index_map_view(m: indexmap::IndexMap<String, ColumnType>) -> Seq<
    (Seq<char>, ColumnType),
>;

/// The keys of a sequence of map entries, in entry order.
pub open spec fn entry_keys(entries: Seq<(Seq<char>, ColumnType)>) -> Seq<Seq<char>> {
    entries.map_values(|p: (Seq<char>, ColumnType)| p.0)
}

/// Whether some entry carries the given key.
pub open spec fn entries_has_key(entries: Seq<(Seq<char>, ColumnType)>, key: Seq<char>) -> bool {
    exists|i: int| 0 <= i < entries.len() && entries[i].0 == key
}

/// The value of the first entry carrying the given key, if any.
pub open spec fn entries_lookup(
    entries: Seq<(Seq<char>, ColumnType)>,
    key: Seq<char>,
) -> Option<ColumnType>
    decreases entries.len(),
{
    if entries.len() == 0 {
        Option::None
    } else if entries[0].0 == key {
        Option::Some(entries[0].1)
    } else {
        entries_lookup(entries.drop_first(), key)
    }
}

/// The value stored under a key that is known to be present.
pub open spec fn entries_value(
    entries: Seq<(Seq<char>, ColumnType)>,
    key: Seq<char>,
) -> ColumnType {
    entries_lookup(entries, key).unwrap()
}

/// Every entry keeps its position; those carrying the given key get the new
/// value.
pub open spec fn entries_update(
    entries: Seq<(Seq<char>, ColumnType)>,
    key: Seq<char>,
    value: ColumnType,
) -> Seq<(Seq<char>, ColumnType)> {
    entries.map_values(
        |p: (Seq<char>, ColumnType)|
            if p.0 == key {
                (p.0, value)
            } else {
                p
            },
    )
}

/// A lookup succeeds exactly when some entry carries the key.
pub proof fn lemma_entries_lookup_is_some(entries: Seq<(Seq<char>, ColumnType)>, key: Seq<char>)
    ensures
        entries_lookup(entries, key) is Some <==> entries_has_key(entries, key),
    decreases entries.len(),
{
    if entries.len() == 0 {
    } else if entries[0].0 == key {
    } else {
        lemma_entries_lookup_is_some(entries.drop_first(), key);
        if entries_has_key(entries, key) {
            let i = choose|i: int| 0 <= i < entries.len() && entries[i].0 == key;
            assert(entries.drop_first()[i - 1] == entries[i]);
            assert(entries_has_key(entries.drop_first(), key));
        }
        if entries_has_key(entries.drop_first(), key) {
            let i = choose|i: int|
                0 <= i < entries.drop_first().len() && entries.drop_first()[i].0 == key;
            assert(entries[i + 1] == entries.drop_first()[i]);
        }
    }
}

/// Relies on `indexmap::IndexSet::new`: the new set is empty.
#[verifier::external_body]
pub(crate) fn iset_new() -> (r: indexmap::IndexSet<String>)
    ensures
        index_set_view(r) == Seq::<Seq<char>>::empty(),
{
    indexmap::IndexSet::new()
}

/// Relies on `indexmap::IndexSet::len`: the number of members.
#[verifier::external_body]
pub(crate) fn iset_len(s: &indexmap::IndexSet<String>) -> (r: usize)
    ensures
        r == index_set_view(*s).len(),
{
    s.len()
}

/// Relies on `indexmap::IndexSet::insert`: a value equivalent to an existing
/// member leaves the set unchanged (the original member keeps its place in
/// the order); a new value is appended last.
#[verifier::external_body]
pub(crate) fn iset_insert(s: &mut indexmap::IndexSet<String>, value: String)
    ensures
        index_set_view(*final(s)) == if index_set_view(*old(s)).contains(value@) {
            index_set_view(*old(s))
        } else {
            index_set_view(*old(s)).push(value@)
        },
{
    s.insert(value);
}

/// Relies on `indexmap::IndexSet::get_index`: the member at a valid index,
/// in insertion order.
#[verifier::external_body]
pub(crate) fn iset_get_index(s: &indexmap::IndexSet<String>, index: usize) -> (r: &String)
    requires
        index < index_set_view(*s).len(),
    ensures
        r@ == index_set_view(*s)[index as int],
{
    s.get_index(index).unwrap()
}

/// Relies on `indexmap::IndexSet::intersection`: the members of `s` that
/// also occur in `other`, in the order they appear in `s`.
#[verifier::external_body]
pub(crate) fn iset_intersection(
    s: &indexmap::IndexSet<String>,
    other: &indexmap::IndexSet<String>,
) -> (r: indexmap::IndexSet<String>)
    ensures
        index_set_view(r) == index_set_view(*s).filter(
            (|n: Seq<char>| index_set_view(*other).contains(n)),
        ),
{
    s.intersection(other).cloned().collect()
}

/// Relies on `indexmap::IndexSet::difference`: the members of `s` that do
/// not occur in `other`, in the order they appear in `s`.
#[verifier::external_body]
pub(crate) fn iset_difference(
    s: &indexmap::IndexSet<String>,
    other: &indexmap::IndexSet<String>,
) -> (r: indexmap::IndexSet<String>)
    ensures
        index_set_view(r) == index_set_view(*s).filter(
            (|n: Seq<char>| !index_set_view(*other).contains(n)),
        ),
{
    s.difference(other).cloned().collect()
}

/// Relies on `indexmap::IndexMap::new`: the new map is empty.
#[verifier::external_body]
pub(crate) fn imap_new() -> (r: indexmap::IndexMap<String, ColumnType>)
    ensures
        index_map_view(r) == Seq::<(Seq<char>, ColumnType)>::empty(),
{
    indexmap::IndexMap::new()
}

/// Relies on `indexmap::IndexMap::insert`: an existing key keeps its place
/// in the order and only its value is updated; a new key is appended last.
#[verifier::external_body]
pub(crate) fn imap_insert(
    m: &mut indexmap::IndexMap<String, ColumnType>,
    key: String,
    value: ColumnType,
)
    ensures
        index_map_view(*final(m)) == if entries_has_key(index_map_view(*old(m)), key@) {
            entries_update(index_map_view(*old(m)), key@, value)
        } else {
            index_map_view(*old(m)).push((key@, value))
        },
{
    m.insert(key, value);
}

/// Relies on `indexmap::IndexMap::get`: the value stored under an
/// equivalent key, if one is present.
#[verifier::external_body]
pub(crate) fn imap_get(m: &indexmap::IndexMap<String, ColumnType>, key: &str) -> (r: Option<
    ColumnType,
>)
    ensures
        r == entries_lookup(index_map_view(*m), key@),
{
    m.get(key).copied()
}

/// Relies on `indexmap::IndexMap::contains_key`: whether an equivalent key
/// is present.
#[verifier::external_body]
pub(crate) fn imap_contains_key(m: &indexmap::IndexMap<String, ColumnType>, key: &str) -> (r:
    bool)
    ensures
        r == entries_has_key(index_map_view(*m), key@),
{
    m.contains_key(key)
}

/// Relies on `indexmap::IndexMap::keys`: the keys of the map, in insertion
/// order.
#[verifier::external_body]
pub(crate) fn imap_keys(m: &indexmap::IndexMap<String, ColumnType>) -> (r: Vec<String>)
    ensures
        r@.map_values(|s: String| s@) == entry_keys(index_map_view(*m)),
{
    m.keys().cloned().collect()
}

} // verus!
