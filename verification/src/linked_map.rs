//! The insertion-ordered maps that hold the nodes and the elements.
//!
//! `linked_hash_map::LinkedHashMap` is opaque to the verifier. Its contents
//! are named by `node_entries` and `element_entries`, and the few methods
//! that the library calls are wrapped here. The contracts of the wrappers are
//! believed, not proved: each says what the method's source shows.

use linked_hash_map::LinkedHashMap;
use vstd::prelude::*;

verus! {

/// `linked_hash_map::LinkedHashMap`, of which the verifier sees the name only.
#[verifier::external_type_specification]
#[verifier::external_body]
#[verifier::reject_recursive_types(K)]
#[verifier::reject_recursive_types(V)]
#[verifier::reject_recursive_types(S)]
pub struct ExLinkedHashMap<K, V, S>(LinkedHashMap<K, V, S>);

/// What is stored with a node: its coordinate pair and its optional scalar
/// values, each number as the bit pattern of an IEEE 754 binary64.
pub type NodeRecord = ((u64, u64), Option<Vec<u64>>);

/// A node record as a plain value.
pub type NodeValue = ((u64, u64), Option<Seq<u64>>);

/// The entries of a node map, oldest insertion first.
pub uninterp spec fn node_entries(m: LinkedHashMap<u32, NodeRecord>) -> Seq<(u32, NodeValue)>;

/// The entries of an element map, oldest insertion first.
pub uninterp spec fn element_entries(m: LinkedHashMap<u32, Vec<u32>>) -> Seq<(u32, Seq<u32>)>;

/// A node record as a plain value.
pub open spec fn record_view(record: NodeRecord) -> NodeValue {
    (
        record.0,
        match record.1 {
            Some(values) => Some(values@),
            None => None,
        },
    )
}

/// An optional node record as a plain value.
pub open spec fn optional_record_view(record: Option<NodeRecord>) -> Option<NodeValue> {
    match record {
        Some(r) => Some(record_view(r)),
        None => None,
    }
}

/// What a walk over a node map has handed out, as plain values.
pub open spec fn node_items_view(items: Seq<(u32, &NodeRecord)>) -> Seq<(u32, NodeValue)> {
    items.map_values(|item: (u32, &NodeRecord)| (item.0, record_view(*item.1)))
}

/// What a walk over an element map has handed out, as plain values.
pub open spec fn element_items_view(items: Seq<(u32, &Vec<u32>)>) -> Seq<(u32, Seq<u32>)> {
    items.map_values(|item: (u32, &Vec<u32>)| (item.0, item.1@))
}

/// An optional list of node ids as a plain value.
pub open spec fn optional_ids_view(ids: Option<Vec<u32>>) -> Option<Seq<u32>> {
    match ids {
        Some(v) => Some(v@),
        None => None,
    }
}

/// The keys of a sequence of entries, in order.
pub open spec fn keys_of<V>(entries: Seq<(u32, V)>) -> Seq<u32> {
    entries.map_values(|e: (u32, V)| e.0)
}

/// No key occurs twice.
pub open spec fn distinct_keys<V>(entries: Seq<(u32, V)>) -> bool {
    forall|i: int, j: int|
        0 <= i < j < entries.len() ==> (#[trigger] entries[i]).0 != (#[trigger] entries[j]).0
}

/// Whether some entry has the key `k`.
pub open spec fn has_key<V>(entries: Seq<(u32, V)>, k: u32) -> bool {
    exists|i: int| 0 <= i < entries.len() && (#[trigger] entries[i]).0 == k
}

/// The set of the keys.
pub open spec fn key_set<V>(entries: Seq<(u32, V)>) -> Set<u32> {
    Set::new(|k: u32| has_key(entries, k))
}

/// The position of an entry with key `k`, where there is one.
pub open spec fn position_of<V>(entries: Seq<(u32, V)>, k: u32) -> int {
    choose|i: int| 0 <= i < entries.len() && (#[trigger] entries[i]).0 == k
}

/// The value stored under `k`, if any.
pub open spec fn lookup<V>(entries: Seq<(u32, V)>, k: u32) -> Option<V> {
    if has_key(entries, k) {
        Some(entries[position_of(entries, k)].1)
    } else {
        None
    }
}

/// The entries after `(k, v)` has been inserted: a new key goes to the end,
/// and a key that was present moves to the end with its new value.
pub open spec fn inserted<V>(entries: Seq<(u32, V)>, k: u32, v: V) -> Seq<(u32, V)> {
    if has_key(entries, k) {
        entries.remove(position_of(entries, k)).push((k, v))
    } else {
        entries.push((k, v))
    }
}

/// Entries with the same keys in the same order have the same set of keys.
pub proof fn lemma_key_set_of_keys<V, W>(a: Seq<(u32, V)>, b: Seq<(u32, W)>)
    requires
        keys_of(a) == keys_of(b),
    ensures
        key_set(a) == key_set(b),
{
    let ka = keys_of(a);
    let kb = keys_of(b);
    assert(ka.len() == a.len());
    assert(kb.len() == b.len());
    assert forall|k: u32| has_key(a, k) <==> has_key(b, k) by {
        if has_key(a, k) {
            let i = choose|i: int| 0 <= i < a.len() && (#[trigger] a[i]).0 == k;
            assert(ka[i] == k);
            assert(kb[i] == b[i].0);
        }
        if has_key(b, k) {
            let i = choose|i: int| 0 <= i < b.len() && (#[trigger] b[i]).0 == k;
            assert(kb[i] == k);
            assert(ka[i] == a[i].0);
        }
    }
    assert(key_set(a) =~= key_set(b));
}

/// `LinkedHashMap::new`: the new map holds nothing.
#[verifier::external_body]
pub(crate) fn node_map_new() -> (m: LinkedHashMap<u32, NodeRecord>)
    ensures
        node_entries(m) == Seq::<(u32, NodeValue)>::empty(),
{
    LinkedHashMap::new()
}

/// `LinkedHashMap::insert`: a key that was absent is appended; a key that was
/// present gets the new value and moves behind all others. The value that was
/// stored under the key before is returned.
#[verifier::external_body]
pub(crate) fn node_map_insert(
    m: &mut LinkedHashMap<u32, NodeRecord>,
    id: u32,
    record: NodeRecord,
) -> (previous: Option<NodeRecord>)
    ensures
        node_entries(*final(m)) == inserted(node_entries(*old(m)), id, record_view(record)),
        optional_record_view(previous) == lookup(node_entries(*old(m)), id),
{
    m.insert(id, record)
}

/// `LinkedHashMap::get`: the value stored under the key, if the key is there.
#[verifier::external_body]
pub(crate) fn node_map_get(m: &LinkedHashMap<u32, NodeRecord>, id: u32) -> (r: Option<&NodeRecord>)
    ensures
        match r {
            Some(record) => lookup(node_entries(*m), id) == Some(record_view(*record)),
            None => lookup(node_entries(*m), id) is None,
        },
{
    m.get(&id)
}

/// `LinkedHashMap::iter`: every entry once, in insertion order, each with its
/// key copied and its value by reference. A map holds no key twice.
#[verifier::external_body]
pub(crate) fn node_map_iter(m: &LinkedHashMap<u32, NodeRecord>) -> (r: Vec<(u32, &NodeRecord)>)
    ensures
        node_items_view(r@) == node_entries(*m),
        distinct_keys(node_items_view(r@)),
{
    m.iter().map(|(id, record)| (*id, record)).collect()
}

/// `LinkedHashMap::len`: the number of entries.
#[verifier::external_body]
pub(crate) fn node_map_len(m: &LinkedHashMap<u32, NodeRecord>) -> (n: usize)
    ensures
        n == node_entries(*m).len(),
{
    m.len()
}

/// `LinkedHashMap::new`: the new map holds nothing.
#[verifier::external_body]
pub(crate) fn element_map_new() -> (m: LinkedHashMap<u32, Vec<u32>>)
    ensures
        element_entries(m) == Seq::<(u32, Seq<u32>)>::empty(),
{
    LinkedHashMap::new()
}

/// `LinkedHashMap::insert`: a key that was absent is appended; a key that was
/// present gets the new value and moves behind all others. The value that was
/// stored under the key before is returned.
#[verifier::external_body]
pub(crate) fn element_map_insert(
    m: &mut LinkedHashMap<u32, Vec<u32>>,
    id: u32,
    node_ids: Vec<u32>,
) -> (previous: Option<Vec<u32>>)
    ensures
        element_entries(*final(m)) == inserted(element_entries(*old(m)), id, node_ids@),
        optional_ids_view(previous) == lookup(element_entries(*old(m)), id),
{
    m.insert(id, node_ids)
}

/// `LinkedHashMap::iter`: every entry once, in insertion order, each with its
/// key copied and its value by reference. A map holds no key twice.
#[verifier::external_body]
pub(crate) fn element_map_iter(m: &LinkedHashMap<u32, Vec<u32>>) -> (r: Vec<(u32, &Vec<u32>)>)
    ensures
        element_items_view(r@) == element_entries(*m),
        distinct_keys(element_items_view(r@)),
{
    m.iter().map(|(id, node_ids)| (*id, node_ids)).collect()
}

/// `LinkedHashMap::len`: the number of entries.
#[verifier::external_body]
pub(crate) fn element_map_len(m: &LinkedHashMap<u32, Vec<u32>>) -> (n: usize)
    ensures
        n == element_entries(*m).len(),
{
    m.len()
}

} // verus!
