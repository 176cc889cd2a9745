//! The node store: an insertion-ordered map from node id to the node's
//! coordinate pair and optional scalar values.

use crate::linked_map::{
    distinct_keys, has_key, key_set, keys_of, lookup, node_entries, node_items_view, node_map_get,
    node_map_insert, node_map_iter, node_map_len, node_map_new, NodeRecord, NodeValue,
};
use linked_hash_map::LinkedHashMap;
use std::collections::HashSet;
use vstd::prelude::*;
use vstd::std_specs::hash::group_hash_axioms;

verus! {

/// The x coordinates of a sequence of node entries, in order.
pub open spec fn xs_of(entries: Seq<(u32, NodeValue)>) -> Seq<u64> {
    entries.map_values(|e: (u32, NodeValue)| e.1.0.0)
}

/// The y coordinates of a sequence of node entries, in order.
pub open spec fn ys_of(entries: Seq<(u32, NodeValue)>) -> Seq<u64> {
    entries.map_values(|e: (u32, NodeValue)| e.1.0.1)
}

/// The coordinate pairs of a sequence of node entries, in order.
pub open spec fn xys_of(entries: Seq<(u32, NodeValue)>) -> Seq<(u64, u64)> {
    entries.map_values(|e: (u32, NodeValue)| e.1.0)
}

/// The sign bit of an IEEE 754 binary64.
pub const SIGN_BIT: u64 = 0x8000_0000_0000_0000;

/// The bit pattern of the negated number: the same bits with the sign bit
/// turned over.
pub open spec fn negated_bits(bits: u64) -> u64 {
    bits ^ SIGN_BIT
}

/// The bit patterns of the negated numbers.
pub open spec fn negated_seq(values: Seq<u64>) -> Seq<u64> {
    values.map_values(|bits: u64| negated_bits(bits))
}

/// The optional values of a node, each negated.
pub open spec fn negated_values(values: Option<Seq<u64>>) -> Option<Seq<u64>> {
    match values {
        Some(v) => Some(negated_seq(v)),
        None => None,
    }
}

/// The entries with the same ids and coordinates, and with every scalar
/// value negated if `negate` is set.
pub open spec fn resigned(entries: Seq<(u32, NodeValue)>, negate: bool) -> Seq<(u32, NodeValue)> {
    entries.map_values(
        |e: (u32, NodeValue)|
            (
                e.0,
                (
                    e.1.0,
                    if negate {
                        negated_values(e.1.1)
                    } else {
                        e.1.1
                    },
                ),
            ),
    )
}

/// The entries with the same ids and scalar values, and with the coordinate
/// pairs of `coordinates`, taken in order.
pub open spec fn recoordinated(entries: Seq<(u32, NodeValue)>, coordinates: Seq<(u64, u64)>) -> Seq<
    (u32, NodeValue),
> {
    Seq::new(entries.len(), |i: int| (entries[i].0, (coordinates[i], entries[i].1.1)))
}

/// Whether a node entry has a first scalar value.
pub open spec fn has_depth(e: (u32, NodeValue)) -> bool {
    e.1.1 is Some && e.1.1->0.len() > 0
}

/// The first scalar value of every node that has one, in order.
pub open spec fn depths_of(entries: Seq<(u32, NodeValue)>) -> Seq<u64> {
    entries.filter(|e: (u32, NodeValue)| has_depth(e)).map_values(
        |e: (u32, NodeValue)| e.1.1->0[0],
    )
}

/// Negating twice gives the number back.
pub proof fn lemma_negated_twice(bits: u64)
    ensures
        negated_bits(negated_bits(bits)) == bits,
{
    assert((bits ^ 0x8000_0000_0000_0000u64) ^ 0x8000_0000_0000_0000u64 == bits) by (bit_vector);
}

/// Negating every value of every node twice gives the entries back, and
/// negating keeps the ids and the coordinates.
pub proof fn lemma_resigned(entries: Seq<(u32, NodeValue)>)
    ensures
        resigned(entries, false) == entries,
        resigned(resigned(entries, true), true) == entries,
        keys_of(resigned(entries, true)) == keys_of(entries),
        xys_of(resigned(entries, true)) == xys_of(entries),
{
    assert(resigned(entries, false) =~= entries);
    assert(keys_of(resigned(entries, true)) =~= keys_of(entries));
    assert(xys_of(resigned(entries, true)) =~= xys_of(entries));
    let twice = resigned(resigned(entries, true), true);
    assert forall|i: int| 0 <= i < entries.len() implies twice[i] == entries[i] by {
        let v = entries[i].1.1;
        match v {
            Some(values) => {
                assert forall|j: int| 0 <= j < values.len() implies negated_seq(
                    negated_seq(values),
                )[j] == values[j] by {
                    lemma_negated_twice(values[j]);
                }
                assert(negated_seq(negated_seq(values)) =~= values);
            },
            None => {},
        }
    }
    assert(twice =~= entries);
}

/// The bit pattern of the negated number.
pub fn negate(bits: u64) -> (r: u64)
    ensures
        r == negated_bits(bits),
{
    bits ^ SIGN_BIT
}

/// Copies the optional values of a node, negating each if `negate` is set.
pub fn copy_values(values: &Option<Vec<u64>>, negate: bool) -> (r: Option<Vec<u64>>)
    ensures
        match *values {
            Some(v) => r is Some && r->0@ == (if negate {
                negated_seq(v@)
            } else {
                v@
            }),
            None => r is None,
        },
{
    match values {
        None => None,
        Some(v) => {
            let mut out: Vec<u64> = Vec::new();
            let mut i: usize = 0;
            while i < v.len()
                invariant
                    i <= v.len(),
                    out@.len() == i,
                    forall|j: int|
                        0 <= j < i ==> out@[j] == (if negate {
                            negated_bits(#[trigger] v@[j])
                        } else {
                            v@[j]
                        }),
                decreases v.len() - i,
            {
                let bits = v[i];
                if negate {
                    out.push(self::negate(bits));
                } else {
                    out.push(bits);
                }
                i += 1;
            }
            assert(out@ =~= (if negate {
                negated_seq(v@)
            } else {
                v@
            }));
            Some(out)
        },
    }
}

/// Copies a map of nodes, entry by entry, negating every scalar value if
/// `negate` is set.
pub fn copy_node_map(hash_map: &LinkedHashMap<u32, NodeRecord>, negate: bool) -> (r: LinkedHashMap<
    u32,
    NodeRecord,
>)
    ensures
        node_entries(r) == resigned(node_entries(*hash_map), negate),
{
    let items = node_map_iter(hash_map);
    let ghost entries = node_entries(*hash_map);
    let ghost target = resigned(entries, negate);
    let mut out = node_map_new();
    let mut i: usize = 0;
    while i < items.len()
        invariant
            i <= items.len(),
            node_items_view(items@) == entries,
            distinct_keys(entries),
            target == resigned(entries, negate),
            node_entries(out) == target.take(i as int),
        decreases items.len() - i,
    {
        let ghost copied = target.take(i as int);
        assert(entries[i as int] == node_items_view(items@)[i as int]);
        let record: NodeRecord = (items[i].1.0, copy_values(&items[i].1.1, negate));
        assert(!has_key(copied, items[i as int].0)) by {
            if has_key(copied, items[i as int].0) {
                let j = choose|j: int|
                    0 <= j < copied.len() && (#[trigger] copied[j]).0 == items[i as int].0;
                assert(entries[j].0 == entries[i as int].0);
            }
        }
        node_map_insert(&mut out, items[i].0, record);
        assert(target.take(i + 1) == copied.push(target[i as int]));
        i += 1;
    }
    assert(target.take(i as int) == target);
    out
}

/// The ids in `node_ids` that are not among the `known` ones, in order and
/// as often as they occur.
pub open spec fn dangling(node_ids: Seq<u32>, known: Set<u32>) -> Seq<u32> {
    node_ids.filter(|id: u32| !known.contains(id))
}

/// Whether every id in `node_ids` is among the `known` ones.
pub open spec fn all_known(node_ids: Seq<u32>, known: Set<u32>) -> bool {
    forall|i: int| 0 <= i < node_ids.len() ==> known.contains(#[trigger] node_ids[i])
}

/// Nothing dangles exactly when every id is known.
pub proof fn lemma_dangling_empty(node_ids: Seq<u32>, known: Set<u32>)
    ensures
        dangling(node_ids, known).len() == 0 <==> all_known(node_ids, known),
    decreases node_ids.len(),
{
    reveal(Seq::filter);
    if node_ids.len() > 0 {
        let head = node_ids.drop_last();
        lemma_dangling_empty(head, known);
        if all_known(node_ids, known) {
            assert forall|i: int| 0 <= i < head.len() implies known.contains(
                #[trigger] head[i],
            ) by {
                assert(head[i] == node_ids[i]);
            }
            assert(known.contains(node_ids[node_ids.len() - 1]));
        }
        if dangling(node_ids, known).len() == 0 {
            assert forall|i: int| 0 <= i < node_ids.len() implies known.contains(
                #[trigger] node_ids[i],
            ) by {
                if i < head.len() {
                    assert(head[i] == node_ids[i]);
                }
            }
        }
    }
}

/// Collects the ids in `node_ids` that are not among the `known` ones.
pub fn dangling_ids(node_ids: &Vec<u32>, known: &HashSet<u32>) -> (r: Vec<u32>)
    ensures
        r@ == dangling(node_ids@, known@),
{
    broadcast use group_hash_axioms;

    let ghost absent = |id: u32| !known@.contains(id);
    let mut out: Vec<u32> = Vec::new();
    let mut i: usize = 0;
    assert(node_ids@.take(0).filter(absent) == Seq::<u32>::empty()) by {
        reveal(Seq::filter);
    }
    while i < node_ids.len()
        invariant
            i <= node_ids.len(),
            absent == |id: u32| !known@.contains(id),
            out@ == node_ids@.take(i as int).filter(absent),
        decreases node_ids.len() - i,
    {
        let id = node_ids[i];
        proof {
            assert(node_ids@.take(i + 1) == node_ids@.take(i as int).push(id));
            node_ids@.take(i as int).lemma_filter_push(id, absent);
        }
        if !known.contains(&id) {
            out.push(id);
        }
        i += 1;
    }
    assert(node_ids@.take(i as int) == node_ids@);
    out
}

/// The nodes of a mesh, keyed by id, in the order in which they were inserted.
///
/// Every number is held as the bit pattern of an IEEE 754 binary64, so that
/// the store can carry coordinates and values without doing arithmetic on them.
#[derive(Debug)]
pub struct Nodes {
    hash_map: LinkedHashMap<u32, NodeRecord>,
    crs: Option<String>,
}

impl Nodes {
    /// The entries of the store, oldest insertion first.
    pub closed spec fn entries(&self) -> Seq<(u32, NodeValue)> {
        node_entries(self.hash_map)
    }

    /// The definition string of the coordinate reference system, if one is set.
    pub closed spec fn crs_view(&self) -> Option<Seq<char>> {
        match self.crs {
            Some(s) => Some(s@),
            None => None,
        }
    }

    /// The node ids, in insertion order.
    pub open spec fn ids(&self) -> Seq<u32> {
        keys_of(self.entries())
    }

    /// Whether the store holds a node with this id.
    pub open spec fn contains(&self, id: u32) -> bool {
        has_key(self.entries(), id)
    }

    /// The set of the node ids.
    pub open spec fn id_set(&self) -> Set<u32> {
        key_set(self.entries())
    }

    /// Makes a node store of a map and an optional reference system.
    pub fn new(hash_map: LinkedHashMap<u32, NodeRecord>, crs: Option<String>) -> (r: Nodes)
        ensures
            r.entries() == node_entries(hash_map),
            r.crs_view() == (match crs {
                Some(s) => Some(s@),
                None => None,
            }),
    {
        Nodes { hash_map, crs }
    }

    /// Gives the map behind the store away.
    pub fn into_hash_map(self) -> (r: LinkedHashMap<u32, NodeRecord>)
        ensures
            node_entries(r) == self.entries(),
    {
        self.hash_map
    }

    /// The map behind the store.
    pub fn hash_map(&self) -> (r: &LinkedHashMap<u32, NodeRecord>)
        ensures
            node_entries(*r) == self.entries(),
    {
        &self.hash_map
    }

    /// The definition string of the coordinate reference system, if one is set.
    pub fn crs(&self) -> (r: Option<&str>)
        ensures
            match r {
                Some(s) => self.crs_view() == Some(s@),
                None => self.crs_view() is None,
            },
    {
        match &self.crs {
            Some(s) => Some(s.as_str()),
            None => None,
        }
    }

    /// The number of nodes.
    pub fn len(&self) -> (n: usize)
        ensures
            n == self.entries().len(),
    {
        node_map_len(&self.hash_map)
    }

    /// The node ids, in insertion order.
    pub fn node_ids(&self) -> (r: Vec<u32>)
        ensures
            r@ == self.ids(),
            r@.no_duplicates(),
    {
        let items = node_map_iter(&self.hash_map);
        let mut out: Vec<u32> = Vec::new();
        let mut i: usize = 0;
        while i < items.len()
            invariant
                i <= items.len(),
                node_items_view(items@) == self.entries(),
                out@ == self.ids().take(i as int),
            decreases items.len() - i,
        {
            assert(self.entries()[i as int] == node_items_view(items@)[i as int]);
            out.push(items[i].0);
            assert(self.ids().take(i + 1) == self.ids().take(i as int).push(self.ids()[i as int]));
            i += 1;
        }
        assert(self.ids().take(i as int) == self.ids());
        assert(distinct_keys(self.entries()));
        out
    }

    /// The set of the node ids, for repeated membership tests.
    pub fn known_ids(&self) -> (r: HashSet<u32>)
        ensures
            r@ == self.id_set(),
    {
        broadcast use group_hash_axioms;

        let items = node_map_iter(&self.hash_map);
        let mut known: HashSet<u32> = HashSet::new();
        let mut i: usize = 0;
        while i < items.len()
            invariant
                i <= items.len(),
                node_items_view(items@) == self.entries(),
                forall|id: u32|
                    known@.contains(id) <==> has_key(self.entries().take(i as int), id),
            decreases items.len() - i,
        {
            let ghost before = self.entries().take(i as int);
            let ghost after = self.entries().take(i + 1);
            assert(self.entries()[i as int] == node_items_view(items@)[i as int]);
            known.insert(items[i].0);
            assert forall|id: u32| known@.contains(id) <==> has_key(after, id) by {
                if has_key(before, id) {
                    let j = choose|j: int| 0 <= j < before.len() && (#[trigger] before[j]).0 == id;
                    assert(after[j].0 == id);
                }
                if id == items[i as int].0 {
                    assert(after[i as int].0 == id);
                }
                if has_key(after, id) {
                    let j = choose|j: int| 0 <= j < after.len() && (#[trigger] after[j]).0 == id;
                    if j < i {
                        assert(before[j].0 == id);
                    }
                }
            }
            i += 1;
        }
        assert(self.entries().take(i as int) == self.entries());
        assert(known@ =~= self.id_set());
        known
    }

    /// The x coordinates, in insertion order.
    pub fn x(&self) -> (r: Vec<u64>)
        ensures
            r@ == xs_of(self.entries()),
    {
        let items = node_map_iter(&self.hash_map);
        let mut out: Vec<u64> = Vec::new();
        let mut i: usize = 0;
        while i < items.len()
            invariant
                i <= items.len(),
                node_items_view(items@) == self.entries(),
                out@ == xs_of(self.entries()).take(i as int),
            decreases items.len() - i,
        {
            assert(self.entries()[i as int] == node_items_view(items@)[i as int]);
            out.push(items[i].1.0.0);
            assert(xs_of(self.entries()).take(i + 1) == xs_of(self.entries()).take(i as int).push(
                xs_of(self.entries())[i as int],
            ));
            i += 1;
        }
        assert(xs_of(self.entries()).take(i as int) == xs_of(self.entries()));
        out
    }

    /// The y coordinates, in insertion order.
    pub fn y(&self) -> (r: Vec<u64>)
        ensures
            r@ == ys_of(self.entries()),
    {
        let items = node_map_iter(&self.hash_map);
        let mut out: Vec<u64> = Vec::new();
        let mut i: usize = 0;
        while i < items.len()
            invariant
                i <= items.len(),
                node_items_view(items@) == self.entries(),
                out@ == ys_of(self.entries()).take(i as int),
            decreases items.len() - i,
        {
            assert(self.entries()[i as int] == node_items_view(items@)[i as int]);
            out.push(items[i].1.0.1);
            assert(ys_of(self.entries()).take(i + 1) == ys_of(self.entries()).take(i as int).push(
                ys_of(self.entries())[i as int],
            ));
            i += 1;
        }
        assert(ys_of(self.entries()).take(i as int) == ys_of(self.entries()));
        out
    }

    /// The coordinate pairs, in insertion order.
    pub fn xy(&self) -> (r: Vec<(u64, u64)>)
        ensures
            r@ == xys_of(self.entries()),
    {
        let items = node_map_iter(&self.hash_map);
        let mut out: Vec<(u64, u64)> = Vec::new();
        let mut i: usize = 0;
        while i < items.len()
            invariant
                i <= items.len(),
                node_items_view(items@) == self.entries(),
                out@ == xys_of(self.entries()).take(i as int),
            decreases items.len() - i,
        {
            assert(self.entries()[i as int] == node_items_view(items@)[i as int]);
            out.push(items[i].1.0);
            assert(xys_of(self.entries()).take(i + 1) == xys_of(self.entries()).take(
                i as int,
            ).push(xys_of(self.entries())[i as int]));
            i += 1;
        }
        assert(xys_of(self.entries()).take(i as int) == xys_of(self.entries()));
        out
    }

    /// The first scalar value of every node that has one, in insertion order.
    pub fn depths(&self) -> (r: Vec<u64>)
        ensures
            r@ == depths_of(self.entries()),
    {
        let items = node_map_iter(&self.hash_map);
        let ghost with_depth = |e: (u32, NodeValue)| has_depth(e);
        let ghost first_value = |e: (u32, NodeValue)| e.1.1->0[0];
        let mut out: Vec<u64> = Vec::new();
        let mut i: usize = 0;
        assert(self.entries().take(0).filter(with_depth) == Seq::<(u32, NodeValue)>::empty()) by {
            reveal(Seq::filter);
        }
        while i < items.len()
            invariant
                i <= items.len(),
                node_items_view(items@) == self.entries(),
                with_depth == |e: (u32, NodeValue)| has_depth(e),
                first_value == |e: (u32, NodeValue)| e.1.1->0[0],
                out@ == self.entries().take(i as int).filter(with_depth).map_values(first_value),
            decreases items.len() - i,
        {
            let ghost entry = self.entries()[i as int];
            let ghost before = self.entries().take(i as int);
            assert(entry == node_items_view(items@)[i as int]);
            proof {
                assert(self.entries().take(i + 1) == before.push(entry));
                before.lemma_filter_push(entry, with_depth);
                if has_depth(entry) {
                    assert(before.filter(with_depth).push(entry).map_values(first_value)
                        == before.filter(with_depth).map_values(first_value).push(
                        first_value(entry),
                    ));
                }
            }
            match &items[i].1.1 {
                Some(values) => {
                    if values.len() > 0 {
                        out.push(values[0]);
                    }
                },
                None => {},
            }
            i += 1;
        }
        assert(self.entries().take(i as int) == self.entries());
        out
    }

    /// A store with the same ids, coordinates and reference system, and with
    /// every scalar value negated if `negate` is set.
    pub fn resigned(&self, negate: bool) -> (r: Nodes)
        ensures
            r.entries() == resigned(self.entries(), negate),
            r.crs_view() == self.crs_view(),
    {
        let crs = match &self.crs {
            Some(s) => Some(s.clone()),
            None => None,
        };
        Nodes { hash_map: copy_node_map(&self.hash_map, negate), crs }
    }

    /// A store with the same ids and scalar values, with the coordinate pairs
    /// of `coordinates` taken in order, and with the reference system `crs`.
    /// There is none where the number of coordinate pairs is not the number
    /// of nodes.
    pub fn with_coordinates(&self, coordinates: &Vec<(u64, u64)>, crs: Option<String>) -> (r:
        Option<Nodes>)
        ensures
            r is Some <==> coordinates@.len() == self.entries().len(),
            r matches Some(nodes) ==> {
                &&& nodes.entries() == recoordinated(self.entries(), coordinates@)
                &&& nodes.crs_view() == (match crs {
                    Some(s) => Some(s@),
                    None => None,
                })
            },
    {
        let items = node_map_iter(&self.hash_map);
        if coordinates.len() != items.len() {
            return None;
        }
        let ghost entries = self.entries();
        let ghost target = recoordinated(entries, coordinates@);
        let mut out = node_map_new();
        let mut i: usize = 0;
        while i < items.len()
            invariant
                i <= items.len(),
                coordinates@.len() == items@.len(),
                node_items_view(items@) == entries,
                distinct_keys(entries),
                target == recoordinated(entries, coordinates@),
                node_entries(out) == target.take(i as int),
            decreases items.len() - i,
        {
            let ghost copied = target.take(i as int);
            assert(entries[i as int] == node_items_view(items@)[i as int]);
            let record: NodeRecord = (coordinates[i], copy_values(&items[i].1.1, false));
            assert(!has_key(copied, items[i as int].0)) by {
                if has_key(copied, items[i as int].0) {
                    let j = choose|j: int|
                        0 <= j < copied.len() && (#[trigger] copied[j]).0 == items[i as int].0;
                    assert(entries[j].0 == entries[i as int].0);
                }
            }
            node_map_insert(&mut out, items[i].0, record);
            assert(target.take(i + 1) == copied.push(target[i as int]));
            i += 1;
        }
        assert(target.take(i as int) == target);
        Some(Nodes { hash_map: out, crs })
    }

    /// The coordinate pair of the node with this id, if the store holds it.
    pub fn get_node(&self, idx: u32) -> (r: Option<(u64, u64)>)
        ensures
            r == (match lookup(self.entries(), idx) {
                Some(value) => Some(value.0),
                None => None,
            }),
    {
        match node_map_get(&self.hash_map, idx) {
            Some(record) => Some(record.0),
            None => None,
        }
    }
}

impl Clone for Nodes {
    /// A copy with the same entries and reference system.
    fn clone(&self) -> (r: Self)
        ensures
            r.entries() == self.entries(),
            r.crs_view() == self.crs_view(),
    {
        proof {
            lemma_resigned(self.entries());
        }
        self.resigned(false)
    }
}

} // verus!
