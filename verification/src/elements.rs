//! The element store: an insertion-ordered map from element id to the ids of
//! the element's nodes, checked against a node store when it is made.

use crate::linked_map::{
    distinct_keys, element_entries, element_items_view, element_map_insert, element_map_iter,
    element_map_len, element_map_new, has_key,
};
use crate::nodes::{all_known, dangling, dangling_ids, lemma_dangling_empty, Nodes};
use linked_hash_map::LinkedHashMap;
use std::collections::HashSet;
use std::sync::Arc;
use vstd::prelude::*;

verus! {

/// An element is a triangle or a quadrilateral.
pub open spec fn valid_size(node_count: nat) -> bool {
    node_count == 3 || node_count == 4
}

/// Every element has three or four nodes.
pub open spec fn sizes_valid(entries: Seq<(u32, Seq<u32>)>) -> bool {
    forall|i: int| 0 <= i < entries.len() ==> valid_size((#[trigger] entries[i]).1.len())
}

/// Every node id that an element refers to is among the `known` ones.
pub open spec fn references_known(entries: Seq<(u32, Seq<u32>)>, known: Set<u32>) -> bool {
    forall|i: int| 0 <= i < entries.len() ==> all_known((#[trigger] entries[i]).1, known)
}

/// Entry `i` is the first whose number of nodes is neither three nor four.
pub open spec fn first_invalid_size(entries: Seq<(u32, Seq<u32>)>, i: int) -> bool {
    &&& 0 <= i < entries.len()
    &&& !valid_size(entries[i].1.len())
    &&& forall|j: int| 0 <= j < i ==> valid_size((#[trigger] entries[j]).1.len())
}

/// Entry `i` is the first that refers to a node id that is not known.
pub open spec fn first_dangling(entries: Seq<(u32, Seq<u32>)>, known: Set<u32>, i: int) -> bool {
    &&& 0 <= i < entries.len()
    &&& !all_known(entries[i].1, known)
    &&& forall|j: int| 0 <= j < i ==> all_known((#[trigger] entries[j]).1, known)
}

/// Why a map of elements was refused.
#[derive(Debug)]
pub enum ElementsError {
    /// An element has a number of nodes other than three or four.
    InvalidElementSize { element_id: u32, node_count: usize },
    /// An element refers to node ids that the node store does not hold.
    DanglingNodeReference { element_id: u32, node_ids: Vec<u32> },
}

/// The error names the first element of a wrong size, and that size.
pub open spec fn is_size_error(entries: Seq<(u32, Seq<u32>)>, e: ElementsError) -> bool {
    match e {
        ElementsError::InvalidElementSize { element_id, node_count } => exists|i: int|
            first_invalid_size(entries, i) && element_id == (#[trigger] entries[i]).0 && node_count
                == entries[i].1.len(),
        ElementsError::DanglingNodeReference { .. } => false,
    }
}

/// The error names the first element that refers to an unknown node id, and
/// the unknown ids of that element in the order in which it names them.
pub open spec fn is_reference_error(
    entries: Seq<(u32, Seq<u32>)>,
    known: Set<u32>,
    e: ElementsError,
) -> bool {
    match e {
        ElementsError::DanglingNodeReference { element_id, node_ids } => exists|i: int|
            first_dangling(entries, known, i) && element_id == (#[trigger] entries[i]).0
                && node_ids@ == dangling(entries[i].1, known),
        ElementsError::InvalidElementSize { .. } => false,
    }
}

/// The error with which a map of elements is refused: a wrong size comes
/// before an unknown node id.
pub open spec fn is_construction_error(
    entries: Seq<(u32, Seq<u32>)>,
    known: Set<u32>,
    e: ElementsError,
) -> bool {
    ||| is_size_error(entries, e)
    ||| (sizes_valid(entries) && is_reference_error(entries, known, e))
}

/// Checks that every element has three or four nodes. The error names the
/// first element that has not, and its number of nodes.
pub fn validate_sizes(hash_map: &LinkedHashMap<u32, Vec<u32>>) -> (r: Result<(), ElementsError>)
    ensures
        match r {
            Ok(_) => sizes_valid(element_entries(*hash_map)),
            Err(e) => is_size_error(element_entries(*hash_map), e),
        },
{
    let items = element_map_iter(hash_map);
    let ghost entries = element_entries(*hash_map);
    let mut i: usize = 0;
    while i < items.len()
        invariant
            i <= items.len(),
            entries == element_entries(*hash_map),
            element_items_view(items@) == entries,
            forall|j: int| 0 <= j < i ==> valid_size((#[trigger] entries[j]).1.len()),
        decreases items.len() - i,
    {
        assert(entries[i as int] == element_items_view(items@)[i as int]);
        let node_count = items[i].1.len();
        if node_count != 3 && node_count != 4 {
            let e = ElementsError::InvalidElementSize { element_id: items[i].0, node_count };
            assert(first_invalid_size(entries, i as int) && items[i as int].0 == entries[i as int].0
                && node_count == entries[i as int].1.len());
            assert(is_size_error(entries, e));
            return Err(e);
        }
        i += 1;
    }
    Ok(())
}

/// Checks that every node id that an element refers to is known. The error
/// names the first element that refers to an unknown id, and the unknown ids
/// of that element.
pub fn validate_references(hash_map: &LinkedHashMap<u32, Vec<u32>>, known: &HashSet<u32>) -> (r:
    Result<(), ElementsError>)
    ensures
        match r {
            Ok(_) => references_known(element_entries(*hash_map), known@),
            Err(e) => is_reference_error(element_entries(*hash_map), known@, e),
        },
{
    let items = element_map_iter(hash_map);
    let ghost entries = element_entries(*hash_map);
    let mut i: usize = 0;
    while i < items.len()
        invariant
            i <= items.len(),
            entries == element_entries(*hash_map),
            element_items_view(items@) == entries,
            forall|j: int| 0 <= j < i ==> all_known((#[trigger] entries[j]).1, known@),
        decreases items.len() - i,
    {
        assert(entries[i as int] == element_items_view(items@)[i as int]);
        let node_ids = dangling_ids(items[i].1, known);
        proof {
            lemma_dangling_empty(entries[i as int].1, known@);
        }
        if node_ids.len() > 0 {
            let e = ElementsError::DanglingNodeReference { element_id: items[i].0, node_ids };
            assert(first_dangling(entries, known@, i as int) && items[i as int].0
                == entries[i as int].0 && e->node_ids@ == dangling(entries[i as int].1, known@));
            assert(is_reference_error(entries, known@, e));
            return Err(e);
        }
        i += 1;
    }
    Ok(())
}

/// Copies a map of elements, entry by entry.
pub fn clone_element_map(hash_map: &LinkedHashMap<u32, Vec<u32>>) -> (r: LinkedHashMap<
    u32,
    Vec<u32>,
>)
    ensures
        element_entries(r) == element_entries(*hash_map),
{
    let items = element_map_iter(hash_map);
    let ghost entries = element_entries(*hash_map);
    let mut out = element_map_new();
    let mut i: usize = 0;
    while i < items.len()
        invariant
            i <= items.len(),
            element_items_view(items@) == entries,
            distinct_keys(entries),
            element_entries(out) == entries.take(i as int),
        decreases items.len() - i,
    {
        let ghost copied = entries.take(i as int);
        assert(entries[i as int] == element_items_view(items@)[i as int]);
        let node_ids = items[i].1.clone();
        assert(node_ids@ == items[i as int].1@);
        assert(!has_key(copied, items[i as int].0)) by {
            if has_key(copied, items[i as int].0) {
                let j = choose|j: int|
                    0 <= j < copied.len() && (#[trigger] copied[j]).0 == items[i as int].0;
                assert(entries[j].0 == entries[i as int].0);
            }
        }
        element_map_insert(&mut out, items[i].0, node_ids);
        assert(entries.take(i + 1) == copied.push(entries[i as int]));
        i += 1;
    }
    assert(entries.take(i as int) == entries);
    out
}

/// The elements of a mesh, keyed by id, in the order in which they were
/// inserted, together with the node store that they refer to.
///
/// Every element has three or four nodes, and every node id that an element
/// names is held by the node store.
#[derive(Debug)]
pub struct Elements {
    hash_map: LinkedHashMap<u32, Vec<u32>>,
    nodes: Arc<Nodes>,
}

impl Elements {
    #[verifier::type_invariant]
    spec fn well_formed(self) -> bool {
        &&& sizes_valid(element_entries(self.hash_map))
        &&& references_known(element_entries(self.hash_map), self.nodes.id_set())
    }

    /// The entries of the store, oldest insertion first.
    pub closed spec fn entries(&self) -> Seq<(u32, Seq<u32>)> {
        element_entries(self.hash_map)
    }

    /// The node store that the elements refer to.
    pub closed spec fn store(&self) -> Nodes {
        *self.nodes
    }

    /// Makes an element store of a map and the node store that it refers to.
    ///
    /// A map with an element of a wrong size is refused with
    /// `InvalidElementSize`. A map whose elements all have a right size, but
    /// refer to a node id that `nodes` does not hold, is refused with
    /// `DanglingNodeReference`. Every other map is accepted.
    pub fn new(hash_map: LinkedHashMap<u32, Vec<u32>>, nodes: Arc<Nodes>) -> (r: Result<
        Elements,
        ElementsError,
    >)
        ensures
            match r {
                Ok(elements) => {
                    &&& elements.entries() == element_entries(hash_map)
                    &&& elements.store() == *nodes
                    &&& sizes_valid(element_entries(hash_map))
                    &&& references_known(element_entries(hash_map), nodes.id_set())
                },
                Err(e) => is_construction_error(element_entries(hash_map), nodes.id_set(), e),
            },
    {
        match validate_sizes(&hash_map) {
            Err(e) => { return Err(e); },
            Ok(_) => {},
        }
        let known = nodes.known_ids();
        match validate_references(&hash_map, &known) {
            Err(e) => { return Err(e); },
            Ok(_) => {},
        }
        Ok(Elements { hash_map, nodes })
    }

    /// The map behind the store.
    pub fn hash_map(&self) -> (r: &LinkedHashMap<u32, Vec<u32>>)
        ensures
            element_entries(*r) == self.entries(),
    {
        &self.hash_map
    }

    /// The node store that the elements refer to.
    pub fn nodes(&self) -> (r: &Nodes)
        ensures
            *r == self.store(),
    {
        &self.nodes
    }

    /// The number of elements.
    pub fn len(&self) -> (n: usize)
        ensures
            n == self.entries().len(),
    {
        element_map_len(&self.hash_map)
    }

    /// Every entry once, in insertion order: the element's id and the ids of
    /// its nodes. Every element has three or four nodes, all held by the
    /// store's node store.
    pub fn items(&self) -> (r: Vec<(u32, &Vec<u32>)>)
        ensures
            element_items_view(r@) == self.entries(),
            distinct_keys(self.entries()),
            sizes_valid(self.entries()),
            references_known(self.entries(), self.store().id_set()),
    {
        proof {
            use_type_invariant(self);
        }
        element_map_iter(&self.hash_map)
    }

    /// The same elements, referring to `nodes`, if `nodes` holds every node
    /// id that they name.
    pub(crate) fn rewired(&self, nodes: Arc<Nodes>, known: &HashSet<u32>) -> (r: Option<Elements>)
        requires
            known@ == nodes.id_set(),
        ensures
            match r {
                Some(e) => {
                    &&& e.entries() == self.entries()
                    &&& e.store() == *nodes
                    &&& references_known(self.entries(), nodes.id_set())
                },
                None => !references_known(self.entries(), nodes.id_set()),
            },
            self.store().id_set() == nodes.id_set() ==> r is Some,
    {
        proof {
            use_type_invariant(self);
        }
        match validate_references(&self.hash_map, known) {
            Ok(_) => Some(Elements { hash_map: clone_element_map(&self.hash_map), nodes }),
            Err(e) => {
                assert(!references_known(self.entries(), nodes.id_set())) by {
                    let i = choose|i: int| #[trigger]
                        first_dangling(self.entries(), known@, i);
                    assert(!all_known(self.entries()[i].1, known@));
                }
                None
            },
        }
    }
}

impl Clone for Elements {
    /// A copy with the same entries, sharing the node store.
    fn clone(&self) -> (r: Self)
        ensures
            r.entries() == self.entries(),
            r.store() == self.store(),
    {
        proof {
            use_type_invariant(self);
        }
        Elements { hash_map: clone_element_map(&self.hash_map), nodes: self.nodes.clone() }
    }
}

} // verus!
