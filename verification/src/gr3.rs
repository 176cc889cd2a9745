//! The record that a reader of mesh files hands over and that a writer takes:
//! the nodes, the elements, the three groups of boundary segments, the
//! description and the reference system, with no invariant between them.

use crate::boundaries::{clone_optional_segments, optional_segments_view, segments_view};
use crate::elements::clone_element_map;
use crate::linked_map::{element_entries, node_entries, NodeRecord, NodeValue};
use crate::nodes::{copy_node_map, resigned};
use linked_hash_map::LinkedHashMap;
use vstd::prelude::*;

verus! {

/// An optional text as a plain value.
pub open spec fn text_view(text: Option<String>) -> Option<Seq<char>> {
    match text {
        Some(s) => Some(s@),
        None => None,
    }
}

/// An optional map of elements as a plain value.
pub open spec fn optional_elements_view(elements: Option<LinkedHashMap<u32, Vec<u32>>>) -> Option<
    Seq<(u32, Seq<u32>)>,
> {
    match elements {
        Some(m) => Some(element_entries(m)),
        None => None,
    }
}

/// Copies an optional text.
pub fn clone_text(text: &Option<String>) -> (r: Option<String>)
    ensures
        text_view(r) == text_view(*text),
{
    match text {
        Some(s) => Some(s.clone()),
        None => None,
    }
}

/// The content of a mesh file.
#[derive(Debug)]
pub struct Gr3ParserOutput {
    description: Option<String>,
    crs: Option<String>,
    nodes: LinkedHashMap<u32, NodeRecord>,
    elements: Option<LinkedHashMap<u32, Vec<u32>>>,
    open_boundaries: Option<Vec<Vec<u32>>>,
    land_boundaries: Option<Vec<Vec<u32>>>,
    interior_boundaries: Option<Vec<Vec<u32>>>,
}

impl Gr3ParserOutput {
    /// The free-text description.
    pub closed spec fn description_view(&self) -> Option<Seq<char>> {
        text_view(self.description)
    }

    /// The definition string of the coordinate reference system.
    pub closed spec fn crs_view(&self) -> Option<Seq<char>> {
        text_view(self.crs)
    }

    /// The node entries, in file order.
    pub closed spec fn node_entries(&self) -> Seq<(u32, NodeValue)> {
        node_entries(self.nodes)
    }

    /// The element entries, in file order, where the file has elements.
    pub closed spec fn element_entries(&self) -> Option<Seq<(u32, Seq<u32>)>> {
        optional_elements_view(self.elements)
    }

    /// The open boundary segments.
    pub closed spec fn open_segments(&self) -> Option<Seq<Seq<u32>>> {
        optional_segments_view(self.open_boundaries)
    }

    /// The land boundary segments.
    pub closed spec fn land_segments(&self) -> Option<Seq<Seq<u32>>> {
        optional_segments_view(self.land_boundaries)
    }

    /// The interior boundary segments.
    pub closed spec fn interior_segments(&self) -> Option<Seq<Seq<u32>>> {
        optional_segments_view(self.interior_boundaries)
    }

    /// Puts the parts of a mesh file together.
    pub fn new(
        description: Option<String>,
        crs: Option<String>,
        nodes: LinkedHashMap<u32, NodeRecord>,
        elements: Option<LinkedHashMap<u32, Vec<u32>>>,
        open_boundaries: Option<Vec<Vec<u32>>>,
        land_boundaries: Option<Vec<Vec<u32>>>,
        interior_boundaries: Option<Vec<Vec<u32>>>,
    ) -> (r: Self)
        ensures
            r.description_view() == text_view(description),
            r.crs_view() == text_view(crs),
            r.node_entries() == node_entries(nodes),
            r.element_entries() == optional_elements_view(elements),
            r.open_segments() == optional_segments_view(open_boundaries),
            r.land_segments() == optional_segments_view(land_boundaries),
            r.interior_segments() == optional_segments_view(interior_boundaries),
    {
        Gr3ParserOutput {
            description,
            crs,
            nodes,
            elements,
            open_boundaries,
            land_boundaries,
            interior_boundaries,
        }
    }

    /// A copy of the node map.
    pub fn nodes(&self) -> (r: LinkedHashMap<u32, NodeRecord>)
        ensures
            node_entries(r) == self.node_entries(),
    {
        let r = copy_node_map(&self.nodes, false);
        assert(resigned(self.node_entries(), false) =~= self.node_entries());
        r
    }

    /// A copy of the node map in which every scalar value is negated.
    pub fn nodes_values_reversed_sign(&self) -> (r: LinkedHashMap<u32, NodeRecord>)
        ensures
            node_entries(r) == resigned(self.node_entries(), true),
    {
        copy_node_map(&self.nodes, true)
    }

    /// A copy of the element map, where the file has elements.
    pub fn elements(&self) -> (r: Option<LinkedHashMap<u32, Vec<u32>>>)
        ensures
            optional_elements_view(r) == self.element_entries(),
    {
        match &self.elements {
            Some(m) => Some(clone_element_map(m)),
            None => None,
        }
    }

    /// A copy of the definition string of the coordinate reference system.
    pub fn crs(&self) -> (r: Option<String>)
        ensures
            text_view(r) == self.crs_view(),
    {
        clone_text(&self.crs)
    }

    /// A copy of the description.
    pub fn description(&self) -> (r: Option<String>)
        ensures
            text_view(r) == self.description_view(),
    {
        clone_text(&self.description)
    }

    /// A copy of the open boundary segments.
    pub fn open_boundaries(&self) -> (r: Option<Vec<Vec<u32>>>)
        ensures
            optional_segments_view(r) == self.open_segments(),
    {
        clone_optional_segments(&self.open_boundaries)
    }

    /// A copy of the land boundary segments.
    pub fn land_boundaries(&self) -> (r: Option<Vec<Vec<u32>>>)
        ensures
            optional_segments_view(r) == self.land_segments(),
    {
        clone_optional_segments(&self.land_boundaries)
    }

    /// A copy of the interior boundary segments.
    pub fn interior_boundaries(&self) -> (r: Option<Vec<Vec<u32>>>)
        ensures
            optional_segments_view(r) == self.interior_segments(),
    {
        clone_optional_segments(&self.interior_boundaries)
    }

    /// The node map.
    pub fn nodes_ref(&self) -> (r: &LinkedHashMap<u32, NodeRecord>)
        ensures
            node_entries(*r) == self.node_entries(),
    {
        &self.nodes
    }

    /// The element map, where the file has elements.
    pub fn elements_ref(&self) -> (r: Option<&LinkedHashMap<u32, Vec<u32>>>)
        ensures
            match r {
                Some(m) => self.element_entries() == Some(element_entries(*m)),
                None => self.element_entries() is None,
            },
    {
        self.elements.as_ref()
    }

    /// The open boundary segments.
    pub fn open_boundaries_ref(&self) -> (r: Option<&Vec<Vec<u32>>>)
        ensures
            match r {
                Some(s) => self.open_segments() == Some(segments_view(s@)),
                None => self.open_segments() is None,
            },
    {
        self.open_boundaries.as_ref()
    }

    /// The land boundary segments.
    pub fn land_boundaries_ref(&self) -> (r: Option<&Vec<Vec<u32>>>)
        ensures
            match r {
                Some(s) => self.land_segments() == Some(segments_view(s@)),
                None => self.land_segments() is None,
            },
    {
        self.land_boundaries.as_ref()
    }

    /// The interior boundary segments.
    pub fn interior_boundaries_ref(&self) -> (r: Option<&Vec<Vec<u32>>>)
        ensures
            match r {
                Some(s) => self.interior_segments() == Some(segments_view(s@)),
                None => self.interior_segments() is None,
            },
    {
        self.interior_boundaries.as_ref()
    }

    /// The description, or the empty text where there is none.
    pub fn get_full_string(&self) -> (r: String)
        ensures
            r@ == (match self.description_view() {
                Some(s) => s,
                None => Seq::empty(),
            }),
    {
        match &self.description {
            Some(s) => s.clone(),
            None => String::new(),
        }
    }
}

} // verus!
