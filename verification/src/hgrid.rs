//! The mesh: a node store, an element store, the declared boundaries, a
//! description and the sign convention of the stored depths.

use crate::boundaries::{
    clone_segments, group_or_empty, is_boundaries_error, nonempty_group, segments_known,
    Boundaries, BoundariesError,
};
use crate::elements::{
    clone_element_map, is_construction_error, references_known, sizes_valid, Elements,
    ElementsError,
};
use crate::gr3::{clone_text, text_view, Gr3ParserOutput};
use crate::linked_map::{element_map_new, key_set, keys_of, lemma_key_set_of_keys, NodeValue};
use crate::nodes::{
    depths_of, lemma_resigned, negate, negated_seq, recoordinated, resigned, xs_of, xys_of,
    ys_of, Nodes,
};
use std::sync::Arc;
use vstd::prelude::*;

verus! {

/// Sign convention of the scalar values stored with the nodes.
#[derive(Debug, Clone, Copy, PartialEq, Eq, Structural)]
pub enum DepthConvention {
    /// A positive value lies below the surface.
    PositiveDown,
    /// A positive value lies above the surface.
    PositiveUp,
}

impl DepthConvention {
    /// The opposite convention.
    pub open spec fn flipped(self) -> DepthConvention {
        match self {
            DepthConvention::PositiveDown => DepthConvention::PositiveUp,
            DepthConvention::PositiveUp => DepthConvention::PositiveDown,
        }
    }

    /// Returns the opposite convention.
    pub fn flip(&self) -> (r: Self)
        ensures
            r == self.flipped(),
    {
        match self {
            DepthConvention::PositiveDown => DepthConvention::PositiveUp,
            DepthConvention::PositiveUp => DepthConvention::PositiveDown,
        }
    }
}

impl Default for DepthConvention {
    fn default() -> (r: Self)
        ensures
            r == DepthConvention::PositiveDown,
    {
        DepthConvention::PositiveDown
    }
}

/// The depths as they read under the convention `wanted`, when they are
/// stored under the convention `stored`.
pub open spec fn depths_under(
    entries: Seq<(u32, NodeValue)>,
    stored: DepthConvention,
    wanted: DepthConvention,
) -> Seq<u64> {
    if stored == wanted {
        depths_of(entries)
    } else {
        negated_seq(depths_of(entries))
    }
}

/// The entries of an optional map of elements, none where the map is absent.
pub open spec fn entries_or_empty(entries: Option<Seq<(u32, Seq<u32>)>>) -> Seq<(u32, Seq<u32>)> {
    match entries {
        Some(e) => e,
        None => Seq::empty(),
    }
}

/// Why a mesh could not be made.
#[derive(Debug)]
pub enum HgridTryFromError {
    /// The file at a path could not be read: the path and the reason.
    TryFromPathBufError(String, String),
    /// The file at an address could not be fetched: the address and the reason.
    TryFromUrlError(String, String),
    /// The elements were refused.
    ElementsError(ElementsError),
    /// A group of boundary segments was refused.
    BoundariesError(BoundariesError),
    /// The mesh has no coordinate reference system to transform from.
    NoCrsDefined,
    /// The coordinates could not be transformed: the reason.
    TransformError(String),
    /// A coordinate reference system could not be set up: the reason.
    ProjError(String),
}

/// The mesh `grid` is what the content `parsed` of a mesh file describes.
pub open spec fn built_from(parsed: Gr3ParserOutput, grid: Hgrid) -> bool {
    &&& grid.nodes_view().entries() == parsed.node_entries()
    &&& grid.nodes_view().crs_view() == parsed.crs_view()
    &&& grid.elements_view().entries() == entries_or_empty(parsed.element_entries())
    &&& grid.open_segments() == nonempty_group(parsed.open_segments())
    &&& grid.land_segments() == nonempty_group(parsed.land_segments())
    &&& grid.interior_segments() == nonempty_group(parsed.interior_segments())
    &&& grid.boundaries_view() is Some <==> {
        ||| nonempty_group(parsed.open_segments()) is Some
        ||| nonempty_group(parsed.land_segments()) is Some
        ||| nonempty_group(parsed.interior_segments()) is Some
    }
    &&& grid.description_view() == parsed.description_view()
    &&& grid.convention() == DepthConvention::PositiveDown
    &&& grid.consistent()
}

/// The content `written` is what a writer of mesh files gets for `grid`:
/// every scalar value positive down, the elements always present, and every
/// boundary group present, empty where the mesh has none.
pub open spec fn written_as(grid: Hgrid, written: Gr3ParserOutput) -> bool {
    &&& written.description_view() == grid.description_view()
    &&& written.crs_view() == grid.nodes_view().crs_view()
    &&& written.node_entries() == resigned(
        grid.nodes_view().entries(),
        grid.convention() == DepthConvention::PositiveUp,
    )
    &&& written.element_entries() == Some(grid.elements_view().entries())
    &&& written.open_segments() == Some(group_or_empty(grid.open_segments()))
    &&& written.land_segments() == Some(group_or_empty(grid.land_segments()))
    &&& written.interior_segments() == Some(group_or_empty(grid.interior_segments()))
}

/// The mesh `after` is the mesh `before` with its depths flipped.
pub open spec fn depths_flipped(before: Hgrid, after: Hgrid) -> bool {
    &&& after.nodes_view().entries() == resigned(before.nodes_view().entries(), true)
    &&& after.nodes_view().crs_view() == before.nodes_view().crs_view()
    &&& after.convention() == before.convention().flipped()
    &&& after.elements_view().entries() == before.elements_view().entries()
    &&& after.open_segments() == before.open_segments()
    &&& after.land_segments() == before.land_segments()
    &&& after.interior_segments() == before.interior_segments()
    &&& after.boundaries_view() is Some <==> before.boundaries_view() is Some
    &&& after.description_view() == before.description_view()
    &&& before.consistent() ==> after.consistent()
}

/// The mesh `after` is the mesh `before` on the coordinates `coordinates`,
/// in the reference system `crs`.
pub open spec fn transformed_to(
    before: Hgrid,
    crs: Seq<char>,
    coordinates: Seq<(u64, u64)>,
    after: Hgrid,
) -> bool {
    &&& after.nodes_view().entries() == recoordinated(before.nodes_view().entries(), coordinates)
    &&& after.nodes_view().crs_view() == Some(crs)
    &&& after.elements_view().entries() == before.elements_view().entries()
    &&& after.open_segments() == nonempty_group(before.open_segments())
    &&& after.land_segments() == nonempty_group(before.land_segments())
    &&& after.interior_segments() == nonempty_group(before.interior_segments())
    &&& after.boundaries_view() is Some <==> before.boundaries_view() is Some
    &&& after.description_view() == before.description_view()
    &&& after.convention() == before.convention()
    &&& after.consistent()
}

/// An unstructured mesh of triangles and quadrilaterals.
#[derive(Debug)]
pub struct Hgrid {
    nodes: Arc<Nodes>,
    elements: Elements,
    boundaries: Option<Boundaries>,
    description: Option<String>,
    depth_convention: DepthConvention,
}

impl Hgrid {
    /// The node store.
    pub closed spec fn nodes_view(&self) -> Nodes {
        *self.nodes
    }

    /// The element store.
    pub closed spec fn elements_view(&self) -> Elements {
        self.elements
    }

    /// The declared boundaries, if any.
    pub closed spec fn boundaries_view(&self) -> Option<Boundaries> {
        self.boundaries
    }

    /// The free-text description, if any.
    pub closed spec fn description_view(&self) -> Option<Seq<char>> {
        text_view(self.description)
    }

    /// The sign convention of the stored depths.
    pub closed spec fn convention(&self) -> DepthConvention {
        self.depth_convention
    }

    /// The open boundary segments, where the group is present.
    pub open spec fn open_segments(&self) -> Option<Seq<Seq<u32>>> {
        match self.boundaries_view() {
            Some(b) => b.open_segments(),
            None => None,
        }
    }

    /// The land boundary segments, where the group is present.
    pub open spec fn land_segments(&self) -> Option<Seq<Seq<u32>>> {
        match self.boundaries_view() {
            Some(b) => b.land_segments(),
            None => None,
        }
    }

    /// The interior boundary segments, where the group is present.
    pub open spec fn interior_segments(&self) -> Option<Seq<Seq<u32>>> {
        match self.boundaries_view() {
            Some(b) => b.interior_segments(),
            None => None,
        }
    }

    /// The elements and every boundary group that is present refer to the
    /// node store of the mesh.
    pub open spec fn consistent(&self) -> bool {
        &&& self.elements_view().store() == self.nodes_view()
        &&& match self.boundaries_view() {
            Some(b) => {
                &&& b.open_store() is Some ==> b.open_store() == Some(self.nodes_view())
                &&& b.land_store() is Some ==> b.land_store() == Some(self.nodes_view())
                &&& b.interior_store() is Some ==> b.interior_store() == Some(self.nodes_view())
            },
            None => true,
        }
    }

    /// Puts a mesh together of its parts. The depths are taken to be stored
    /// positive down.
    pub fn new(
        nodes: Arc<Nodes>,
        elements: Elements,
        boundaries: Option<Boundaries>,
        description: Option<String>,
    ) -> (r: Self)
        ensures
            r.nodes_view() == *nodes,
            r.elements_view() == elements,
            r.boundaries_view() == boundaries,
            r.description_view() == text_view(description),
            r.convention() == DepthConvention::PositiveDown,
    {
        Hgrid {
            nodes,
            elements,
            boundaries,
            description,
            depth_convention: DepthConvention::PositiveDown,
        }
    }

    /// The same mesh, with its stored depths declared to follow `convention`.
    pub fn with_depth_convention(self, convention: DepthConvention) -> (r: Self)
        ensures
            r.nodes_view() == self.nodes_view(),
            r.elements_view() == self.elements_view(),
            r.boundaries_view() == self.boundaries_view(),
            r.description_view() == self.description_view(),
            r.convention() == convention,
    {
        let mut grid = self;
        grid.depth_convention = convention;
        grid
    }

    /// The node store.
    pub fn nodes(&self) -> (r: &Nodes)
        ensures
            *r == self.nodes_view(),
    {
        &self.nodes
    }

    /// The element store.
    pub fn elements(&self) -> (r: &Elements)
        ensures
            *r == self.elements_view(),
    {
        &self.elements
    }

    /// The declared boundaries, if any.
    pub fn boundaries(&self) -> (r: Option<&Boundaries>)
        ensures
            match r {
                Some(b) => self.boundaries_view() == Some(*b),
                None => self.boundaries_view() is None,
            },
    {
        self.boundaries.as_ref()
    }

    /// The free-text description, if any.
    pub fn description(&self) -> (r: Option<&String>)
        ensures
            match r {
                Some(s) => self.description_view() == Some(s@),
                None => self.description_view() is None,
            },
    {
        self.description.as_ref()
    }

    /// The x coordinates of the nodes, in insertion order.
    pub fn x(&self) -> (r: Vec<u64>)
        ensures
            r@ == xs_of(self.nodes_view().entries()),
    {
        self.nodes.x()
    }

    /// The y coordinates of the nodes, in insertion order.
    pub fn y(&self) -> (r: Vec<u64>)
        ensures
            r@ == ys_of(self.nodes_view().entries()),
    {
        self.nodes.y()
    }

    /// The coordinate pairs of the nodes, in insertion order.
    pub fn xy(&self) -> (r: Vec<(u64, u64)>)
        ensures
            r@ == xys_of(self.nodes_view().entries()),
    {
        self.nodes.xy()
    }

    /// The definition string of the coordinate reference system, if any.
    pub fn crs(&self) -> (r: Option<&str>)
        ensures
            match r {
                Some(s) => self.nodes_view().crs_view() == Some(s@),
                None => self.nodes_view().crs_view() is None,
            },
    {
        self.nodes.crs()
    }

    /// The depths as they are stored: the first scalar value of every node
    /// that has one, in insertion order.
    pub fn depths(&self) -> (r: Vec<u64>)
        ensures
            r@ == depths_of(self.nodes_view().entries()),
    {
        self.nodes.depths()
    }

    /// The depths with positive values below the surface, whatever the
    /// convention under which they are stored.
    pub fn depths_positive_down(&self) -> (r: Vec<u64>)
        ensures
            r@ == depths_under(
                self.nodes_view().entries(),
                self.convention(),
                DepthConvention::PositiveDown,
            ),
    {
        match self.depth_convention {
            DepthConvention::PositiveDown => self.depths(),
            DepthConvention::PositiveUp => negate_all(self.depths()),
        }
    }

    /// The depths with positive values above the surface, whatever the
    /// convention under which they are stored.
    pub fn depths_positive_up(&self) -> (r: Vec<u64>)
        ensures
            r@ == depths_under(
                self.nodes_view().entries(),
                self.convention(),
                DepthConvention::PositiveUp,
            ),
    {
        match self.depth_convention {
            DepthConvention::PositiveUp => self.depths(),
            DepthConvention::PositiveDown => negate_all(self.depths()),
        }
    }

    /// The sign convention of the stored depths.
    pub fn depth_convention(&self) -> (r: DepthConvention)
        ensures
            r == self.convention(),
    {
        self.depth_convention
    }

    /// Negates every scalar value of every node and turns the convention
    /// over, so that the mesh describes the same depths as before.
    ///
    /// The nodes go into a fresh store. The elements and the boundary groups
    /// are made to refer to it; one that names a node id which the store does
    /// not hold keeps the store it had.
    pub fn flip_depths(&mut self)
        ensures
            depths_flipped(*old(self), *final(self)),
    {
        let fresh = Arc::new(self.nodes.resigned(true));
        let known = fresh.known_ids();
        proof {
            lemma_resigned(self.nodes.entries());
            lemma_key_set_of_keys(fresh.entries(), self.nodes.entries());
        }
        if let Some(e) = self.elements.rewired(fresh.clone(), &known) {
            self.elements = e;
        }
        let rewired_boundaries = match &self.boundaries {
            Some(b) => Some(b.rewired(&fresh, &known)),
            None => None,
        };
        self.boundaries = rewired_boundaries;
        self.nodes = fresh;
        self.depth_convention = self.depth_convention.flip();
    }

    /// Makes the mesh that the content of a mesh file describes, with its
    /// depths stored positive down.
    ///
    /// Elements that are absent count as none; a boundary group that is
    /// absent or empty is left out, and the mesh has boundaries only if a
    /// group is left. The elements are checked first, then the groups in the
    /// order open, land, interior; the first failure is the error.
    pub fn try_from(parsed: &Gr3ParserOutput) -> (r: Result<Hgrid, HgridTryFromError>)
        ensures
            match r {
                Ok(grid) => {
                    &&& built_from(*parsed, grid)
                    &&& sizes_valid(entries_or_empty(parsed.element_entries()))
                    &&& references_known(
                        entries_or_empty(parsed.element_entries()),
                        key_set(parsed.node_entries()),
                    )
                    &&& segments_known(
                        group_or_empty(parsed.open_segments()),
                        key_set(parsed.node_entries()),
                    )
                    &&& segments_known(
                        group_or_empty(parsed.land_segments()),
                        key_set(parsed.node_entries()),
                    )
                    &&& segments_known(
                        group_or_empty(parsed.interior_segments()),
                        key_set(parsed.node_entries()),
                    )
                },
                Err(HgridTryFromError::ElementsError(e)) => is_construction_error(
                    entries_or_empty(parsed.element_entries()),
                    key_set(parsed.node_entries()),
                    e,
                ),
                Err(HgridTryFromError::BoundariesError(e)) => {
                    &&& sizes_valid(entries_or_empty(parsed.element_entries()))
                    &&& references_known(
                        entries_or_empty(parsed.element_entries()),
                        key_set(parsed.node_entries()),
                    )
                    &&& is_boundaries_error(
                        group_or_empty(parsed.open_segments()),
                        group_or_empty(parsed.land_segments()),
                        group_or_empty(parsed.interior_segments()),
                        key_set(parsed.node_entries()),
                        e,
                    )
                },
                Err(_) => false,
            },
    {
        let nodes = Arc::new(Nodes::new(parsed.nodes(), parsed.crs()));
        let element_map = match parsed.elements() {
            Some(m) => m,
            None => element_map_new(),
        };
        let elements = match Elements::new(element_map, nodes.clone()) {
            Ok(elements) => elements,
            Err(e) => { return Err(HgridTryFromError::ElementsError(e)); },
        };
        let groups = match Boundaries::from_segments(
            &nodes,
            parsed.open_boundaries(),
            parsed.land_boundaries(),
            parsed.interior_boundaries(),
        ) {
            Ok(groups) => groups,
            Err(e) => { return Err(HgridTryFromError::BoundariesError(e)); },
        };
        let boundaries = if groups.open().is_some() || groups.land().is_some()
            || groups.interior().is_some() {
            Some(groups)
        } else {
            None
        };
        Ok(
            Hgrid {
                nodes,
                elements,
                boundaries,
                description: parsed.description(),
                depth_convention: DepthConvention::PositiveDown,
            },
        )
    }

    /// The content that a writer of mesh files takes: the scalar values
    /// positive down whatever the convention of the mesh, and the declared
    /// boundaries, with every group that the mesh has not as an empty one.
    pub fn to_gr3(&self) -> (r: Gr3ParserOutput)
        ensures
            written_as(*self, r),
    {
        let negate = match self.depth_convention {
            DepthConvention::PositiveDown => false,
            DepthConvention::PositiveUp => true,
        };
        let nodes = self.nodes.resigned(negate);
        let crs = match self.nodes.crs() {
            Some(s) => Some(s.to_owned()),
            None => None,
        };
        let (open, land, interior) = self.declared_segments();
        Gr3ParserOutput::new(
            clone_text(&self.description),
            crs,
            nodes.into_hash_map(),
            Some(clone_element_map(self.elements.hash_map())),
            Some(open),
            Some(land),
            Some(interior),
        )
    }

    /// Copies of the segments of the three groups, empty where the mesh has
    /// not the group.
    fn declared_segments(&self) -> (r: (Vec<Vec<u32>>, Vec<Vec<u32>>, Vec<Vec<u32>>))
        ensures
            crate::boundaries::segments_view(r.0@) == group_or_empty(self.open_segments()),
            crate::boundaries::segments_view(r.1@) == group_or_empty(self.land_segments()),
            crate::boundaries::segments_view(r.2@) == group_or_empty(self.interior_segments()),
    {
        let mut open: Vec<Vec<u32>> = Vec::new();
        let mut land: Vec<Vec<u32>> = Vec::new();
        let mut interior: Vec<Vec<u32>> = Vec::new();
        assert(crate::boundaries::segments_view(open@) == Seq::<Seq<u32>>::empty());
        if let Some(boundaries) = &self.boundaries {
            if let Some(group) = boundaries.open() {
                open = clone_segments(group.nodes_ids());
            }
            if let Some(group) = boundaries.land() {
                land = clone_segments(group.nodes_ids());
            }
            if let Some(group) = boundaries.interior() {
                interior = clone_segments(group.nodes_ids());
            }
        }
        (open, land, interior)
    }

    /// The mesh on transformed coordinates: `coordinates` holds the new
    /// coordinate pair of every node, in insertion order, and `dst_crs` names
    /// the reference system that they are in.
    ///
    /// A mesh without a reference system cannot be transformed, and the
    /// number of coordinate pairs must be the number of nodes. The elements
    /// and the boundary groups are made anew on the new node store, a group
    /// without segments being left out.
    pub fn transform_to(&self, dst_crs: &str, coordinates: &Vec<(u64, u64)>) -> (r: Result<
        Hgrid,
        HgridTryFromError,
    >)
        ensures
            match r {
                Ok(grid) => {
                    &&& self.nodes_view().crs_view() is Some
                    &&& coordinates@.len() == self.nodes_view().entries().len()
                    &&& transformed_to(*self, dst_crs@, coordinates@, grid)
                },
                Err(HgridTryFromError::NoCrsDefined) => self.nodes_view().crs_view() is None,
                Err(HgridTryFromError::TransformError(reason)) => {
                    &&& self.nodes_view().crs_view() is Some
                    &&& coordinates@.len() != self.nodes_view().entries().len()
                    &&& reason@ == "one coordinate pair is needed for every node"@
                },
                Err(HgridTryFromError::ElementsError(e)) => {
                    &&& self.nodes_view().crs_view() is Some
                    &&& coordinates@.len() == self.nodes_view().entries().len()
                    &&& is_construction_error(
                        self.elements_view().entries(),
                        self.nodes_view().id_set(),
                        e,
                    )
                },
                Err(HgridTryFromError::BoundariesError(e)) => {
                    &&& self.nodes_view().crs_view() is Some
                    &&& coordinates@.len() == self.nodes_view().entries().len()
                    &&& references_known(self.elements_view().entries(), self.nodes_view().id_set())
                    &&& is_boundaries_error(
                        group_or_empty(self.open_segments()),
                        group_or_empty(self.land_segments()),
                        group_or_empty(self.interior_segments()),
                        self.nodes_view().id_set(),
                        e,
                    )
                },
                Err(_) => false,
            },
    {
        if self.nodes.crs().is_none() {
            return Err(HgridTryFromError::NoCrsDefined);
        }
        let nodes = match self.nodes.with_coordinates(coordinates, Some(dst_crs.to_owned())) {
            Some(nodes) => Arc::new(nodes),
            None => {
                return Err(
                    HgridTryFromError::TransformError(
                        "one coordinate pair is needed for every node".to_owned(),
                    ),
                );
            },
        };
        proof {
            assert(keys_of(nodes.entries()) =~= keys_of(self.nodes.entries()));
            lemma_key_set_of_keys(nodes.entries(), self.nodes.entries());
        }
        let elements = match Elements::new(
            clone_element_map(self.elements.hash_map()),
            nodes.clone(),
        ) {
            Ok(elements) => elements,
            Err(e) => { return Err(HgridTryFromError::ElementsError(e)); },
        };
        let boundaries = if self.boundaries.is_some() {
            let (open, land, interior) = self.declared_segments();
            match Boundaries::from_segments(&nodes, Some(open), Some(land), Some(interior)) {
                Ok(groups) => Some(groups),
                Err(e) => { return Err(HgridTryFromError::BoundariesError(e)); },
            }
        } else {
            None
        };
        Ok(
            Hgrid {
                nodes,
                elements,
                boundaries,
                description: clone_text(&self.description),
                depth_convention: self.depth_convention,
            },
        )
    }
}

impl Clone for Hgrid {
    /// A copy of the mesh that shares the node store.
    fn clone(&self) -> (r: Self)
        ensures
            r.nodes_view() == self.nodes_view(),
            r.elements_view().entries() == self.elements_view().entries(),
            r.elements_view().store() == self.elements_view().store(),
            r.open_segments() == self.open_segments(),
            r.land_segments() == self.land_segments(),
            r.interior_segments() == self.interior_segments(),
            r.boundaries_view() is Some <==> self.boundaries_view() is Some,
            r.description_view() == self.description_view(),
            r.convention() == self.convention(),
            self.consistent() ==> r.consistent(),
    {
        let boundaries = match &self.boundaries {
            Some(b) => Some(b.clone()),
            None => None,
        };
        Hgrid {
            nodes: self.nodes.clone(),
            elements: self.elements.clone(),
            boundaries,
            description: clone_text(&self.description),
            depth_convention: self.depth_convention,
        }
    }
}

/// Negates every number of a list.
pub fn negate_all(values: Vec<u64>) -> (r: Vec<u64>)
    ensures
        r@ == negated_seq(values@),
{
    let mut out: Vec<u64> = Vec::new();
    let mut i: usize = 0;
    while i < values.len()
        invariant
            i <= values.len(),
            out@ == negated_seq(values@).take(i as int),
        decreases values.len() - i,
    {
        out.push(negate(values[i]));
        assert(negated_seq(values@).take(i + 1) == negated_seq(values@).take(i as int).push(
            negated_seq(values@)[i as int],
        ));
        i += 1;
    }
    assert(negated_seq(values@).take(i as int) == negated_seq(values@));
    out
}

} // verus!
