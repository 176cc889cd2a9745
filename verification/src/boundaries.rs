//! The declared boundaries of a mesh: open, land and interior segments, each
//! a polyline of node ids checked against a node store when it is made.

use crate::nodes::{all_known, dangling, dangling_ids, lemma_dangling_empty, Nodes};
use std::collections::HashSet;
use std::sync::Arc;
use vstd::prelude::*;

verus! {

/// The three groups of boundary segments.
#[derive(Hash, Eq, PartialEq, Debug, Ord, PartialOrd, Clone, Copy, Structural)]
pub enum BoundaryType {
    /// Segments along the open ocean.
    Open,
    /// Segments along land.
    Land,
    /// Segments around islands.
    Interior,
}

/// A list of segments as a plain value.
pub open spec fn segments_view(segments: Seq<Vec<u32>>) -> Seq<Seq<u32>> {
    segments.map_values(|segment: Vec<u32>| segment@)
}

/// Every node id of every segment is among the `known` ones.
pub open spec fn segments_known(segments: Seq<Seq<u32>>, known: Set<u32>) -> bool {
    forall|i: int| 0 <= i < segments.len() ==> all_known(#[trigger] segments[i], known)
}

/// Segment `i` is the first that names a node id that is not known.
pub open spec fn first_dangling_segment(segments: Seq<Seq<u32>>, known: Set<u32>, i: int) -> bool {
    &&& 0 <= i < segments.len()
    &&& !all_known(segments[i], known)
    &&& forall|j: int| 0 <= j < i ==> all_known(#[trigger] segments[j], known)
}

/// Why a group of boundary segments was refused.
#[derive(Debug)]
pub enum BoundariesError {
    /// A segment names node ids that the node store does not hold.
    DanglingNodeReference { boundary_type: BoundaryType, segment: usize, node_ids: Vec<u32> },
}

/// The error names the group, the first segment of it that names an unknown
/// node id, and the unknown ids of that segment in the order in which it
/// names them.
pub open spec fn is_segment_error(
    boundary_type: BoundaryType,
    segments: Seq<Seq<u32>>,
    known: Set<u32>,
    e: BoundariesError,
) -> bool {
    match e {
        BoundariesError::DanglingNodeReference { boundary_type: group, segment, node_ids } => {
            &&& group == boundary_type
            &&& first_dangling_segment(segments, known, segment as int)
            &&& node_ids@ == dangling(segments[segment as int], known)
        },
    }
}

/// Checks that every node id of every segment is known.
pub fn validate_segments(
    boundary_type: BoundaryType,
    nodes_ids: &Vec<Vec<u32>>,
    known: &HashSet<u32>,
) -> (r: Result<(), BoundariesError>)
    ensures
        match r {
            Ok(_) => segments_known(segments_view(nodes_ids@), known@),
            Err(e) => is_segment_error(boundary_type, segments_view(nodes_ids@), known@, e),
        },
{
    let ghost segments = segments_view(nodes_ids@);
    let mut i: usize = 0;
    while i < nodes_ids.len()
        invariant
            i <= nodes_ids.len(),
            segments == segments_view(nodes_ids@),
            forall|j: int| 0 <= j < i ==> all_known(#[trigger] segments[j], known@),
        decreases nodes_ids.len() - i,
    {
        let node_ids = dangling_ids(&nodes_ids[i], known);
        proof {
            lemma_dangling_empty(segments[i as int], known@);
        }
        if node_ids.len() > 0 {
            let e = BoundariesError::DanglingNodeReference { boundary_type, segment: i, node_ids };
            assert(first_dangling_segment(segments, known@, i as int));
            return Err(e);
        }
        i += 1;
    }
    Ok(())
}

/// Copies a list of segments.
pub fn clone_segments(nodes_ids: &Vec<Vec<u32>>) -> (r: Vec<Vec<u32>>)
    ensures
        segments_view(r@) == segments_view(nodes_ids@),
{
    let mut out: Vec<Vec<u32>> = Vec::new();
    let mut i: usize = 0;
    while i < nodes_ids.len()
        invariant
            i <= nodes_ids.len(),
            segments_view(out@) == segments_view(nodes_ids@).take(i as int),
        decreases nodes_ids.len() - i,
    {
        let segment = nodes_ids[i].clone();
        assert(segment@ == nodes_ids@[i as int]@);
        out.push(segment);
        assert(segments_view(out@) == segments_view(nodes_ids@).take(i as int).push(segment@));
        i += 1;
    }
    assert(segments_view(nodes_ids@).take(i as int) == segments_view(nodes_ids@));
    out
}

/// An optional list of segments as a plain value.
pub open spec fn optional_segments_view(segments: Option<Vec<Vec<u32>>>) -> Option<Seq<Seq<u32>>> {
    match segments {
        Some(s) => Some(segments_view(s@)),
        None => None,
    }
}

/// Copies an optional list of segments.
pub fn clone_optional_segments(segments: &Option<Vec<Vec<u32>>>) -> (r: Option<Vec<Vec<u32>>>)
    ensures
        optional_segments_view(r) == optional_segments_view(*segments),
{
    match segments {
        Some(s) => Some(clone_segments(s)),
        None => None,
    }
}

/// A group counts as present only when it has a segment.
pub open spec fn nonempty_group(group: Option<Seq<Seq<u32>>>) -> Option<Seq<Seq<u32>>> {
    match group {
        Some(s) => if s.len() > 0 {
            Some(s)
        } else {
            None
        },
        None => None,
    }
}

/// The segments of a group, none where the group is absent.
pub open spec fn group_or_empty(group: Option<Seq<Seq<u32>>>) -> Seq<Seq<u32>> {
    match group {
        Some(s) => s,
        None => Seq::empty(),
    }
}

/// The error with which three groups of segments are refused: that of the
/// first group, in the order open, land, interior, that names an unknown
/// node id.
pub open spec fn is_boundaries_error(
    open: Seq<Seq<u32>>,
    land: Seq<Seq<u32>>,
    interior: Seq<Seq<u32>>,
    known: Set<u32>,
    e: BoundariesError,
) -> bool {
    ||| is_segment_error(BoundaryType::Open, open, known, e)
    ||| (segments_known(open, known) && is_segment_error(BoundaryType::Land, land, known, e))
    ||| (segments_known(open, known) && segments_known(land, known) && is_segment_error(
        BoundaryType::Interior,
        interior,
        known,
        e,
    ))
}

/// The open boundary segments of a mesh. Every node id of every segment is
/// held by the node store.
#[derive(Debug)]
pub struct OpenBoundaries {
    nodes: Arc<Nodes>,
    nodes_ids: Vec<Vec<u32>>,
}

impl OpenBoundaries {
    #[verifier::type_invariant]
    spec fn well_formed(self) -> bool {
        segments_known(segments_view(self.nodes_ids@), self.nodes.id_set())
    }

    /// The segments, each a list of node ids.
    pub closed spec fn segments(&self) -> Seq<Seq<u32>> {
        segments_view(self.nodes_ids@)
    }

    /// The node store that the segments refer to.
    pub closed spec fn store(&self) -> Nodes {
        *self.nodes
    }

    /// Makes the group of open boundary segments. It is refused exactly when
    /// a segment names a node id that `nodes` does not hold.
    pub fn new(nodes: Arc<Nodes>, nodes_ids: Vec<Vec<u32>>) -> (r: Result<Self, BoundariesError>)
        ensures
            match r {
                Ok(b) => {
                    &&& b.segments() == segments_view(nodes_ids@)
                    &&& b.store() == *nodes
                    &&& segments_known(segments_view(nodes_ids@), nodes.id_set())
                },
                Err(e) => is_segment_error(
                    BoundaryType::Open,
                    segments_view(nodes_ids@),
                    nodes.id_set(),
                    e,
                ),
            },
    {
        let known = nodes.known_ids();
        match validate_segments(BoundaryType::Open, &nodes_ids, &known) {
            Err(e) => Err(e),
            Ok(_) => Ok(OpenBoundaries { nodes, nodes_ids }),
        }
    }

    /// The segments, each a list of node ids.
    pub fn nodes_ids(&self) -> (r: &Vec<Vec<u32>>)
        ensures
            segments_view(r@) == self.segments(),
            segments_known(self.segments(), self.store().id_set()),
    {
        proof {
            use_type_invariant(self);
        }
        &self.nodes_ids
    }

    /// A walk over the segments, first to last.
    pub fn iter(&self) -> (r: OpenBoundariesIter<'_>)
        ensures
            r.remaining() == self.segments(),
    {
        let it = OpenBoundariesIter { outer: &self.nodes_ids, current: 0 };
        assert(it.remaining() == self.segments()) by {
            assert(segments_view(self.nodes_ids@).skip(0) == segments_view(self.nodes_ids@));
        }
        it
    }

    /// The same segments, referring to `nodes` if `nodes` holds every node id
    /// that they name, and to the node store of before if not.
    pub(crate) fn rewired(&self, nodes: Arc<Nodes>, known: &HashSet<u32>) -> (r: Self)
        requires
            known@ == nodes.id_set(),
        ensures
            r.segments() == self.segments(),
            r.store() == (if segments_known(self.segments(), nodes.id_set()) {
                *nodes
            } else {
                self.store()
            }),
            self.store().id_set() == nodes.id_set() ==> r.store() == *nodes,
    {
        proof {
            use_type_invariant(self);
        }
        match validate_segments(BoundaryType::Open, &self.nodes_ids, known) {
            Ok(_) => OpenBoundaries { nodes, nodes_ids: clone_segments(&self.nodes_ids) },
            Err(e) => {
                assert(!all_known(self.segments()[e->segment as int], known@));
                self.clone()
            },
        }
    }
}

impl Clone for OpenBoundaries {
    /// A copy with the same segments, sharing the node store.
    fn clone(&self) -> (r: Self)
        ensures
            r.segments() == self.segments(),
            r.store() == self.store(),
    {
        proof {
            use_type_invariant(self);
        }
        OpenBoundaries { nodes: self.nodes.clone(), nodes_ids: clone_segments(&self.nodes_ids) }
    }
}

/// A walk over the open boundary segments, first to last.
pub struct OpenBoundariesIter<'a> {
    outer: &'a Vec<Vec<u32>>,
    current: usize,
}

impl<'a> OpenBoundariesIter<'a> {
    /// The segments that the walk has yet to hand out.
    pub closed spec fn remaining(&self) -> Seq<Seq<u32>> {
        if self.current <= self.outer@.len() {
            segments_view(self.outer@).skip(self.current as int)
        } else {
            Seq::empty()
        }
    }

    /// Hands out the next segment, or `None` when none is left.
    pub fn next(&mut self) -> (r: Option<&'a Vec<u32>>)
        ensures
            match r {
                Some(segment) => {
                    &&& old(self).remaining().len() > 0
                    &&& segment@ == old(self).remaining().first()
                    &&& final(self).remaining() == old(self).remaining().drop_first()
                },
                None => {
                    &&& old(self).remaining().len() == 0
                    &&& final(self).remaining().len() == 0
                },
            },
    {
        if self.current < self.outer.len() {
            let item = &self.outer[self.current];
            proof {
                let all = segments_view(self.outer@);
                assert(all.skip(self.current as int).drop_first() == all.skip(
                    self.current as int + 1,
                ));
            }
            self.current += 1;
            Some(item)
        } else {
            None
        }
    }
}

/// The land boundary segments of a mesh. Every node id of every segment is
/// held by the node store.
#[derive(Debug)]
pub struct LandBoundaries {
    nodes: Arc<Nodes>,
    nodes_ids: Vec<Vec<u32>>,
}

impl LandBoundaries {
    #[verifier::type_invariant]
    spec fn well_formed(self) -> bool {
        segments_known(segments_view(self.nodes_ids@), self.nodes.id_set())
    }

    /// The segments, each a list of node ids.
    pub closed spec fn segments(&self) -> Seq<Seq<u32>> {
        segments_view(self.nodes_ids@)
    }

    /// The node store that the segments refer to.
    pub closed spec fn store(&self) -> Nodes {
        *self.nodes
    }

    /// Makes the group of land boundary segments. It is refused exactly when
    /// a segment names a node id that `nodes` does not hold.
    pub fn new(nodes: Arc<Nodes>, nodes_ids: Vec<Vec<u32>>) -> (r: Result<Self, BoundariesError>)
        ensures
            match r {
                Ok(b) => {
                    &&& b.segments() == segments_view(nodes_ids@)
                    &&& b.store() == *nodes
                    &&& segments_known(segments_view(nodes_ids@), nodes.id_set())
                },
                Err(e) => is_segment_error(
                    BoundaryType::Land,
                    segments_view(nodes_ids@),
                    nodes.id_set(),
                    e,
                ),
            },
    {
        let known = nodes.known_ids();
        match validate_segments(BoundaryType::Land, &nodes_ids, &known) {
            Err(e) => Err(e),
            Ok(_) => Ok(LandBoundaries { nodes, nodes_ids }),
        }
    }

    /// The segments, each a list of node ids.
    pub fn nodes_ids(&self) -> (r: &Vec<Vec<u32>>)
        ensures
            segments_view(r@) == self.segments(),
            segments_known(self.segments(), self.store().id_set()),
    {
        proof {
            use_type_invariant(self);
        }
        &self.nodes_ids
    }

    /// The same segments, referring to `nodes` if `nodes` holds every node id
    /// that they name, and to the node store of before if not.
    pub(crate) fn rewired(&self, nodes: Arc<Nodes>, known: &HashSet<u32>) -> (r: Self)
        requires
            known@ == nodes.id_set(),
        ensures
            r.segments() == self.segments(),
            r.store() == (if segments_known(self.segments(), nodes.id_set()) {
                *nodes
            } else {
                self.store()
            }),
            self.store().id_set() == nodes.id_set() ==> r.store() == *nodes,
    {
        proof {
            use_type_invariant(self);
        }
        match validate_segments(BoundaryType::Land, &self.nodes_ids, known) {
            Ok(_) => LandBoundaries { nodes, nodes_ids: clone_segments(&self.nodes_ids) },
            Err(e) => {
                assert(!all_known(self.segments()[e->segment as int], known@));
                self.clone()
            },
        }
    }
}

impl Clone for LandBoundaries {
    /// A copy with the same segments, sharing the node store.
    fn clone(&self) -> (r: Self)
        ensures
            r.segments() == self.segments(),
            r.store() == self.store(),
    {
        proof {
            use_type_invariant(self);
        }
        LandBoundaries { nodes: self.nodes.clone(), nodes_ids: clone_segments(&self.nodes_ids) }
    }
}

/// The interior boundary segments of a mesh, around its islands. Every node
/// id of every segment is held by the node store.
#[derive(Debug)]
pub struct InteriorBoundaries {
    nodes: Arc<Nodes>,
    nodes_ids: Vec<Vec<u32>>,
}

impl InteriorBoundaries {
    #[verifier::type_invariant]
    spec fn well_formed(self) -> bool {
        segments_known(segments_view(self.nodes_ids@), self.nodes.id_set())
    }

    /// The segments, each a list of node ids.
    pub closed spec fn segments(&self) -> Seq<Seq<u32>> {
        segments_view(self.nodes_ids@)
    }

    /// The node store that the segments refer to.
    pub closed spec fn store(&self) -> Nodes {
        *self.nodes
    }

    /// Makes the group of interior boundary segments. It is refused exactly
    /// when a segment names a node id that `nodes` does not hold.
    pub fn new(nodes: Arc<Nodes>, nodes_ids: Vec<Vec<u32>>) -> (r: Result<Self, BoundariesError>)
        ensures
            match r {
                Ok(b) => {
                    &&& b.segments() == segments_view(nodes_ids@)
                    &&& b.store() == *nodes
                    &&& segments_known(segments_view(nodes_ids@), nodes.id_set())
                },
                Err(e) => is_segment_error(
                    BoundaryType::Interior,
                    segments_view(nodes_ids@),
                    nodes.id_set(),
                    e,
                ),
            },
    {
        let known = nodes.known_ids();
        match validate_segments(BoundaryType::Interior, &nodes_ids, &known) {
            Err(e) => Err(e),
            Ok(_) => Ok(InteriorBoundaries { nodes, nodes_ids }),
        }
    }

    /// The segments, each a list of node ids.
    pub fn nodes_ids(&self) -> (r: &Vec<Vec<u32>>)
        ensures
            segments_view(r@) == self.segments(),
            segments_known(self.segments(), self.store().id_set()),
    {
        proof {
            use_type_invariant(self);
        }
        &self.nodes_ids
    }

    /// The same segments, referring to `nodes` if `nodes` holds every node id
    /// that they name, and to the node store of before if not.
    pub(crate) fn rewired(&self, nodes: Arc<Nodes>, known: &HashSet<u32>) -> (r: Self)
        requires
            known@ == nodes.id_set(),
        ensures
            r.segments() == self.segments(),
            r.store() == (if segments_known(self.segments(), nodes.id_set()) {
                *nodes
            } else {
                self.store()
            }),
            self.store().id_set() == nodes.id_set() ==> r.store() == *nodes,
    {
        proof {
            use_type_invariant(self);
        }
        match validate_segments(BoundaryType::Interior, &self.nodes_ids, known) {
            Ok(_) => InteriorBoundaries { nodes, nodes_ids: clone_segments(&self.nodes_ids) },
            Err(e) => {
                assert(!all_known(self.segments()[e->segment as int], known@));
                self.clone()
            },
        }
    }
}

impl Clone for InteriorBoundaries {
    /// A copy with the same segments, sharing the node store.
    fn clone(&self) -> (r: Self)
        ensures
            r.segments() == self.segments(),
            r.store() == self.store(),
    {
        proof {
            use_type_invariant(self);
        }
        InteriorBoundaries {
            nodes: self.nodes.clone(),
            nodes_ids: clone_segments(&self.nodes_ids),
        }
    }
}

/// The groups that are present, in the order open, land, interior, each with
/// its segments.
pub open spec fn present_groups(
    open: Option<Seq<Seq<u32>>>,
    land: Option<Seq<Seq<u32>>>,
    interior: Option<Seq<Seq<u32>>>,
) -> Seq<(BoundaryType, Seq<Seq<u32>>)> {
    let first: Seq<(BoundaryType, Seq<Seq<u32>>)> = match open {
        Some(s) => seq![(BoundaryType::Open, s)],
        None => Seq::empty(),
    };
    let second: Seq<(BoundaryType, Seq<Seq<u32>>)> = match land {
        Some(s) => seq![(BoundaryType::Land, s)],
        None => Seq::empty(),
    };
    let third: Seq<(BoundaryType, Seq<Seq<u32>>)> = match interior {
        Some(s) => seq![(BoundaryType::Interior, s)],
        None => Seq::empty(),
    };
    first + second + third
}

/// What `to_boundary_type_map` has handed out, as a plain value.
pub open spec fn groups_view(groups: Seq<(BoundaryType, &Vec<Vec<u32>>)>) -> Seq<
    (BoundaryType, Seq<Seq<u32>>),
> {
    groups.map_values(|g: (BoundaryType, &Vec<Vec<u32>>)| (g.0, segments_view(g.1@)))
}

/// The declared boundaries of a mesh. Each of the three groups may be absent.
#[derive(Debug)]
pub struct Boundaries {
    open: Option<OpenBoundaries>,
    land: Option<LandBoundaries>,
    interior: Option<InteriorBoundaries>,
}

impl Boundaries {
    /// The open boundary segments, where the group is present.
    pub closed spec fn open_segments(&self) -> Option<Seq<Seq<u32>>> {
        match self.open {
            Some(b) => Some(b.segments()),
            None => None,
        }
    }

    /// The land boundary segments, where the group is present.
    pub closed spec fn land_segments(&self) -> Option<Seq<Seq<u32>>> {
        match self.land {
            Some(b) => Some(b.segments()),
            None => None,
        }
    }

    /// The interior boundary segments, where the group is present.
    pub closed spec fn interior_segments(&self) -> Option<Seq<Seq<u32>>> {
        match self.interior {
            Some(b) => Some(b.segments()),
            None => None,
        }
    }

    /// The node store that the open boundary segments refer to.
    pub closed spec fn open_store(&self) -> Option<Nodes> {
        match self.open {
            Some(b) => Some(b.store()),
            None => None,
        }
    }

    /// The node store that the land boundary segments refer to.
    pub closed spec fn land_store(&self) -> Option<Nodes> {
        match self.land {
            Some(b) => Some(b.store()),
            None => None,
        }
    }

    /// The node store that the interior boundary segments refer to.
    pub closed spec fn interior_store(&self) -> Option<Nodes> {
        match self.interior {
            Some(b) => Some(b.store()),
            None => None,
        }
    }

    /// Puts the three groups together.
    pub fn new(
        open: Option<OpenBoundaries>,
        land: Option<LandBoundaries>,
        interior: Option<InteriorBoundaries>,
    ) -> (r: Self)
        ensures
            r.open_segments() == (match open {
                Some(b) => Some(b.segments()),
                None => None,
            }),
            r.land_segments() == (match land {
                Some(b) => Some(b.segments()),
                None => None,
            }),
            r.interior_segments() == (match interior {
                Some(b) => Some(b.segments()),
                None => None,
            }),
            r.open_store() == (match open {
                Some(b) => Some(b.store()),
                None => None,
            }),
            r.land_store() == (match land {
                Some(b) => Some(b.store()),
                None => None,
            }),
            r.interior_store() == (match interior {
                Some(b) => Some(b.store()),
                None => None,
            }),
    {
        Boundaries { open, land, interior }
    }

    /// The open boundary segments, where the group is present.
    pub fn open(&self) -> (r: Option<&OpenBoundaries>)
        ensures
            match r {
                Some(b) => self.open_segments() == Some(b.segments()) && self.open_store() == Some(
                    b.store(),
                ),
                None => self.open_segments() is None && self.open_store() is None,
            },
    {
        self.open.as_ref()
    }

    /// The land boundary segments, where the group is present.
    pub fn land(&self) -> (r: Option<&LandBoundaries>)
        ensures
            match r {
                Some(b) => self.land_segments() == Some(b.segments()) && self.land_store() == Some(
                    b.store(),
                ),
                None => self.land_segments() is None && self.land_store() is None,
            },
    {
        self.land.as_ref()
    }

    /// The interior boundary segments, where the group is present.
    pub fn interior(&self) -> (r: Option<&InteriorBoundaries>)
        ensures
            match r {
                Some(b) => self.interior_segments() == Some(b.segments()) && self.interior_store()
                    == Some(b.store()),
                None => self.interior_segments() is None && self.interior_store() is None,
            },
    {
        self.interior.as_ref()
    }

    /// The groups that are present, in the order open, land, interior, each
    /// with its segments.
    pub fn to_boundary_type_map(&self) -> (r: Vec<(BoundaryType, &Vec<Vec<u32>>)>)
        ensures
            groups_view(r@) == present_groups(
                self.open_segments(),
                self.land_segments(),
                self.interior_segments(),
            ),
    {
        let mut out: Vec<(BoundaryType, &Vec<Vec<u32>>)> = Vec::new();
        if let Some(open_boundary) = &self.open {
            out.push((BoundaryType::Open, open_boundary.nodes_ids()));
        }
        if let Some(land_boundary) = &self.land {
            out.push((BoundaryType::Land, land_boundary.nodes_ids()));
        }
        if let Some(interior_boundary) = &self.interior {
            out.push((BoundaryType::Interior, interior_boundary.nodes_ids()));
        }
        assert(groups_view(out@) =~= present_groups(
            self.open_segments(),
            self.land_segments(),
            self.interior_segments(),
        ));
        out
    }
}

impl Boundaries {
    /// The same groups, each referring to `nodes` if `nodes` holds every node
    /// id that it names, and to its node store of before if not.
    pub(crate) fn rewired(&self, nodes: &Arc<Nodes>, known: &HashSet<u32>) -> (r: Self)
        requires
            known@ == nodes.id_set(),
        ensures
            r.open_segments() == self.open_segments(),
            r.land_segments() == self.land_segments(),
            r.interior_segments() == self.interior_segments(),
            self.open_store() is Some ==> r.open_store() == Some(
                if segments_known(self.open_segments()->0, nodes.id_set()) {
                    **nodes
                } else {
                    self.open_store()->0
                },
            ),
            self.land_store() is Some ==> r.land_store() == Some(
                if segments_known(self.land_segments()->0, nodes.id_set()) {
                    **nodes
                } else {
                    self.land_store()->0
                },
            ),
            self.interior_store() is Some ==> r.interior_store() == Some(
                if segments_known(self.interior_segments()->0, nodes.id_set()) {
                    **nodes
                } else {
                    self.interior_store()->0
                },
            ),
            self.open_store() is None ==> r.open_store() is None,
            self.land_store() is None ==> r.land_store() is None,
            self.interior_store() is None ==> r.interior_store() is None,
            self.open_store() is Some && self.open_store()->0.id_set() == nodes.id_set()
                ==> r.open_store() == Some(**nodes),
            self.land_store() is Some && self.land_store()->0.id_set() == nodes.id_set()
                ==> r.land_store() == Some(**nodes),
            self.interior_store() is Some && self.interior_store()->0.id_set() == nodes.id_set()
                ==> r.interior_store() == Some(**nodes),
    {
        let open = match &self.open {
            Some(b) => Some(b.rewired(nodes.clone(), known)),
            None => None,
        };
        let land = match &self.land {
            Some(b) => Some(b.rewired(nodes.clone(), known)),
            None => None,
        };
        let interior = match &self.interior {
            Some(b) => Some(b.rewired(nodes.clone(), known)),
            None => None,
        };
        Boundaries { open, land, interior }
    }
}

impl Boundaries {
    /// Makes the declared boundaries of three optional lists of segments. A
    /// list that is absent or empty gives no group. The lists are checked in
    /// the order open, land, interior, and the first that names a node id
    /// which `nodes` does not hold gives the error.
    pub fn from_segments(
        nodes: &Arc<Nodes>,
        open: Option<Vec<Vec<u32>>>,
        land: Option<Vec<Vec<u32>>>,
        interior: Option<Vec<Vec<u32>>>,
    ) -> (r: Result<Self, BoundariesError>)
        ensures
            match r {
                Ok(b) => {
                    &&& b.open_segments() == nonempty_group(optional_segments_view(open))
                    &&& b.land_segments() == nonempty_group(optional_segments_view(land))
                    &&& b.interior_segments() == nonempty_group(optional_segments_view(interior))
                    &&& b.open_store() is Some ==> b.open_store() == Some(**nodes)
                    &&& b.land_store() is Some ==> b.land_store() == Some(**nodes)
                    &&& b.interior_store() is Some ==> b.interior_store() == Some(**nodes)
                    &&& b.open_store() is Some <==> b.open_segments() is Some
                    &&& b.land_store() is Some <==> b.land_segments() is Some
                    &&& b.interior_store() is Some <==> b.interior_segments() is Some
                    &&& segments_known(
                        group_or_empty(optional_segments_view(open)),
                        nodes.id_set(),
                    )
                    &&& segments_known(
                        group_or_empty(optional_segments_view(land)),
                        nodes.id_set(),
                    )
                    &&& segments_known(
                        group_or_empty(optional_segments_view(interior)),
                        nodes.id_set(),
                    )
                },
                Err(e) => is_boundaries_error(
                    group_or_empty(optional_segments_view(open)),
                    group_or_empty(optional_segments_view(land)),
                    group_or_empty(optional_segments_view(interior)),
                    nodes.id_set(),
                    e,
                ),
            },
    {
        let open_group = match open {
            Some(segments) => {
                if segments.len() > 0 {
                    match OpenBoundaries::new(nodes.clone(), segments) {
                        Ok(b) => Some(b),
                        Err(e) => { return Err(e); },
                    }
                } else {
                    None
                }
            },
            None => None,
        };
        let land_group = match land {
            Some(segments) => {
                if segments.len() > 0 {
                    match LandBoundaries::new(nodes.clone(), segments) {
                        Ok(b) => Some(b),
                        Err(e) => { return Err(e); },
                    }
                } else {
                    None
                }
            },
            None => None,
        };
        let interior_group = match interior {
            Some(segments) => {
                if segments.len() > 0 {
                    match InteriorBoundaries::new(nodes.clone(), segments) {
                        Ok(b) => Some(b),
                        Err(e) => { return Err(e); },
                    }
                } else {
                    None
                }
            },
            None => None,
        };
        Ok(Boundaries { open: open_group, land: land_group, interior: interior_group })
    }
}

impl Clone for Boundaries {
    /// A copy with the same groups, sharing the node stores.
    fn clone(&self) -> (r: Self)
        ensures
            r.open_segments() == self.open_segments(),
            r.land_segments() == self.land_segments(),
            r.interior_segments() == self.interior_segments(),
            r.open_store() == self.open_store(),
            r.land_store() == self.land_store(),
            r.interior_store() == self.interior_store(),
    {
        let open = match &self.open {
            Some(b) => Some(b.clone()),
            None => None,
        };
        let land = match &self.land {
            Some(b) => Some(b.clone()),
            None => None,
        };
        let interior = match &self.interior {
            Some(b) => Some(b.clone()),
            None => None,
        };
        Boundaries { open, land, interior }
    }
}

} // verus!
