//! The boundary of a mesh as a polygon: the rings that the boundary edges
//! form, the nodes on them, and every ring edge as a pair of positions in the
//! list of those nodes.

use crate::arrays::{index_array_from_shape_vec, index_rows, nonzero_size, rows_of, IndexArray};
use crate::edges::{boundary_edges, claims_of, collect_claims, find_boundary};
use crate::hgrid::Hgrid;
use crate::rings::{edges_to_rings, rings_of, rings_view, Edge};
use std::collections::HashMap;
use vstd::prelude::*;
use vstd::std_specs::hash::group_hash_axioms;

verus! {

/// The edges of all rings, ring after ring.
pub open spec fn flat_edges(rings: Seq<Seq<Edge>>) -> Seq<Edge>
    decreases rings.len(),
{
    if rings.len() == 0 {
        Seq::empty()
    } else {
        flat_edges(rings.drop_last()) + rings.last()
    }
}

/// The ids of `ids` without repetition, each where it occurs first.
pub open spec fn first_occurrences(ids: Seq<u32>) -> Seq<u32>
    decreases ids.len(),
{
    if ids.len() == 0 {
        Seq::empty()
    } else {
        let head = first_occurrences(ids.drop_last());
        if head.contains(ids.last()) {
            head
        } else {
            head.push(ids.last())
        }
    }
}

/// The start nodes of the edges, followed by their end nodes.
pub open spec fn end_nodes(edges: Seq<Edge>) -> Seq<u32> {
    edges.map_values(|e: Edge| e.0) + edges.map_values(|e: Edge| e.1)
}

/// The nodes of a polygon: the start nodes of its edges in order, then the
/// end nodes that start no edge, each node once.
pub open spec fn polygon_nodes(edges: Seq<Edge>) -> Seq<u32> {
    first_occurrences(end_nodes(edges))
}

/// The edges as rows of two positions in the list `nodes`.
pub open spec fn indexed_edges(edges: Seq<Edge>, nodes: Seq<u32>) -> Seq<Seq<usize>> {
    Seq::new(
        edges.len(),
        |k: int| seq![nodes.index_of(edges[k].0) as usize, nodes.index_of(edges[k].1) as usize],
    )
}

/// The boundary of a mesh, ready for a point-in-polygon test.
#[derive(Debug)]
pub struct BoundaryPolygon {
    /// The ids of the nodes on the boundary, each once.
    pub node_ids: Vec<u32>,
    /// One row for every boundary edge: the positions in `node_ids` of the
    /// node where it starts and of the node where it ends.
    pub edges: IndexArray,
}

/// Why a boundary polygon could not be made.
#[derive(Debug, Clone, Copy, PartialEq, Eq, Structural)]
pub enum BoundaryPolygonError {
    /// The edges are too many for an array of pairs.
    TooManyEdges,
}

/// `polygon` is the polygon of these edges.
pub open spec fn is_polygon_of(edges: Seq<Edge>, polygon: BoundaryPolygon) -> bool {
    &&& polygon.node_ids@ == polygon_nodes(edges)
    &&& index_rows(polygon.edges) == indexed_edges(edges, polygon_nodes(edges))
}

/// The list of first occurrences holds an id exactly when the list holds it,
/// and holds no id twice.
pub proof fn lemma_first_occurrences(ids: Seq<u32>)
    ensures
        first_occurrences(ids).no_duplicates(),
        forall|id: u32| first_occurrences(ids).contains(id) <==> ids.contains(id),
    decreases ids.len(),
{
    if ids.len() > 0 {
        let head_ids = ids.drop_last();
        let head = first_occurrences(head_ids);
        lemma_first_occurrences(head_ids);
        let last = ids.last();
        assert forall|id: u32| first_occurrences(ids).contains(id) <==> ids.contains(id) by {
            if ids.contains(id) {
                let i = choose|i: int| 0 <= i < ids.len() && ids[i] == id;
                if i < ids.len() - 1 {
                    assert(head_ids[i] == id);
                    assert(head_ids.contains(id));
                    assert(head.contains(id));
                    let j = choose|j: int| 0 <= j < head.len() && head[j] == id;
                    assert(first_occurrences(ids)[j] == id);
                } else {
                    if head.contains(last) {
                    } else {
                        assert(first_occurrences(ids)[head.len() as int] == id);
                    }
                }
            }
            if first_occurrences(ids).contains(id) {
                let j = choose|j: int|
                    0 <= j < first_occurrences(ids).len() && first_occurrences(ids)[j] == id;
                if j < head.len() {
                    assert(head[j] == id);
                    assert(head_ids.contains(id));
                    let i = choose|i: int| 0 <= i < head_ids.len() && head_ids[i] == id;
                    assert(ids[i] == id);
                } else {
                    assert(ids[ids.len() - 1] == id);
                }
            }
        }
    }
}

/// Lists the edges of all rings, ring after ring.
pub fn flatten_rings(rings: &Vec<Vec<Edge>>) -> (r: Vec<Edge>)
    ensures
        r@ == flat_edges(rings_view(rings@)),
{
    let ghost all = rings_view(rings@);
    let mut out: Vec<Edge> = Vec::new();
    let mut k: usize = 0;
    while k < rings.len()
        invariant
            k <= rings.len(),
            all == rings_view(rings@),
            out@ == flat_edges(all.take(k as int)),
        decreases rings.len() - k,
    {
        let ring = &rings[k];
        let ghost before = out@;
        let mut i: usize = 0;
        while i < ring.len()
            invariant
                i <= ring.len(),
                out@ == before + ring@.take(i as int),
            decreases ring.len() - i,
        {
            out.push(ring[i]);
            assert(ring@.take(i + 1) == ring@.take(i as int).push(ring@[i as int]));
            i += 1;
        }
        proof {
            assert(ring@.take(ring@.len() as int) == ring@);
            let prefix = all.take(k + 1);
            assert(prefix.drop_last() == all.take(k as int));
            assert(prefix.last() == ring@);
        }
        k += 1;
    }
    assert(all.take(k as int) == all);
    out
}

/// Numbers the nodes of the edges and writes every edge as a pair of those
/// numbers.
///
/// The nodes are numbered in the order in which they start an edge; a node
/// that only ends edges is numbered after all of those.
pub fn build_inpoly_arrays(edges: &Vec<Edge>) -> (r: Result<BoundaryPolygon, BoundaryPolygonError>)
    ensures
        r is Ok <==> nonzero_size(edges.len(), 2) <= isize::MAX,
        r matches Ok(polygon) ==> is_polygon_of(edges@, polygon),
{
    broadcast use group_hash_axioms;

    let n = edges.len();
    let ghost ends = end_nodes(edges@);
    let mut all_nodes: Vec<u32> = Vec::new();
    let mut node_to_idx: HashMap<u32, usize> = HashMap::new();
    let mut pass: usize = 0;
    assert(ends.take(0) == Seq::<u32>::empty());
    while pass < 2
        invariant
            pass <= 2,
            n == edges.len(),
            ends == end_nodes(edges@),
            ends.len() == 2 * n,
            all_nodes@ == first_occurrences(ends.take(pass * n)),
            forall|id: u32| node_to_idx@.contains_key(id) <==> all_nodes@.contains(id),
            forall|id: u32| #[trigger]
                node_to_idx@.contains_key(id) ==> node_to_idx@[id] < all_nodes@.len()
                    && all_nodes@[node_to_idx@[id] as int] == id,
        decreases 2 - pass,
    {
        let mut k: usize = 0;
        while k < n
            invariant
                k <= n,
                pass < 2,
                n == edges.len(),
                ends == end_nodes(edges@),
                ends.len() == 2 * n,
                all_nodes@ == first_occurrences(ends.take(pass * n + k)),
                forall|id: u32| node_to_idx@.contains_key(id) <==> all_nodes@.contains(id),
                forall|id: u32| #[trigger]
                    node_to_idx@.contains_key(id) ==> node_to_idx@[id] < all_nodes@.len()
                        && all_nodes@[node_to_idx@[id] as int] == id,
            decreases n - k,
        {
            let id = if pass == 0 {
                edges[k].0
            } else {
                edges[k].1
            };
            let ghost seen = ends.take(pass * n + k);
            let ghost before = all_nodes@;
            proof {
                assert(ends[pass * n + k] == id);
                let next = ends.take(pass * n + k + 1);
                assert(next.drop_last() == seen);
                assert(next.last() == id);
            }
            if !node_to_idx.contains_key(&id) {
                let position = all_nodes.len();
                node_to_idx.insert(id, position);
                all_nodes.push(id);
                proof {
                    assert forall|other: u32|
                        node_to_idx@.contains_key(other) <==> all_nodes@.contains(other) by {
                        if before.contains(other) {
                            let j = choose|j: int| 0 <= j < before.len() && before[j] == other;
                            assert(all_nodes@[j] == other);
                        }
                        if other == id {
                            assert(all_nodes@[position as int] == id);
                        }
                        if all_nodes@.contains(other) && other != id {
                            let j = choose|j: int|
                                0 <= j < all_nodes@.len() && all_nodes@[j] == other;
                            assert(before[j] == other);
                        }
                    }
                }
            }
            k += 1;
        }
        pass += 1;
        assert(ends.take((pass - 1) * n + n) == ends.take(pass * n)) by (nonlinear_arith)
            requires
                pass >= 1,
        {
        }
    }
    assert(ends.take(2 * n) == ends);
    let ghost nodes = polygon_nodes(edges@);
    proof {
        lemma_first_occurrences(ends);
    }
    let mut edges_data: Vec<usize> = Vec::new();
    let mut k: usize = 0;
    while k < n
        invariant
            k <= n,
            n == edges.len(),
            ends == end_nodes(edges@),
            ends.len() == 2 * n,
            nodes == polygon_nodes(edges@),
            all_nodes@ == nodes,
            nodes.no_duplicates(),
            forall|id: u32| nodes.contains(id) <==> ends.contains(id),
            forall|id: u32| node_to_idx@.contains_key(id) <==> all_nodes@.contains(id),
            forall|id: u32| #[trigger]
                node_to_idx@.contains_key(id) ==> node_to_idx@[id] < all_nodes@.len()
                    && all_nodes@[node_to_idx@[id] as int] == id,
            edges_data@.len() == 2 * k,
            forall|j: int|
                0 <= j < k ==> edges_data@[2 * j] == nodes.index_of(edges@[j].0) as usize
                    && edges_data@[2 * j + 1] == nodes.index_of(edges@[j].1) as usize,
        decreases n - k,
    {
        let a = edges[k].0;
        let b = edges[k].1;
        proof {
            assert(ends[k as int] == a);
            assert(ends[n + k] == b);
            assert(nodes.contains(a));
            assert(nodes.contains(b));
            let pa = node_to_idx@[a] as int;
            let pb = node_to_idx@[b] as int;
            let ia = nodes.index_of(a);
            let ib = nodes.index_of(b);
            assert(0 <= ia < nodes.len() && nodes[ia] == a);
            assert(0 <= ib < nodes.len() && nodes[ib] == b);
            assert(pa == ia);
            assert(pb == ib);
        }
        let ia = match node_to_idx.get(&a) {
            Some(i) => *i,
            None => 0,
        };
        let ib = match node_to_idx.get(&b) {
            Some(i) => *i,
            None => 0,
        };
        edges_data.push(ia);
        edges_data.push(ib);
        k += 1;
    }
    match index_array_from_shape_vec(n, 2, edges_data) {
        Ok(array) => {
            proof {
                let want = indexed_edges(edges@, nodes);
                let got = rows_of(edges_data@, n, 2);
                assert forall|i: int| 0 <= i < n implies got[i] =~= want[i] by {
                    assert(got[i][0] == edges_data@[i * 2 + 0]);
                    assert(got[i][1] == edges_data@[i * 2 + 1]);
                }
                assert(got =~= want);
            }
            Ok(BoundaryPolygon { node_ids: all_nodes, edges: array })
        },
        Err(_) => Err(BoundaryPolygonError::TooManyEdges),
    }
}

impl Hgrid {
    /// The edges that exactly one element claims, each with its smaller node
    /// id first, in the order in which the elements claim them.
    pub fn find_boundary_edges(&self) -> (r: Vec<Edge>)
        ensures
            r@ == boundary_edges(claims_of(self.elements_view().entries())),
    {
        let items = self.elements().items();
        let claims = collect_claims(&items);
        find_boundary(&claims)
    }

    /// The boundary of the mesh as a polygon: its boundary edges are chained
    /// into rings, and the edges of the rings are written over the nodes on
    /// them. A mesh without elements has the empty polygon.
    pub fn boundary_polygon(&self) -> (r: Result<BoundaryPolygon, BoundaryPolygonError>)
        ensures
            r is Ok <==> nonzero_size(
                flat_edges(
                    rings_of(boundary_edges(claims_of(self.elements_view().entries()))),
                ).len() as usize,
                2,
            ) <= isize::MAX,
            r matches Ok(polygon) ==> is_polygon_of(
                flat_edges(rings_of(boundary_edges(claims_of(self.elements_view().entries())))),
                polygon,
            ),
    {
        let boundary = self.find_boundary_edges();
        let rings = edges_to_rings(boundary);
        let flat = flatten_rings(&rings);
        build_inpoly_arrays(&flat)
    }
}

} // verus!
