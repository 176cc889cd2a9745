//! Chaining of boundary edges into rings.
//!
//! An edge is a pair of node ids, directed from the first to the second. A
//! ring is a sequence of edges in which each edge starts where the one before
//! it ends. `rings_of` says which rings a list of edges gives; `edges_to_rings`
//! computes them.

use vstd::prelude::*;

verus! {

/// A directed edge between two nodes, given by their ids.
pub type Edge = (u32, u32);

/// The edge in the opposite direction.
pub open spec fn reversed(e: Edge) -> Edge {
    (e.1, e.0)
}

/// Whether the edge has `node` as one of its two ends.
pub open spec fn touches(e: Edge, node: u32) -> bool {
    e.0 == node || e.1 == node
}

/// The edge, turned if need be so that it starts at `node`.
pub open spec fn oriented_from(e: Edge, node: u32) -> Edge {
    if e.0 == node {
        e
    } else {
        reversed(e)
    }
}

/// The edge, turned if need be so that it ends at `node`.
pub open spec fn oriented_to(e: Edge, node: u32) -> Edge {
    if e.1 == node {
        e
    } else {
        reversed(e)
    }
}

/// A ring is closed when it has more than one edge and ends where it starts.
pub open spec fn ring_closed(ring: Seq<Edge>) -> bool {
    ring.len() > 1 && ring.first().0 == ring.last().1
}

/// The position of the first edge that touches `node`, or the number of
/// edges where none does.
pub open spec fn first_touching(edges: Seq<Edge>, node: u32) -> nat
    decreases edges.len(),
{
    if edges.len() == 0 {
        0
    } else if touches(edges.first(), node) {
        0
    } else {
        1 + first_touching(edges.drop_first(), node)
    }
}

/// The rings that come of the rings already `done`, the `ring` under
/// construction and the edges not yet used.
///
/// An open ring is extended at its end by the first unused edge that touches
/// its last node; where there is none, at its start by the first unused edge
/// that touches its first node. A ring that is closed, or that no unused edge
/// touches at either end, is finished, and the last unused edge starts the
/// next one.
pub open spec fn chain_rings(done: Seq<Seq<Edge>>, ring: Seq<Edge>, rest: Seq<Edge>) -> Seq<
    Seq<Edge>,
>
    decreases rest.len(),
{
    let end = ring.last().1;
    let start = ring.first().0;
    let at_end = first_touching(rest, end) as int;
    let at_start = first_touching(rest, start) as int;
    if rest.len() == 0 {
        done.push(ring)
    } else if !ring_closed(ring) && at_end < rest.len() {
        chain_rings(done, ring.push(oriented_from(rest[at_end], end)), rest.remove(at_end))
    } else if !ring_closed(ring) && at_start < rest.len() {
        chain_rings(
            done,
            seq![oriented_to(rest[at_start], start)] + ring,
            rest.remove(at_start),
        )
    } else {
        chain_rings(done.push(ring), seq![rest.last()], rest.drop_last())
    }
}

/// The rings that a list of edges gives. The last edge of the list starts the
/// first ring.
pub open spec fn rings_of(edges: Seq<Edge>) -> Seq<Seq<Edge>> {
    if edges.len() == 0 {
        Seq::empty()
    } else {
        chain_rings(Seq::empty(), seq![edges.last()], edges.drop_last())
    }
}

/// A list of rings as a plain value.
pub open spec fn rings_view(rings: Seq<Vec<Edge>>) -> Seq<Seq<Edge>> {
    rings.map_values(|ring: Vec<Edge>| ring@)
}

/// `first_touching` is the least position of an edge that touches the node.
pub proof fn lemma_first_touching(edges: Seq<Edge>, node: u32, i: int)
    requires
        0 <= i <= edges.len(),
        forall|j: int| 0 <= j < i ==> !touches(#[trigger] edges[j], node),
        i < edges.len() ==> touches(edges[i], node),
    ensures
        first_touching(edges, node) == i,
    decreases i,
{
    if i > 0 {
        let tail = edges.drop_first();
        assert(!touches(edges[0], node));
        assert forall|j: int| 0 <= j < i - 1 implies !touches(#[trigger] tail[j], node) by {
            assert(tail[j] == edges[j + 1]);
        }
        lemma_first_touching(tail, node, i - 1);
    }
}

/// Finds the first edge that touches `node`.
fn find_touching(edges: &Vec<Edge>, node: u32) -> (i: usize)
    ensures
        i == first_touching(edges@, node),
        i <= edges.len(),
{
    let mut i: usize = 0;
    while i < edges.len()
        invariant
            i <= edges.len(),
            forall|j: int| 0 <= j < i ==> !touches(#[trigger] edges@[j], node),
        decreases edges.len() - i,
    {
        let e = edges[i];
        if e.0 == node || e.1 == node {
            proof {
                lemma_first_touching(edges@, node, i as int);
            }
            return i;
        }
        i += 1;
    }
    proof {
        lemma_first_touching(edges@, node, i as int);
    }
    i
}

/// Chains unordered edges into rings.
///
/// The last edge starts the first ring. A ring grows at its end, or else at
/// its start, by the first remaining edge that touches that end, turned so
/// that the ring stays connected. It is finished when it closes or when no
/// remaining edge touches either end; an open ring is kept as it is.
pub fn edges_to_rings(edges: Vec<Edge>) -> (rings: Vec<Vec<Edge>>)
    ensures
        rings_view(rings@) == rings_of(edges@),
{
    let ghost target = rings_of(edges@);
    let mut edges = edges;
    let mut rings: Vec<Vec<Edge>> = Vec::new();
    assert(rings_view(rings@) == Seq::<Seq<Edge>>::empty());
    while edges.len() > 0
        invariant
            target == (if edges@.len() == 0 {
                rings_view(rings@)
            } else {
                chain_rings(rings_view(rings@), seq![edges@.last()], edges@.drop_last())
            }),
        decreases edges.len(),
    {
        let ghost unused = edges@.len();
        let seed = edges.pop().unwrap();
        let mut ring: Vec<Edge> = Vec::new();
        ring.push(seed);
        assert(ring@ == seq![seed]);
        loop
            invariant
                ring.len() > 0,
                edges@.len() < unused,
                target == chain_rings(rings_view(rings@), ring@, edges@),
            ensures
                ring.len() > 0,
                edges@.len() < unused,
                target == (if edges@.len() == 0 {
                    rings_view(rings@).push(ring@)
                } else {
                    chain_rings(
                        rings_view(rings@).push(ring@),
                        seq![edges@.last()],
                        edges@.drop_last(),
                    )
                }),
            decreases edges.len(),
        {
            let ring_start = ring[0].0;
            let ring_end = ring[ring.len() - 1].1;
            if ring_start == ring_end && ring.len() > 1 {
                break ;
            }
            let at_end = find_touching(&edges, ring_end);
            if at_end < edges.len() {
                let e = edges.remove(at_end);
                if e.0 == ring_end {
                    ring.push(e);
                } else {
                    ring.push((e.1, e.0));
                }
                continue ;
            }
            let at_start = find_touching(&edges, ring_start);
            if at_start < edges.len() {
                let e = edges.remove(at_start);
                let ghost before = ring@;
                if e.1 == ring_start {
                    ring.insert(0, e);
                } else {
                    ring.insert(0, (e.1, e.0));
                }
                assert(ring@ == seq![oriented_to(e, ring_start)] + before);
                continue ;
            }
            break ;
        }
        let ghost done = rings_view(rings@);
        rings.push(ring);
        assert(rings_view(rings@) == done.push(ring@));
    }
    rings
}

} // verus!
