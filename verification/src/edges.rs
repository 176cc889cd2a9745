//! The edges of the elements: which of them lie on the boundary of the mesh,
//! and which are walked in the same direction by two elements.
//!
//! Every element walks its nodes in a cycle, and so claims one directed edge
//! for each of its nodes. Two claims are of the same edge when they join the
//! same two nodes, in whatever direction.

use crate::linked_map::element_items_view;
use crate::rings::Edge;
use std::collections::HashMap;
use vstd::prelude::*;
use vstd::std_specs::hash::group_hash_axioms;

verus! {

/// An element's claim of an edge: the element's id and the edge as the
/// element walks it.
pub type Claim = (u32, Edge);

/// The edge with its smaller node id first.
pub open spec fn canonical(e: Edge) -> Edge {
    if e.0 < e.1 {
        e
    } else {
        (e.1, e.0)
    }
}

/// Whether the edge runs from its smaller node id to its larger one.
pub open spec fn is_forward(e: Edge) -> bool {
    e.0 < e.1
}

/// The claims of one element, in the order of its nodes: from each node to
/// the next, and from the last back to the first.
pub open spec fn element_claims(id: u32, node_ids: Seq<u32>) -> Seq<Claim> {
    Seq::new(
        node_ids.len(),
        |i: int| (id, (node_ids[i], node_ids[(i + 1) % (node_ids.len() as int)])),
    )
}

/// The claims of all elements, element after element.
pub open spec fn claims_of(entries: Seq<(u32, Seq<u32>)>) -> Seq<Claim>
    decreases entries.len(),
{
    if entries.len() == 0 {
        Seq::empty()
    } else {
        claims_of(entries.drop_last()) + element_claims(entries.last().0, entries.last().1)
    }
}

/// How many of the first `n` claims are of the edge `edge`, given with its
/// smaller node id first.
pub open spec fn occurrences(claims: Seq<Claim>, edge: Edge, n: int) -> nat
    decreases n,
{
    if n <= 0 {
        0
    } else {
        occurrences(claims, edge, n - 1) + if canonical(claims[n - 1].1) == edge {
            1nat
        } else {
            0nat
        }
    }
}

/// An edge lies on the boundary when exactly one claim is of it.
pub open spec fn on_boundary(claims: Seq<Claim>, edge: Edge) -> bool {
    occurrences(claims, edge, claims.len() as int) == 1
}

/// The edges of all claims, each with its smaller node id first.
pub open spec fn canonical_edges(claims: Seq<Claim>) -> Seq<Edge> {
    claims.map_values(|c: Claim| canonical(c.1))
}

/// The boundary edges, each with its smaller node id first, in the order in
/// which the elements claim them.
pub open spec fn boundary_edges(claims: Seq<Claim>) -> Seq<Edge> {
    canonical_edges(claims).filter(|e: Edge| on_boundary(claims, e))
}

/// The position of the first claim of the edge `edge`, or the number of
/// claims where there is none.
pub open spec fn first_claim(claims: Seq<Claim>, edge: Edge) -> nat
    decreases claims.len(),
{
    if claims.len() == 0 {
        0
    } else if canonical(claims.first().1) == edge {
        0
    } else {
        1 + first_claim(claims.drop_first(), edge)
    }
}

/// The claim at `j` is in conflict with the first claim of the same edge: it
/// is a later claim and walks the edge in the same direction.
pub open spec fn conflict_at(claims: Seq<Claim>, j: int) -> bool {
    let i = first_claim(claims, canonical(claims[j].1)) as int;
    i < j && is_forward(claims[i].1) == is_forward(claims[j].1)
}

/// The two elements of the conflict at `j`: the one that claimed the edge
/// first, and the one that claims it at `j`.
pub open spec fn conflict_pair(claims: Seq<Claim>, j: int) -> (u32, u32) {
    (claims[first_claim(claims, canonical(claims[j].1)) as int].0, claims[j].0)
}

/// The conflicts among the first `n` claims, in the order of the later claim.
pub open spec fn conflicts_upto(claims: Seq<Claim>, n: int) -> Seq<(u32, u32)>
    decreases n,
{
    if n <= 0 {
        Seq::empty()
    } else if conflict_at(claims, n - 1) {
        conflicts_upto(claims, n - 1).push(conflict_pair(claims, n - 1))
    } else {
        conflicts_upto(claims, n - 1)
    }
}

/// The pairs of elements that walk a common edge in the same direction.
pub open spec fn orientation_conflicts(claims: Seq<Claim>) -> Seq<(u32, u32)> {
    conflicts_upto(claims, claims.len() as int)
}

/// One number for an edge: different edges have different numbers.
pub open spec fn edge_code(e: Edge) -> u64 {
    (e.0 as u64 * 0x1_0000_0000 + e.1 as u64) as u64
}

/// What `first_claim` gives is the least position of a claim of the edge.
pub proof fn lemma_first_claim_is_least(claims: Seq<Claim>, edge: Edge)
    ensures
        first_claim(claims, edge) <= claims.len(),
        first_claim(claims, edge) < claims.len() ==> canonical(
            claims[first_claim(claims, edge) as int].1,
        ) == edge,
        forall|j: int|
            0 <= j < first_claim(claims, edge) ==> canonical((#[trigger] claims[j]).1) != edge,
    decreases claims.len(),
{
    if claims.len() > 0 && canonical(claims.first().1) != edge {
        let tail = claims.drop_first();
        lemma_first_claim_is_least(tail, edge);
        let k = first_claim(tail, edge);
        assert forall|j: int| 0 <= j < k + 1 implies canonical((#[trigger] claims[j]).1)
            != edge by {
            if j > 0 {
                assert(tail[j - 1] == claims[j]);
            }
        }
        if k < tail.len() {
            assert(tail[k as int] == claims[k as int + 1]);
        }
    }
}

/// The number of an edge.
fn code_of(e: Edge) -> (r: u64)
    ensures
        r == edge_code(e),
{
    e.0 as u64 * 0x1_0000_0000 + e.1 as u64
}

/// The edge with its smaller node id first.
fn canonical_of(e: Edge) -> (r: Edge)
    ensures
        r == canonical(e),
{
    if e.0 < e.1 {
        e
    } else {
        (e.1, e.0)
    }
}

/// Lists the claims of all elements, element after element.
pub fn collect_claims(items: &Vec<(u32, &Vec<u32>)>) -> (r: Vec<Claim>)
    ensures
        r@ == claims_of(element_items_view(items@)),
{
    let ghost entries = element_items_view(items@);
    let mut out: Vec<Claim> = Vec::new();
    let mut k: usize = 0;
    while k < items.len()
        invariant
            k <= items.len(),
            entries == element_items_view(items@),
            out@ == claims_of(entries.take(k as int)),
        decreases items.len() - k,
    {
        let id = items[k].0;
        let node_ids = items[k].1;
        let n = node_ids.len();
        let ghost before = out@;
        let ghost own = element_claims(id, node_ids@);
        let mut i: usize = 0;
        while i < n
            invariant
                i <= n,
                n == node_ids.len(),
                own == element_claims(id, node_ids@),
                out@ == before + own.take(i as int),
            decreases n - i,
        {
            let a = node_ids[i];
            let b = node_ids[(i + 1) % n];
            out.push((id, (a, b)));
            assert(own.take(i + 1) == own.take(i as int).push(own[i as int]));
            i += 1;
        }
        proof {
            assert(own.take(n as int) == own);
            let prefix = entries.take(k + 1);
            assert(prefix.drop_last() == entries.take(k as int));
            assert(prefix.last() == entries[k as int]);
        }
        k += 1;
    }
    assert(entries.take(k as int) == entries);
    out
}

/// Finds the edges that exactly one element claims.
///
/// The edges come with their smaller node id first, in the order in which
/// the elements claim them.
pub fn find_boundary(claims: &Vec<Claim>) -> (r: Vec<Edge>)
    ensures
        r@ == boundary_edges(claims@),
{
    broadcast use group_hash_axioms;

    let mut seen: HashMap<u64, bool> = HashMap::new();
    let mut n: usize = 0;
    while n < claims.len()
        invariant
            n <= claims.len(),
            forall|e: Edge|
                seen@.contains_key(edge_code(e)) <==> #[trigger] occurrences(claims@, e, n as int)
                    > 0,
            forall|e: Edge|
                #[trigger] occurrences(claims@, e, n as int) > 0 ==> (seen@[edge_code(e)] <==> (
                occurrences(claims@, e, n as int) > 1)),
        decreases claims.len() - n,
    {
        let edge = canonical_of(claims[n].1);
        let code = code_of(edge);
        let shared = seen.contains_key(&code);
        seen.insert(code, shared);
        proof {
            assert forall|e: Edge|
                seen@.contains_key(edge_code(e)) <==> #[trigger] occurrences(
                    claims@,
                    e,
                    n as int + 1,
                ) > 0 by {
                assert(occurrences(claims@, e, n as int) >= 0);
                if e != edge {
                    assert(edge_code(e) != code);
                }
            }
            assert forall|e: Edge| #[trigger]
                occurrences(claims@, e, n as int + 1) > 0 implies (seen@[edge_code(e)] <==> (
            occurrences(claims@, e, n as int + 1) > 1)) by {
                assert(occurrences(claims@, e, n as int) >= 0);
                if e != edge {
                    assert(edge_code(e) != code);
                }
            }
        }
        n += 1;
    }
    let ghost edges = canonical_edges(claims@);
    let ghost single = |e: Edge| on_boundary(claims@, e);
    let mut out: Vec<Edge> = Vec::new();
    let mut j: usize = 0;
    assert(edges.take(0).filter(single) == Seq::<Edge>::empty()) by {
        reveal(Seq::filter);
    }
    while j < claims.len()
        invariant
            j <= claims.len(),
            n == claims.len(),
            edges == canonical_edges(claims@),
            single == |e: Edge| on_boundary(claims@, e),
            forall|e: Edge|
                seen@.contains_key(edge_code(e)) <==> #[trigger] occurrences(claims@, e, n as int)
                    > 0,
            forall|e: Edge|
                #[trigger] occurrences(claims@, e, n as int) > 0 ==> (seen@[edge_code(e)] <==> (
                occurrences(claims@, e, n as int) > 1)),
            out@ == edges.take(j as int).filter(single),
        decreases claims.len() - j,
    {
        let edge = canonical_of(claims[j].1);
        let code = code_of(edge);
        proof {
            assert(edges.take(j + 1) == edges.take(j as int).push(edge));
            edges.take(j as int).lemma_filter_push(edge, single);
            lemma_occurs(claims@, j as int, claims@.len() as int);
        }
        match seen.get(&code) {
            Some(shared) => {
                if !*shared {
                    out.push(edge);
                }
            },
            None => {},
        }
        j += 1;
    }
    assert(edges.take(j as int) == edges);
    out
}

/// A claim among the first `n` counts among the occurrences of its edge.
pub proof fn lemma_occurs(claims: Seq<Claim>, j: int, n: int)
    requires
        0 <= j < n <= claims.len(),
    ensures
        occurrences(claims, canonical(claims[j].1), n) > 0,
    decreases n,
{
    if j < n - 1 {
        lemma_occurs(claims, j, n - 1);
    }
}

/// Finds the pairs of elements that walk a common edge in the same
/// direction.
///
/// The element that claims an edge first is remembered with the direction in
/// which it walks the edge. Every later claim of the edge is held against
/// that first claim, and a pair is reported when the directions are the same.
pub fn find_orientation_conflicts(claims: &Vec<Claim>) -> (r: Vec<(u32, u32)>)
    ensures
        r@ == orientation_conflicts(claims@),
{
    broadcast use group_hash_axioms;

    let mut first: HashMap<u64, (u32, bool)> = HashMap::new();
    let mut out: Vec<(u32, u32)> = Vec::new();
    let mut n: usize = 0;
    while n < claims.len()
        invariant
            n <= claims.len(),
            forall|e: Edge|
                first@.contains_key(edge_code(e)) <==> #[trigger] first_claim(claims@, e) < n,
            forall|e: Edge|
                #[trigger] first_claim(claims@, e) < n ==> first@[edge_code(e)] == (
                    claims@[first_claim(claims@, e) as int].0,
                    is_forward(claims@[first_claim(claims@, e) as int].1),
                ),
            out@ == conflicts_upto(claims@, n as int),
        decreases claims.len() - n,
    {
        let elem_id = claims[n].0;
        let raw = claims[n].1;
        let edge = canonical_of(raw);
        let forward = raw.0 < raw.1;
        let code = code_of(edge);
        proof {
            lemma_first_claim_is_least(claims@, edge);
        }
        let ghost earliest = first_claim(claims@, edge);
        match first.get(&code) {
            Some(claimant) => {
                if forward == claimant.1 {
                    out.push((claimant.0, elem_id));
                }
            },
            None => {
                assert(earliest == n);
                first.insert(code, (elem_id, forward));
            },
        }
        proof {
            assert forall|e: Edge|
                first@.contains_key(edge_code(e)) <==> #[trigger] first_claim(claims@, e) < n
                    + 1 by {
                lemma_first_claim_is_least(claims@, e);
                if e != edge {
                    assert(edge_code(e) != code);
                }
            }
            assert forall|e: Edge| #[trigger] first_claim(claims@, e) < n + 1 implies first@[edge_code(
                e,
            )] == (
                claims@[first_claim(claims@, e) as int].0,
                is_forward(claims@[first_claim(claims@, e) as int].1),
            ) by {
                lemma_first_claim_is_least(claims@, e);
                if e != edge {
                    assert(edge_code(e) != code);
                }
            }
        }
        n += 1;
    }
    out
}

} // verus!
