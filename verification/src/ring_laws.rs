//! What holds of the rings that a list of edges gives.

use crate::boundary_polygon::flat_edges;
use crate::edges::{
    boundary_edges, canonical, canonical_edges, claims_of, element_claims, occurrences, Claim,
};
use crate::rings::{
    chain_rings, first_touching, lemma_first_touching, oriented_from, oriented_to, ring_closed,
    rings_of, touches, Edge,
};
use vstd::multiset::Multiset;
use vstd::prelude::*;
use vstd::seq_lib::{lemma_multiset_commutative, to_multiset_build, to_multiset_remove};

verus! {

/// Each edge of the ring starts where the one before it ends.
pub open spec fn is_chain(ring: Seq<Edge>) -> bool {
    forall|i: int| 0 <= i < ring.len() - 1 ==> (#[trigger] ring[i]).1 == ring[i + 1].0
}

/// Every ring has an edge and is connected.
pub open spec fn all_chains(rings: Seq<Seq<Edge>>) -> bool {
    forall|k: int| 0 <= k < rings.len() ==> (#[trigger] rings[k]).len() > 0 && is_chain(rings[k])
}

/// The edges as a bag, without their direction.
pub open spec fn edge_bag(edges: Seq<Edge>) -> Multiset<Edge> {
    edges.map_values(|e: Edge| canonical(e)).to_multiset()
}

/// None of the edges touches the first or the last node of the ring.
pub open spec fn untouched(ring: Seq<Edge>, edges: Seq<Edge>) -> bool {
    forall|t: int|
        0 <= t < edges.len() ==> !touches(#[trigger] edges[t], ring.first().0) && !touches(
            edges[t],
            ring.last().1,
        )
}

/// No edge of a later ring touches an end of an earlier ring that is open.
pub open spec fn open_rings_maximal(rings: Seq<Seq<Edge>>) -> bool {
    forall|k: int, j: int|
        0 <= k < j < rings.len() && !ring_closed(rings[k]) ==> untouched(
            #[trigger] rings[k],
            #[trigger] rings[j],
        )
}

/// None of the edges touches an end of a ring of `done` that is open.
pub open spec fn settled(done: Seq<Seq<Edge>>, edges: Seq<Edge>) -> bool {
    forall|k: int|
        0 <= k < done.len() && !ring_closed(done[k]) ==> untouched(#[trigger] done[k], edges)
}

/// What `first_touching` gives is the least position of an edge that touches
/// the node.
pub proof fn lemma_first_touching_is_least(edges: Seq<Edge>, node: u32)
    ensures
        first_touching(edges, node) <= edges.len(),
        first_touching(edges, node) < edges.len() ==> touches(
            edges[first_touching(edges, node) as int],
            node,
        ),
        forall|j: int|
            0 <= j < first_touching(edges, node) ==> !touches(#[trigger] edges[j], node),
    decreases edges.len(),
{
    if edges.len() > 0 && !touches(edges.first(), node) {
        let tail = edges.drop_first();
        lemma_first_touching_is_least(tail, node);
        let k = first_touching(tail, node);
        assert forall|j: int| 0 <= j < k + 1 implies !touches(#[trigger] edges[j], node) by {
            if j > 0 {
                assert(tail[j - 1] == edges[j]);
            }
        }
        if k < tail.len() {
            assert(tail[k as int] == edges[k as int + 1]);
        }
    }
}

/// The rings that come of connected rings and a connected ring under
/// construction are connected.
pub proof fn lemma_chain_rings_are_chains(done: Seq<Seq<Edge>>, ring: Seq<Edge>, rest: Seq<Edge>)
    requires
        all_chains(done),
        ring.len() > 0,
        is_chain(ring),
    ensures
        all_chains(chain_rings(done, ring, rest)),
    decreases rest.len(),
{
    let end = ring.last().1;
    let start = ring.first().0;
    let at_end = first_touching(rest, end) as int;
    let at_start = first_touching(rest, start) as int;
    lemma_first_touching_is_least(rest, end);
    lemma_first_touching_is_least(rest, start);
    if rest.len() == 0 {
    } else if !ring_closed(ring) && at_end < rest.len() {
        let grown = ring.push(oriented_from(rest[at_end], end));
        assert(is_chain(grown));
        lemma_chain_rings_are_chains(done, grown, rest.remove(at_end));
    } else if !ring_closed(ring) && at_start < rest.len() {
        let grown = seq![oriented_to(rest[at_start], start)] + ring;
        assert forall|i: int| 0 <= i < grown.len() - 1 implies (#[trigger] grown[i]).1 == grown[i
            + 1].0 by {
            if i > 0 {
                assert(grown[i] == ring[i - 1]);
                assert(grown[i + 1] == ring[i]);
            } else {
                assert(grown[1] == ring[0]);
            }
        }
        lemma_chain_rings_are_chains(done, grown, rest.remove(at_start));
    } else {
        let seed = seq![rest.last()];
        assert(is_chain(seed));
        lemma_chain_rings_are_chains(done.push(ring), seed, rest.drop_last());
    }
}

/// Every ring has an edge, and each of its edges starts where the one before
/// it ends.
pub proof fn lemma_rings_are_chains(edges: Seq<Edge>)
    ensures
        all_chains(rings_of(edges)),
{
    if edges.len() > 0 {
        let seed = seq![edges.last()];
        assert(is_chain(seed));
        lemma_chain_rings_are_chains(Seq::empty(), seed, edges.drop_last());
    }
}

/// The bag of a list with one more edge.
pub proof fn lemma_bag_push(edges: Seq<Edge>, e: Edge)
    ensures
        edge_bag(edges.push(e)) == edge_bag(edges).insert(canonical(e)),
{
    let f = |e: Edge| canonical(e);
    assert(edges.push(e).map_values(f) =~= edges.map_values(f).push(canonical(e)));
    to_multiset_build(edges.map_values(f), canonical(e));
}

/// The bag of two lists, one after the other.
pub proof fn lemma_bag_add(a: Seq<Edge>, b: Seq<Edge>)
    ensures
        edge_bag(a + b) == edge_bag(a).add(edge_bag(b)),
{
    let f = |e: Edge| canonical(e);
    assert((a + b).map_values(f) =~= a.map_values(f) + b.map_values(f));
    lemma_multiset_commutative(a.map_values(f), b.map_values(f));
}

/// The bag of a list is that of the list without one edge, and that edge.
pub proof fn lemma_bag_remove(edges: Seq<Edge>, i: int)
    requires
        0 <= i < edges.len(),
    ensures
        edge_bag(edges) == edge_bag(edges.remove(i)).insert(canonical(edges[i])),
{
    let f = |e: Edge| canonical(e);
    assert(edges.remove(i).map_values(f) =~= edges.map_values(f).remove(i));
    broadcast use vstd::multiset::group_multiset_axioms;

    let mapped = edges.map_values(f);
    to_multiset_remove(mapped, i);
    mapped.to_multiset_ensures();
    assert(mapped.contains(mapped[i]));
    assert(mapped.to_multiset().count(mapped[i]) > 0);
    assert(edge_bag(edges) =~= edge_bag(edges.remove(i)).insert(canonical(edges[i])));
}

/// The bag of a list of one edge.
pub proof fn lemma_bag_single(e: Edge)
    ensures
        edge_bag(seq![e]) == Multiset::<Edge>::empty().insert(canonical(e)),
{
    assert(seq![e] =~= Seq::<Edge>::empty().push(e));
    lemma_bag_push(Seq::empty(), e);
    assert(Seq::<Edge>::empty().map_values(|e: Edge| canonical(e)) =~= Seq::<Edge>::empty());
    assert(edge_bag(Seq::empty()) =~= Multiset::<Edge>::empty()) by {
        broadcast use vstd::seq_lib::group_to_multiset_ensures;

    }
}

/// The rings that come of `done`, `ring` and `rest` hold the edges of the
/// three, each as often as they do.
pub proof fn lemma_chain_rings_bag(done: Seq<Seq<Edge>>, ring: Seq<Edge>, rest: Seq<Edge>)
    requires
        ring.len() > 0,
    ensures
        edge_bag(flat_edges(chain_rings(done, ring, rest))) == edge_bag(flat_edges(done)).add(
            edge_bag(ring),
        ).add(edge_bag(rest)),
    decreases rest.len(),
{
    let end = ring.last().1;
    let start = ring.first().0;
    let at_end = first_touching(rest, end) as int;
    let at_start = first_touching(rest, start) as int;
    let flat_done = flat_edges(done);
    assert(done.push(ring).drop_last() == done);
    assert(flat_edges(done.push(ring)) == flat_done + ring);
    lemma_bag_add(flat_done, ring);
    if rest.len() == 0 {
        assert(rest.map_values(|e: Edge| canonical(e)) =~= Seq::<Edge>::empty());
        assert(edge_bag(rest) =~= Multiset::<Edge>::empty()) by {
            broadcast use vstd::seq_lib::group_to_multiset_ensures;

        }
        assert(edge_bag(flat_done).add(edge_bag(ring)).add(edge_bag(rest)) =~= edge_bag(
            flat_done,
        ).add(edge_bag(ring)));
    } else if !ring_closed(ring) && at_end < rest.len() {
        let e = oriented_from(rest[at_end], end);
        assert(canonical(e) == canonical(rest[at_end]));
        lemma_chain_rings_bag(done, ring.push(e), rest.remove(at_end));
        lemma_bag_push(ring, e);
        lemma_bag_remove(rest, at_end);
        assert(edge_bag(flat_done).add(edge_bag(ring.push(e))).add(edge_bag(rest.remove(at_end)))
            =~= edge_bag(flat_done).add(edge_bag(ring)).add(edge_bag(rest)));
    } else if !ring_closed(ring) && at_start < rest.len() {
        let e = oriented_to(rest[at_start], start);
        assert(canonical(e) == canonical(rest[at_start]));
        lemma_chain_rings_bag(done, seq![e] + ring, rest.remove(at_start));
        lemma_bag_add(seq![e], ring);
        lemma_bag_single(e);
        lemma_bag_remove(rest, at_start);
        assert(edge_bag(flat_done).add(edge_bag(seq![e] + ring)).add(
            edge_bag(rest.remove(at_start)),
        ) =~= edge_bag(flat_done).add(edge_bag(ring)).add(edge_bag(rest)));
    } else {
        let last = rest.len() - 1;
        lemma_chain_rings_bag(done.push(ring), seq![rest.last()], rest.drop_last());
        lemma_bag_single(rest.last());
        assert(rest.drop_last() == rest.remove(last));
        lemma_bag_remove(rest, last);
        assert(edge_bag(flat_done + ring).add(edge_bag(seq![rest.last()])).add(
            edge_bag(rest.drop_last()),
        ) =~= edge_bag(flat_done).add(edge_bag(ring)).add(edge_bag(rest)));
    }
}

/// The rings hold every edge of the list exactly as often as the list does,
/// in one direction or the other: no edge is lost, none is made up.
pub proof fn lemma_rings_keep_edges(edges: Seq<Edge>)
    ensures
        edge_bag(flat_edges(rings_of(edges))) == edge_bag(edges),
{
    if edges.len() == 0 {
        assert(flat_edges(rings_of(edges)) =~= edges);
    } else {
        let last = edges.len() - 1;
        lemma_chain_rings_bag(Seq::empty(), seq![edges.last()], edges.drop_last());
        lemma_bag_single(edges.last());
        assert(edges.drop_last() == edges.remove(last));
        lemma_bag_remove(edges, last);
        assert(flat_edges(Seq::<Seq<Edge>>::empty()) =~= Seq::<Edge>::empty());
        assert(Seq::<Edge>::empty().map_values(|e: Edge| canonical(e)) =~= Seq::<Edge>::empty());
        assert(edge_bag(Seq::empty()) =~= Multiset::<Edge>::empty()) by {
            broadcast use vstd::seq_lib::group_to_multiset_ensures;

        }
        assert(edge_bag(Seq::empty()).add(edge_bag(seq![edges.last()])).add(
            edge_bag(edges.drop_last()),
        ) =~= edge_bag(edges));
    }
}

/// The rings that come of `done`, `ring` and `rest` are maximal where those
/// of `done` are and no edge of `ring` or `rest` touches an open ring of
/// `done`.
pub proof fn lemma_chain_rings_maximal(done: Seq<Seq<Edge>>, ring: Seq<Edge>, rest: Seq<Edge>)
    requires
        ring.len() > 0,
        open_rings_maximal(done),
        settled(done, ring + rest),
    ensures
        open_rings_maximal(chain_rings(done, ring, rest)),
    decreases rest.len(),
{
    let end = ring.last().1;
    let start = ring.first().0;
    let at_end = first_touching(rest, end) as int;
    let at_start = first_touching(rest, start) as int;
    let both = ring + rest;
    lemma_first_touching_is_least(rest, end);
    lemma_first_touching_is_least(rest, start);
    if rest.len() == 0 {
        let all = done.push(ring);
        assert forall|k: int, j: int|
            0 <= k < j < all.len() && !ring_closed(all[k]) implies untouched(
            #[trigger] all[k],
            #[trigger] all[j],
        ) by {
            if j < done.len() {
                assert(untouched(done[k], done[j]));
            } else {
                assert(untouched(done[k], both));
                assert forall|t: int| 0 <= t < ring.len() implies !touches(
                    #[trigger] ring[t],
                    done[k].first().0,
                ) && !touches(ring[t], done[k].last().1) by {
                    assert(both[t] == ring[t]);
                }
            }
        }
    } else if !ring_closed(ring) && at_end < rest.len() {
        let e = oriented_from(rest[at_end], end);
        let grown = ring.push(e);
        let fewer = rest.remove(at_end);
        assert forall|k: int| 0 <= k < done.len() && !ring_closed(done[k]) implies untouched(
            #[trigger] done[k],
            grown + fewer,
        ) by {
            assert(untouched(done[k], both));
            assert forall|t: int| 0 <= t < (grown + fewer).len() implies !touches(
                #[trigger] (grown + fewer)[t],
                done[k].first().0,
            ) && !touches((grown + fewer)[t], done[k].last().1) by {
                if t < ring.len() {
                    assert((grown + fewer)[t] == both[t]);
                } else if t == ring.len() {
                    assert(both[ring.len() + at_end] == rest[at_end]);
                } else {
                    let u = t - grown.len();
                    if u < at_end {
                        assert(fewer[u] == rest[u]);
                        assert(both[ring.len() + u] == rest[u]);
                    } else {
                        assert(fewer[u] == rest[u + 1]);
                        assert(both[ring.len() + u + 1] == rest[u + 1]);
                    }
                }
            }
        }
        lemma_chain_rings_maximal(done, grown, fewer);
    } else if !ring_closed(ring) && at_start < rest.len() {
        let e = oriented_to(rest[at_start], start);
        let grown = seq![e] + ring;
        let fewer = rest.remove(at_start);
        assert forall|k: int| 0 <= k < done.len() && !ring_closed(done[k]) implies untouched(
            #[trigger] done[k],
            grown + fewer,
        ) by {
            assert(untouched(done[k], both));
            assert forall|t: int| 0 <= t < (grown + fewer).len() implies !touches(
                #[trigger] (grown + fewer)[t],
                done[k].first().0,
            ) && !touches((grown + fewer)[t], done[k].last().1) by {
                if t == 0 {
                    assert(both[ring.len() + at_start] == rest[at_start]);
                } else if t < grown.len() {
                    assert((grown + fewer)[t] == both[t - 1]);
                } else {
                    let u = t - grown.len();
                    if u < at_start {
                        assert(fewer[u] == rest[u]);
                        assert(both[ring.len() + u] == rest[u]);
                    } else {
                        assert(fewer[u] == rest[u + 1]);
                        assert(both[ring.len() + u + 1] == rest[u + 1]);
                    }
                }
            }
        }
        lemma_chain_rings_maximal(done, grown, fewer);
    } else {
        let more = done.push(ring);
        let seed = seq![rest.last()];
        let fewer = rest.drop_last();
        assert forall|k: int, j: int|
            0 <= k < j < more.len() && !ring_closed(more[k]) implies untouched(
            #[trigger] more[k],
            #[trigger] more[j],
        ) by {
            if j < done.len() {
                assert(untouched(done[k], done[j]));
            } else {
                assert(untouched(done[k], both));
                assert forall|t: int| 0 <= t < ring.len() implies !touches(
                    #[trigger] ring[t],
                    done[k].first().0,
                ) && !touches(ring[t], done[k].last().1) by {
                    assert(both[t] == ring[t]);
                }
            }
        }
        assert forall|k: int| 0 <= k < more.len() && !ring_closed(more[k]) implies untouched(
            #[trigger] more[k],
            seed + fewer,
        ) by {
            assert forall|t: int| 0 <= t < (seed + fewer).len() implies !touches(
                #[trigger] (seed + fewer)[t],
                more[k].first().0,
            ) && !touches((seed + fewer)[t], more[k].last().1) by {
                let u = if t == 0 {
                    rest.len() - 1
                } else {
                    t - 1
                };
                assert((seed + fewer)[t] == rest[u]);
                if k < done.len() {
                    assert(untouched(done[k], both));
                    assert(both[ring.len() + u] == rest[u]);
                } else {
                    assert(more[k] == ring);
                }
            }
        }
        lemma_chain_rings_maximal(more, seed, fewer);
    }
}

/// A ring that is left open could not be extended: no edge of a later ring
/// touches its first or its last node.
pub proof fn lemma_open_rings_are_maximal(edges: Seq<Edge>)
    ensures
        open_rings_maximal(rings_of(edges)),
{
    if edges.len() > 0 {
        lemma_chain_rings_maximal(Seq::empty(), seq![edges.last()], edges.drop_last());
    }
}

/// The claims of a mesh of one triangle.
pub proof fn lemma_triangle_claims(id: u32, a: u32, b: u32, c: u32)
    ensures
        claims_of(seq![(id, seq![a, b, c])]) == seq![(id, (a, b)), (id, (b, c)), (id, (c, a))],
{
    let entries = seq![(id, seq![a, b, c])];
    let nodes = seq![a, b, c];
    assert(entries.drop_last() =~= Seq::<(u32, Seq<u32>)>::empty());
    assert(claims_of(entries.drop_last()) == Seq::<Claim>::empty());
    assert(entries.last() == (id, nodes));
    let own = element_claims(id, nodes);
    assert(own.len() == 3);
    assert(own[0] == (id, (a, b)));
    assert(own[1] == (id, (b, c)));
    assert(own[2] == (id, (c, a)));
    assert(own =~= seq![(id, (a, b)), (id, (b, c)), (id, (c, a))]);
    assert(claims_of(entries) =~= own);
}

/// One step of chaining: an open ring takes the first unused edge that
/// touches its last node.
pub proof fn lemma_grows_at_end(done: Seq<Seq<Edge>>, ring: Seq<Edge>, rest: Seq<Edge>, i: int)
    requires
        !ring_closed(ring),
        0 <= i < rest.len(),
        forall|j: int| 0 <= j < i ==> !touches(#[trigger] rest[j], ring.last().1),
        touches(rest[i], ring.last().1),
    ensures
        chain_rings(done, ring, rest) == chain_rings(
            done,
            ring.push(oriented_from(rest[i], ring.last().1)),
            rest.remove(i),
        ),
{
    lemma_first_touching(rest, ring.last().1, i);
}

/// The boundary edges of a mesh of a single triangle with three different
/// nodes are its three edges.
pub proof fn lemma_triangle_boundary(id: u32, a: u32, b: u32, c: u32)
    requires
        a != b,
        b != c,
        a != c,
    ensures
        boundary_edges(claims_of(seq![(id, seq![a, b, c])])) == seq![
            canonical((a, b)),
            canonical((b, c)),
            canonical((c, a)),
        ],
{
    lemma_triangle_claims(id, a, b, c);
    let claims = seq![(id, (a, b)), (id, (b, c)), (id, (c, a))];
    let e1 = canonical((a, b));
    let e2 = canonical((b, c));
    let e3 = canonical((c, a));
    let all = canonical_edges(claims);
    reveal_with_fuel(occurrences, 4);
    assert(occurrences(claims, e1, 3) == 1);
    assert(occurrences(claims, e2, 3) == 1);
    assert(occurrences(claims, e3, 3) == 1);
    let single = |e: Edge| crate::edges::on_boundary(claims, e);
    let none = Seq::<Edge>::empty();
    assert(none.filter(single) == none) by {
        reveal(Seq::filter);
    }
    none.lemma_filter_push(e1, single);
    none.push(e1).lemma_filter_push(e2, single);
    none.push(e1).push(e2).lemma_filter_push(e3, single);
    assert(all =~= none.push(e1).push(e2).push(e3));
    assert(boundary_edges(claims) =~= seq![e1, e2, e3]);
}

/// Three edges that join three different nodes in a cycle give one closed
/// ring of three edges.
pub proof fn lemma_triangle_ring(a: u32, b: u32, c: u32)
    requires
        a != b,
        b != c,
        a != c,
    ensures
        rings_of(seq![canonical((a, b)), canonical((b, c)), canonical((c, a))]).len() == 1,
        rings_of(seq![canonical((a, b)), canonical((b, c)), canonical((c, a))])[0].len() == 3,
        ring_closed(rings_of(seq![canonical((a, b)), canonical((b, c)), canonical((c, a))])[0]),
{
    let e1 = canonical((a, b));
    let e2 = canonical((b, c));
    let e3 = canonical((c, a));
    let edges = seq![e1, e2, e3];
    let rest = edges.drop_last();
    assert(rest =~= seq![e1, e2]);
    assert(edges.last() == e3);
    let seed = seq![e3];
    let end = e3.1;
    let done = Seq::<Seq<Edge>>::empty();
    let first = if touches(e1, end) {
        0int
    } else {
        1int
    };
    let other = 1 - first;
    assert(touches(rest[first], end));
    lemma_grows_at_end(done, seed, rest, first);
    let x1 = oriented_from(rest[first], end);
    let ring1 = seed.push(x1);
    let rest1 = rest.remove(first);
    assert(rest1 =~= seq![rest[other]]);
    assert(ring1.last() == x1);
    assert(ring1.first() == e3);
    assert(ring1.len() == 2);
    assert(touches(rest1[0], x1.1));
    assert(!ring_closed(ring1));
    lemma_grows_at_end(done, ring1, rest1, 0);
    let x2 = oriented_from(rest1[0], x1.1);
    let ring2 = ring1.push(x2);
    let rest2 = rest1.remove(0);
    assert(rest2 =~= Seq::<Edge>::empty());
    assert(chain_rings(done, ring2, rest2) == done.push(ring2));
    assert(ring2.last() == x2);
    assert(ring2.first() == e3);
    assert(ring_closed(ring2));
    assert(rings_of(edges) == done.push(ring2));
}

/// In a mesh of a single triangle with three different nodes, all three
/// edges lie on the boundary, and they form one closed ring of three edges.
pub proof fn lemma_single_triangle(id: u32, a: u32, b: u32, c: u32)
    requires
        a != b,
        b != c,
        a != c,
    ensures
        boundary_edges(claims_of(seq![(id, seq![a, b, c])])).len() == 3,
        rings_of(boundary_edges(claims_of(seq![(id, seq![a, b, c])]))).len() == 1,
        rings_of(boundary_edges(claims_of(seq![(id, seq![a, b, c])])))[0].len() == 3,
        ring_closed(rings_of(boundary_edges(claims_of(seq![(id, seq![a, b, c])])))[0]),
{
    lemma_triangle_boundary(id, a, b, c);
    lemma_triangle_ring(a, b, c);
}

} // verus!
