//! What holds of the mesh across its operations.

use crate::boundaries::{group_or_empty, nonempty_group};
use crate::boundary_polygon::{flat_edges, polygon_nodes};
use crate::edges::{
    boundary_edges, canonical, canonical_edges, claims_of, lemma_occurs, occurrences,
    on_boundary, Claim,
};
use crate::gr3::Gr3ParserOutput;
use crate::hgrid::{
    built_from, depths_flipped, depths_under, entries_or_empty, written_as, DepthConvention,
    Hgrid,
};
use crate::linked_map::NodeValue;
use crate::nodes::{
    depths_of, has_depth, lemma_negated_twice, lemma_resigned, negated_bits, negated_seq,
    resigned,
};
use crate::rings::{rings_of, Edge};
use vstd::prelude::*;

verus! {

/// A mesh that is made of the content of a file and then handed to a writer
/// gives the writer the nodes, with their coordinates and values, the
/// elements, the boundary segments, the description and the reference system
/// of that content. Elements and boundary groups that the content has not
/// come out as empty ones.
pub proof fn lemma_round_trip(parsed: Gr3ParserOutput, grid: Hgrid, written: Gr3ParserOutput)
    requires
        built_from(parsed, grid),
        written_as(grid, written),
    ensures
        written.node_entries() == parsed.node_entries(),
        written.element_entries() == Some(entries_or_empty(parsed.element_entries())),
        written.open_segments() == Some(group_or_empty(parsed.open_segments())),
        written.land_segments() == Some(group_or_empty(parsed.land_segments())),
        written.interior_segments() == Some(group_or_empty(parsed.interior_segments())),
        written.description_view() == parsed.description_view(),
        written.crs_view() == parsed.crs_view(),
{
    lemma_resigned(parsed.node_entries());
    assert(group_or_empty(nonempty_group(parsed.open_segments())) =~= group_or_empty(
        parsed.open_segments(),
    ));
    assert(group_or_empty(nonempty_group(parsed.land_segments())) =~= group_or_empty(
        parsed.land_segments(),
    ));
    assert(group_or_empty(nonempty_group(parsed.interior_segments())) =~= group_or_empty(
        parsed.interior_segments(),
    ));
}

/// A writer gets the same content for a mesh before and after its depths are
/// flipped: the scalar values are always handed over positive down.
pub proof fn lemma_written_whatever_the_convention(
    before: Hgrid,
    after: Hgrid,
    written_before: Gr3ParserOutput,
    written_after: Gr3ParserOutput,
)
    requires
        depths_flipped(before, after),
        written_as(before, written_before),
        written_as(after, written_after),
    ensures
        written_after.node_entries() == written_before.node_entries(),
        written_after.element_entries() == written_before.element_entries(),
        written_after.open_segments() == written_before.open_segments(),
        written_after.land_segments() == written_before.land_segments(),
        written_after.interior_segments() == written_before.interior_segments(),
        written_after.description_view() == written_before.description_view(),
        written_after.crs_view() == written_before.crs_view(),
{
    let entries = before.nodes_view().entries();
    lemma_resigned(entries);
    lemma_resigned(resigned(entries, true));
}

/// Flipping the depths twice gives the nodes and the convention back.
pub proof fn lemma_flipped_twice(first: Hgrid, second: Hgrid, third: Hgrid)
    requires
        depths_flipped(first, second),
        depths_flipped(second, third),
    ensures
        third.nodes_view().entries() == first.nodes_view().entries(),
        third.convention() == first.convention(),
        third.elements_view().entries() == first.elements_view().entries(),
{
    lemma_resigned(first.nodes_view().entries());
}

/// The depths of negated entries are the negated depths.
pub proof fn lemma_depths_of_resigned(entries: Seq<(u32, NodeValue)>)
    ensures
        depths_of(resigned(entries, true)) == negated_seq(depths_of(entries)),
    decreases entries.len(),
{
    let with_depth = |e: (u32, NodeValue)| has_depth(e);
    let first_value = |e: (u32, NodeValue)| e.1.1->0[0];
    let flipped = resigned(entries, true);
    if entries.len() == 0 {
        reveal(Seq::filter);
        assert(depths_of(flipped) =~= negated_seq(depths_of(entries)));
    } else {
        let head = entries.drop_last();
        let last = entries.last();
        lemma_depths_of_resigned(head);
        assert(entries == head.push(last));
        assert(flipped == resigned(head, true).push(flipped.last()));
        let flipped_head = resigned(head, true);
        let flipped_last = flipped.last();
        head.lemma_filter_push(last, with_depth);
        flipped_head.lemma_filter_push(flipped_last, with_depth);
        assert(has_depth(flipped_last) == has_depth(last));
        let kept = head.filter(with_depth);
        let flipped_kept = flipped_head.filter(with_depth);
        assert(depths_of(head) == kept.map_values(first_value));
        assert(depths_of(flipped_head) == flipped_kept.map_values(first_value));
        if has_depth(last) {
            assert(first_value(flipped_last) == negated_bits(first_value(last)));
            assert(entries.filter(with_depth) == kept.push(last));
            assert(flipped.filter(with_depth) == flipped_kept.push(flipped_last));
            assert(kept.push(last).map_values(first_value) =~= kept.map_values(first_value).push(
                first_value(last),
            ));
            assert(flipped_kept.push(flipped_last).map_values(first_value)
                =~= flipped_kept.map_values(first_value).push(first_value(flipped_last)));
            assert(negated_seq(depths_of(head).push(first_value(last))) =~= negated_seq(
                depths_of(head),
            ).push(negated_bits(first_value(last))));
        } else {
            assert(entries.filter(with_depth) == kept);
            assert(flipped.filter(with_depth) == flipped_kept);
        }
    }
}

/// The depths of a mesh read the same under either convention before and
/// after its depths are flipped.
pub proof fn lemma_depths_kept_by_flip(before: Hgrid, after: Hgrid, wanted: DepthConvention)
    requires
        depths_flipped(before, after),
    ensures
        depths_under(after.nodes_view().entries(), after.convention(), wanted) == depths_under(
            before.nodes_view().entries(),
            before.convention(),
            wanted,
        ),
{
    let entries = before.nodes_view().entries();
    lemma_depths_of_resigned(entries);
    let depths = depths_of(entries);
    assert forall|i: int| 0 <= i < depths.len() implies negated_seq(negated_seq(depths))[i]
        == depths[i] by {
        lemma_negated_twice(depths[i]);
    }
    assert(negated_seq(negated_seq(depths)) =~= depths);
}

/// An edge that two claims are of counts at least twice.
pub proof fn lemma_occurrences_shared(claims: Seq<Claim>, i: int, j: int, n: int)
    requires
        0 <= i < j < n <= claims.len(),
        canonical(claims[i].1) == canonical(claims[j].1),
    ensures
        occurrences(claims, canonical(claims[i].1), n) >= 2,
    decreases n,
{
    if j < n - 1 {
        lemma_occurrences_shared(claims, i, j, n - 1);
    } else {
        lemma_occurs(claims, i, n - 1);
    }
}

/// The boundary edges are the edges that exactly one claim is of: an edge
/// that two elements share, or that one element claims twice, is not among
/// them, and an edge that is claimed once is.
pub proof fn lemma_boundary_rule(claims: Seq<Claim>, edge: Edge)
    ensures
        boundary_edges(claims).contains(edge) <==> (canonical_edges(claims).contains(edge)
            && on_boundary(claims, edge)),
{
    let single = |e: Edge| on_boundary(claims, e);
    let all = canonical_edges(claims);
    if all.contains(edge) && on_boundary(claims, edge) {
        let i = choose|i: int| 0 <= i < all.len() && all[i] == edge;
        all.lemma_filter_contains(single, i);
    }
    if boundary_edges(claims).contains(edge) {
        let k = choose|k: int|
            0 <= k < boundary_edges(claims).len() && boundary_edges(claims)[k] == edge;
        all.lemma_filter_pred(single, k);
        all.lemma_filter_contains_rev(single, edge);
    }
}

/// An edge that two claims are of is not a boundary edge.
pub proof fn lemma_shared_edge_is_interior(claims: Seq<Claim>, i: int, j: int)
    requires
        0 <= i < j < claims.len(),
        canonical(claims[i].1) == canonical(claims[j].1),
    ensures
        !boundary_edges(claims).contains(canonical(claims[i].1)),
{
    lemma_occurrences_shared(claims, i, j, claims.len() as int);
    lemma_boundary_rule(claims, canonical(claims[i].1));
}

/// A mesh without elements has no boundary edge, no ring and no node on its
/// boundary polygon.
pub proof fn lemma_no_elements_no_rings(entries: Seq<(u32, Seq<u32>)>)
    requires
        entries.len() == 0,
    ensures
        claims_of(entries).len() == 0,
        boundary_edges(claims_of(entries)).len() == 0,
        rings_of(boundary_edges(claims_of(entries))).len() == 0,
        polygon_nodes(flat_edges(rings_of(boundary_edges(claims_of(entries))))).len() == 0,
{
    reveal(Seq::filter);
    let claims = claims_of(entries);
    assert(canonical_edges(claims).len() == 0);
    assert(boundary_edges(claims).len() == 0);
    let flat = flat_edges(rings_of(boundary_edges(claims)));
    assert(flat.len() == 0);
    assert(crate::boundary_polygon::end_nodes(flat).len() == 0);
}

} // verus!
