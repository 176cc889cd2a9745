//! The validation report of a mesh: which elements and boundary segments
//! name nodes that the mesh has not, which elements are wound the wrong way
//! round, have no area or are not convex, and which neighbours disagree on
//! the direction of their common edge.

use crate::boundaries::{group_or_empty, segments_view};
use crate::edges::{claims_of, collect_claims, find_orientation_conflicts, orientation_conflicts};
use crate::elements::valid_size;
use crate::hgrid::Hgrid;
use crate::linked_map::element_items_view;
use crate::nodes::{all_known, dangling, dangling_ids, lemma_dangling_empty};
use crate::text::{decimal, push_decimal};
use std::collections::HashSet;
use vstd::prelude::*;

verus! {

/// How the signed area of an element compares with the tolerance.
#[derive(Debug, Clone, Copy, PartialEq, Eq, Structural)]
pub enum AreaSign {
    /// The area lies below the negative of the tolerance: the element is
    /// wound clockwise.
    Negative,
    /// The magnitude of the area is at most the tolerance.
    Zero,
    /// Neither of the two.
    Positive,
}

/// What was measured of an element's geometry.
#[derive(Debug, Clone, Copy, PartialEq, Eq, Structural)]
pub struct ElementShape {
    /// The signed area of the element against the tolerance.
    pub area: AreaSign,
    /// For a quadrilateral: one of its four corner triangles has a signed
    /// area at or below the negative of the tolerance.
    pub concave: bool,
}

/// The issues found in a mesh. A list is empty when its check found nothing.
#[derive(Debug, Clone)]
pub struct MeshValidation {
    /// Elements that name node ids which the mesh has not, each with those ids.
    pub invalid_element_node_refs: Vec<(u32, Vec<u32>)>,
    /// Open boundary segments that name a node id which the mesh has not.
    pub invalid_open_boundary_refs: Vec<u32>,
    /// Land boundary segments that name a node id which the mesh has not.
    pub invalid_land_boundary_refs: Vec<u32>,
    /// Interior boundary segments that name a node id which the mesh has not.
    pub invalid_interior_boundary_refs: Vec<u32>,
    /// Elements with a negative signed area.
    pub negative_area_elements: Vec<u32>,
    /// Elements with no area.
    pub zero_area_elements: Vec<u32>,
    /// Quadrilaterals that are not convex.
    pub concave_quads: Vec<u32>,
    /// Pairs of elements that walk a common edge in the same direction.
    pub orientation_conflicts: Vec<(u32, u32)>,
}

impl MeshValidation {
    /// No structural issue was found.
    pub open spec fn structurally_valid(&self) -> bool {
        &&& self.invalid_element_node_refs@.len() == 0
        &&& self.invalid_open_boundary_refs@.len() == 0
        &&& self.invalid_land_boundary_refs@.len() == 0
        &&& self.invalid_interior_boundary_refs@.len() == 0
    }

    /// No geometric issue was found.
    pub open spec fn geometrically_valid(&self) -> bool {
        &&& self.negative_area_elements@.len() == 0
        &&& self.zero_area_elements@.len() == 0
        &&& self.concave_quads@.len() == 0
        &&& self.orientation_conflicts@.len() == 0
    }

    /// The number of issues of all kinds.
    pub open spec fn total_issues(&self) -> nat {
        self.invalid_element_node_refs@.len() + self.invalid_open_boundary_refs@.len()
            + self.invalid_land_boundary_refs@.len() + self.invalid_interior_boundary_refs@.len()
            + self.negative_area_elements@.len() + self.zero_area_elements@.len()
            + self.concave_quads@.len() + self.orientation_conflicts@.len()
    }

    /// Returns true if no check found an issue.
    pub fn is_ok(&self) -> (r: bool)
        ensures
            r == (self.structurally_valid() && self.geometrically_valid()),
            r == (self.total_issues() == 0),
    {
        self.invalid_element_node_refs.is_empty() && self.invalid_open_boundary_refs.is_empty()
            && self.invalid_land_boundary_refs.is_empty()
            && self.invalid_interior_boundary_refs.is_empty()
            && self.negative_area_elements.is_empty() && self.zero_area_elements.is_empty()
            && self.concave_quads.is_empty() && self.orientation_conflicts.is_empty()
    }

    /// Returns true if the structural checks found nothing, whatever the
    /// geometric checks found.
    pub fn is_structurally_valid(&self) -> (r: bool)
        ensures
            r == self.structurally_valid(),
    {
        self.invalid_element_node_refs.is_empty() && self.invalid_open_boundary_refs.is_empty()
            && self.invalid_land_boundary_refs.is_empty()
            && self.invalid_interior_boundary_refs.is_empty()
    }

    /// Returns true if the geometric checks found nothing, whatever the
    /// structural checks found.
    pub fn is_geometrically_valid(&self) -> (r: bool)
        ensures
            r == self.geometrically_valid(),
    {
        self.negative_area_elements.is_empty() && self.zero_area_elements.is_empty()
            && self.concave_quads.is_empty() && self.orientation_conflicts.is_empty()
    }

    /// The number of issues of all kinds.
    pub fn issue_count(&self) -> (r: usize)
        requires
            self.total_issues() <= usize::MAX,
        ensures
            r == self.total_issues(),
    {
        self.invalid_element_node_refs.len() + self.invalid_open_boundary_refs.len()
            + self.invalid_land_boundary_refs.len() + self.invalid_interior_boundary_refs.len()
            + self.negative_area_elements.len() + self.zero_area_elements.len()
            + self.concave_quads.len() + self.orientation_conflicts.len()
    }
}

/// One line of a report: nothing for a count of zero, else the count and
/// what it counts.
pub open spec fn issue_line(count: nat, what: Seq<char>) -> Seq<char> {
    if count == 0 {
        Seq::empty()
    } else {
        "  - "@ + decimal(count) + " "@ + what + "\n"@
    }
}

/// Appends one line of a report.
fn push_issue_line(out: &mut String, count: usize, what: &str)
    ensures
        final(out)@ == old(out)@ + issue_line(count as nat, what@),
{
    if count > 0 {
        out.append("  - ");
        push_decimal(out, count as u128);
        out.append(" ");
        out.append(what);
        out.append("\n");
        assert(out@ =~= old(out)@ + issue_line(count as nat, what@));
    } else {
        assert(out@ =~= old(out)@ + issue_line(count as nat, what@));
    }
}

impl MeshValidation {
    /// The report as a text: one line where nothing was found, else the
    /// number of issues and one line for every kind of issue that was found.
    pub open spec fn text(&self) -> Seq<char> {
        if self.total_issues() == 0 {
            "Mesh validation: OK"@
        } else {
            "Mesh validation: "@ + decimal(self.total_issues()) + " issues found\n"@ + issue_line(
                self.invalid_element_node_refs@.len(),
                "elements with invalid node refs"@,
            ) + issue_line(
                self.invalid_open_boundary_refs@.len(),
                "open boundaries with invalid node refs"@,
            ) + issue_line(
                self.invalid_land_boundary_refs@.len(),
                "land boundaries with invalid node refs"@,
            ) + issue_line(
                self.invalid_interior_boundary_refs@.len(),
                "interior boundaries with invalid node refs"@,
            ) + issue_line(self.negative_area_elements@.len(), "elements with negative area"@)
                + issue_line(self.zero_area_elements@.len(), "degenerate (zero-area) elements"@)
                + issue_line(self.concave_quads@.len(), "concave quad elements"@) + issue_line(
                self.orientation_conflicts@.len(),
                "orientation conflicts"@,
            )
        }
    }

    /// Writes the report out as a text.
    pub fn to_string(&self) -> (r: String)
        ensures
            r@ == self.text(),
    {
        if self.is_ok() {
            return "Mesh validation: OK".to_owned();
        }
        let total: u128 = self.invalid_element_node_refs.len() as u128
            + self.invalid_open_boundary_refs.len() as u128
            + self.invalid_land_boundary_refs.len() as u128
            + self.invalid_interior_boundary_refs.len() as u128
            + self.negative_area_elements.len() as u128 + self.zero_area_elements.len() as u128
            + self.concave_quads.len() as u128 + self.orientation_conflicts.len() as u128;
        let mut out = "Mesh validation: ".to_owned();
        push_decimal(&mut out, total);
        out.append(" issues found\n");
        push_issue_line(
            &mut out,
            self.invalid_element_node_refs.len(),
            "elements with invalid node refs",
        );
        push_issue_line(
            &mut out,
            self.invalid_open_boundary_refs.len(),
            "open boundaries with invalid node refs",
        );
        push_issue_line(
            &mut out,
            self.invalid_land_boundary_refs.len(),
            "land boundaries with invalid node refs",
        );
        push_issue_line(
            &mut out,
            self.invalid_interior_boundary_refs.len(),
            "interior boundaries with invalid node refs",
        );
        push_issue_line(&mut out, self.negative_area_elements.len(), "elements with negative area");
        push_issue_line(
            &mut out,
            self.zero_area_elements.len(),
            "degenerate (zero-area) elements",
        );
        push_issue_line(&mut out, self.concave_quads.len(), "concave quad elements");
        push_issue_line(&mut out, self.orientation_conflicts.len(), "orientation conflicts");
        assert(out@ =~= self.text());
        out
    }
}

impl Default for MeshValidation {
    /// The report without any issue.
    fn default() -> (r: Self)
        ensures
            r.total_issues() == 0,
    {
        MeshValidation {
            invalid_element_node_refs: Vec::new(),
            invalid_open_boundary_refs: Vec::new(),
            invalid_land_boundary_refs: Vec::new(),
            invalid_interior_boundary_refs: Vec::new(),
            negative_area_elements: Vec::new(),
            zero_area_elements: Vec::new(),
            concave_quads: Vec::new(),
            orientation_conflicts: Vec::new(),
        }
    }
}

/// A list of elements with node ids as a plain value.
pub open spec fn refs_view(refs: Seq<(u32, Vec<u32>)>) -> Seq<(u32, Seq<u32>)> {
    refs.map_values(|r: (u32, Vec<u32>)| (r.0, r.1@))
}

/// Among the first `n` elements, those that name a node id which is not
/// known, each with its unknown ids.
pub open spec fn dangling_elements(entries: Seq<(u32, Seq<u32>)>, known: Set<u32>, n: int) -> Seq<
    (u32, Seq<u32>),
>
    decreases n,
{
    if n <= 0 {
        Seq::empty()
    } else if dangling(entries[n - 1].1, known).len() > 0 {
        dangling_elements(entries, known, n - 1).push(
            (entries[n - 1].0, dangling(entries[n - 1].1, known)),
        )
    } else {
        dangling_elements(entries, known, n - 1)
    }
}

/// Among the first `n` segments, the positions of those that name a node id
/// which is not known.
pub open spec fn dangling_segments(segments: Seq<Seq<u32>>, known: Set<u32>, n: int) -> Seq<u32>
    decreases n,
{
    if n <= 0 {
        Seq::empty()
    } else if !all_known(segments[n - 1], known) {
        dangling_segments(segments, known, n - 1).push((n - 1) as u32)
    } else {
        dangling_segments(segments, known, n - 1)
    }
}

/// The geometry of element `i` counts: it was measured, the element is a
/// triangle or a quadrilateral, and all its nodes are known.
pub open spec fn measured(
    entries: Seq<(u32, Seq<u32>)>,
    known: Set<u32>,
    shapes: Seq<ElementShape>,
    i: int,
) -> bool {
    &&& 0 <= i < entries.len()
    &&& i < shapes.len()
    &&& valid_size(entries[i].1.len())
    &&& all_known(entries[i].1, known)
}

/// Element `i` is reported for its negative area.
pub open spec fn has_negative_area(
    entries: Seq<(u32, Seq<u32>)>,
    known: Set<u32>,
    shapes: Seq<ElementShape>,
    i: int,
) -> bool {
    measured(entries, known, shapes, i) && shapes[i].area == AreaSign::Negative
}

/// Element `i` is reported for having no area.
pub open spec fn has_zero_area(
    entries: Seq<(u32, Seq<u32>)>,
    known: Set<u32>,
    shapes: Seq<ElementShape>,
    i: int,
) -> bool {
    measured(entries, known, shapes, i) && shapes[i].area == AreaSign::Zero
}

/// Element `i` is reported as a quadrilateral that is not convex.
pub open spec fn is_concave_quad(
    entries: Seq<(u32, Seq<u32>)>,
    known: Set<u32>,
    shapes: Seq<ElementShape>,
    i: int,
) -> bool {
    measured(entries, known, shapes, i) && entries[i].1.len() == 4 && shapes[i].concave
}

/// The ids of those among the first `n` elements of which `reported` holds,
/// in order.
pub open spec fn reported_ids(
    entries: Seq<(u32, Seq<u32>)>,
    reported: spec_fn(int) -> bool,
    n: int,
) -> Seq<u32>
    decreases n,
{
    if n <= 0 {
        Seq::empty()
    } else if reported(n - 1) {
        reported_ids(entries, reported, n - 1).push(entries[n - 1].0)
    } else {
        reported_ids(entries, reported, n - 1)
    }
}

/// The report `report` is the one of a mesh with these element entries,
/// boundary segments and node ids, whose elements were measured as `shapes`.
pub open spec fn is_report_of(
    entries: Seq<(u32, Seq<u32>)>,
    open: Seq<Seq<u32>>,
    land: Seq<Seq<u32>>,
    interior: Seq<Seq<u32>>,
    known: Set<u32>,
    shapes: Seq<ElementShape>,
    report: MeshValidation,
) -> bool {
    &&& refs_view(report.invalid_element_node_refs@) == dangling_elements(
        entries,
        known,
        entries.len() as int,
    )
    &&& report.invalid_open_boundary_refs@ == dangling_segments(open, known, open.len() as int)
    &&& report.invalid_land_boundary_refs@ == dangling_segments(land, known, land.len() as int)
    &&& report.invalid_interior_boundary_refs@ == dangling_segments(
        interior,
        known,
        interior.len() as int,
    )
    &&& report.negative_area_elements@ == reported_ids(
        entries,
        |i: int| has_negative_area(entries, known, shapes, i),
        entries.len() as int,
    )
    &&& report.zero_area_elements@ == reported_ids(
        entries,
        |i: int| has_zero_area(entries, known, shapes, i),
        entries.len() as int,
    )
    &&& report.concave_quads@ == reported_ids(
        entries,
        |i: int| is_concave_quad(entries, known, shapes, i),
        entries.len() as int,
    )
    &&& report.orientation_conflicts@ == orientation_conflicts(claims_of(entries))
}

/// An id is among those reported of the first `n` elements exactly when it is
/// the id of one of them of which `reported` holds.
pub proof fn lemma_reported_ids(
    entries: Seq<(u32, Seq<u32>)>,
    reported: spec_fn(int) -> bool,
    n: int,
    id: u32,
)
    requires
        0 <= n <= entries.len(),
    ensures
        reported_ids(entries, reported, n).contains(id) <==> exists|i: int|
            0 <= i < n && reported(i) && (#[trigger] entries[i]).0 == id,
    decreases n,
{
    if n > 0 {
        lemma_reported_ids(entries, reported, n - 1, id);
        let before = reported_ids(entries, reported, n - 1);
        let all = reported_ids(entries, reported, n);
        if all.contains(id) {
            let k = choose|k: int| 0 <= k < all.len() && all[k] == id;
            if reported(n - 1) && k == before.len() {
                assert(entries[n - 1].0 == id);
            } else {
                assert(before[k] == id);
                assert(before.contains(id));
            }
        }
        if exists|i: int| 0 <= i < n && reported(i) && (#[trigger] entries[i]).0 == id {
            let i = choose|i: int| 0 <= i < n && reported(i) && (#[trigger] entries[i]).0 == id;
            if i == n - 1 {
                assert(all[before.len() as int] == id);
            } else {
                assert(before.contains(id));
                let k = choose|k: int| 0 <= k < before.len() && before[k] == id;
                assert(all[k] == id);
            }
        }
    }
}

/// In a mesh whose elements have different ids, an element whose geometry
/// counts is reported by its area alone: with a negative area it is among
/// the elements of negative area and not among those without area, without
/// area it is among those without area and not among those of negative
/// area, and with a positive area it is among neither. A triangle is never
/// among the quadrilaterals that are not convex.
pub proof fn lemma_area_decides(
    entries: Seq<(u32, Seq<u32>)>,
    open: Seq<Seq<u32>>,
    land: Seq<Seq<u32>>,
    interior: Seq<Seq<u32>>,
    known: Set<u32>,
    shapes: Seq<ElementShape>,
    report: MeshValidation,
    i: int,
)
    requires
        is_report_of(entries, open, land, interior, known, shapes, report),
        crate::linked_map::distinct_keys(entries),
        measured(entries, known, shapes, i),
    ensures
        report.negative_area_elements@.contains(entries[i].0) <==> shapes[i].area
            == AreaSign::Negative,
        report.zero_area_elements@.contains(entries[i].0) <==> shapes[i].area == AreaSign::Zero,
        report.concave_quads@.contains(entries[i].0) <==> (entries[i].1.len() == 4
            && shapes[i].concave),
{
    let n = entries.len() as int;
    let id = entries[i].0;
    let negative = |k: int| has_negative_area(entries, known, shapes, k);
    let zero = |k: int| has_zero_area(entries, known, shapes, k);
    let concave = |k: int| is_concave_quad(entries, known, shapes, k);
    lemma_reported_ids(entries, negative, n, id);
    lemma_reported_ids(entries, zero, n, id);
    lemma_reported_ids(entries, concave, n, id);
    assert forall|k: int| 0 <= k < n && (#[trigger] entries[k]).0 == id implies k == i by {
        if k < i {
            assert(entries[k].0 != entries[i].0);
        }
        if i < k {
            assert(entries[i].0 != entries[k].0);
        }
    }
}

/// Where every reference is known, nothing dangles.
pub proof fn lemma_no_dangling_elements(entries: Seq<(u32, Seq<u32>)>, known: Set<u32>, n: int)
    requires
        n <= entries.len(),
        forall|i: int| 0 <= i < entries.len() ==> all_known((#[trigger] entries[i]).1, known),
    ensures
        dangling_elements(entries, known, n).len() == 0,
    decreases n,
{
    if n > 0 {
        lemma_no_dangling_elements(entries, known, n - 1);
        assert(all_known(entries[n - 1].1, known));
        lemma_dangling_empty(entries[n - 1].1, known);
    }
}

/// Where every segment names known nodes only, no segment is reported.
pub proof fn lemma_no_dangling_segments(segments: Seq<Seq<u32>>, known: Set<u32>, n: int)
    requires
        n <= segments.len(),
        forall|i: int| 0 <= i < segments.len() ==> all_known(#[trigger] segments[i], known),
    ensures
        dangling_segments(segments, known, n).len() == 0,
    decreases n,
{
    if n > 0 {
        lemma_no_dangling_segments(segments, known, n - 1);
    }
}

/// Lists the elements that name a node id which is not known.
pub fn check_element_refs(
    items: &Vec<(u32, &Vec<u32>)>,
    known: &HashSet<u32>,
    result: &mut MeshValidation,
)
    requires
        old(result).invalid_element_node_refs@.len() == 0,
    ensures
        refs_view(final(result).invalid_element_node_refs@) == dangling_elements(
            element_items_view(items@),
            known@,
            items@.len() as int,
        ),
        final(result).invalid_open_boundary_refs == old(result).invalid_open_boundary_refs,
        final(result).invalid_land_boundary_refs == old(result).invalid_land_boundary_refs,
        final(result).invalid_interior_boundary_refs == old(result).invalid_interior_boundary_refs,
        final(result).negative_area_elements == old(result).negative_area_elements,
        final(result).zero_area_elements == old(result).zero_area_elements,
        final(result).concave_quads == old(result).concave_quads,
        final(result).orientation_conflicts == old(result).orientation_conflicts,
{
    let ghost entries = element_items_view(items@);
    let mut i: usize = 0;
    assert(refs_view(result.invalid_element_node_refs@) == dangling_elements(entries, known@, 0));
    while i < items.len()
        invariant
            i <= items.len(),
            entries == element_items_view(items@),
            refs_view(result.invalid_element_node_refs@) == dangling_elements(
                entries,
                known@,
                i as int,
            ),
            result.invalid_open_boundary_refs == old(result).invalid_open_boundary_refs,
            result.invalid_land_boundary_refs == old(result).invalid_land_boundary_refs,
            result.invalid_interior_boundary_refs == old(result).invalid_interior_boundary_refs,
            result.negative_area_elements == old(result).negative_area_elements,
            result.zero_area_elements == old(result).zero_area_elements,
            result.concave_quads == old(result).concave_quads,
            result.orientation_conflicts == old(result).orientation_conflicts,
        decreases items.len() - i,
    {
        let invalid = dangling_ids(items[i].1, known);
        if invalid.len() > 0 {
            let ghost before = refs_view(result.invalid_element_node_refs@);
            result.invalid_element_node_refs.push((items[i].0, invalid));
            assert(refs_view(result.invalid_element_node_refs@) == before.push(
                (entries[i as int].0, dangling(entries[i as int].1, known@)),
            ));
        }
        i += 1;
    }
}

/// Lists the positions of the segments that name a node id which is not
/// known.
pub fn check_segment_refs(segments: &Vec<Vec<u32>>, known: &HashSet<u32>) -> (r: Vec<u32>)
    ensures
        r@ == dangling_segments(segments_view(segments@), known@, segments@.len() as int),
{
    let ghost all = segments_view(segments@);
    let mut out: Vec<u32> = Vec::new();
    let mut idx: usize = 0;
    while idx < segments.len()
        invariant
            idx <= segments.len(),
            all == segments_view(segments@),
            out@ == dangling_segments(all, known@, idx as int),
        decreases segments.len() - idx,
    {
        let invalid = dangling_ids(&segments[idx], known);
        proof {
            lemma_dangling_empty(all[idx as int], known@);
        }
        if invalid.len() > 0 {
            out.push(idx as u32);
        }
        idx += 1;
    }
    out
}

/// Whether every id is known.
pub fn ids_known(node_ids: &Vec<u32>, known: &HashSet<u32>) -> (r: bool)
    ensures
        r == all_known(node_ids@, known@),
{
    broadcast use vstd::std_specs::hash::group_hash_axioms;

    let mut i: usize = 0;
    while i < node_ids.len()
        invariant
            i <= node_ids.len(),
            forall|j: int| 0 <= j < i ==> known@.contains(#[trigger] node_ids@[j]),
        decreases node_ids.len() - i,
    {
        if !known.contains(&node_ids[i]) {
            return false;
        }
        i += 1;
    }
    true
}

/// Lists the elements with a negative area, with no area, and the
/// quadrilaterals that are not convex, going by what was measured.
///
/// An element that names a node id which is not known has no geometry and is
/// passed over, as is one that was not measured.
pub fn check_element_geometry(
    items: &Vec<(u32, &Vec<u32>)>,
    known: &HashSet<u32>,
    shapes: &Vec<ElementShape>,
    result: &mut MeshValidation,
)
    requires
        old(result).negative_area_elements@.len() == 0,
        old(result).zero_area_elements@.len() == 0,
        old(result).concave_quads@.len() == 0,
    ensures
        final(result).negative_area_elements@ == reported_ids(
            element_items_view(items@),
            |i: int| has_negative_area(element_items_view(items@), known@, shapes@, i),
            items@.len() as int,
        ),
        final(result).zero_area_elements@ == reported_ids(
            element_items_view(items@),
            |i: int| has_zero_area(element_items_view(items@), known@, shapes@, i),
            items@.len() as int,
        ),
        final(result).concave_quads@ == reported_ids(
            element_items_view(items@),
            |i: int| is_concave_quad(element_items_view(items@), known@, shapes@, i),
            items@.len() as int,
        ),
        final(result).invalid_element_node_refs == old(result).invalid_element_node_refs,
        final(result).invalid_open_boundary_refs == old(result).invalid_open_boundary_refs,
        final(result).invalid_land_boundary_refs == old(result).invalid_land_boundary_refs,
        final(result).invalid_interior_boundary_refs == old(result).invalid_interior_boundary_refs,
        final(result).orientation_conflicts == old(result).orientation_conflicts,
{
    let ghost entries = element_items_view(items@);
    let ghost negative = |i: int| has_negative_area(entries, known@, shapes@, i);
    let ghost zero = |i: int| has_zero_area(entries, known@, shapes@, i);
    let ghost concave = |i: int| is_concave_quad(entries, known@, shapes@, i);
    let mut k: usize = 0;
    while k < items.len()
        invariant
            k <= items.len(),
            entries == element_items_view(items@),
            negative == |i: int| has_negative_area(entries, known@, shapes@, i),
            zero == |i: int| has_zero_area(entries, known@, shapes@, i),
            concave == |i: int| is_concave_quad(entries, known@, shapes@, i),
            result.negative_area_elements@ == reported_ids(entries, negative, k as int),
            result.zero_area_elements@ == reported_ids(entries, zero, k as int),
            result.concave_quads@ == reported_ids(entries, concave, k as int),
            result.invalid_element_node_refs == old(result).invalid_element_node_refs,
            result.invalid_open_boundary_refs == old(result).invalid_open_boundary_refs,
            result.invalid_land_boundary_refs == old(result).invalid_land_boundary_refs,
            result.invalid_interior_boundary_refs == old(result).invalid_interior_boundary_refs,
            result.orientation_conflicts == old(result).orientation_conflicts,
        decreases items.len() - k,
    {
        let elem_id = items[k].0;
        let elem_nodes = items[k].1;
        let corners = elem_nodes.len();
        if k < shapes.len() && (corners == 3 || corners == 4) && ids_known(elem_nodes, known) {
            let shape = shapes[k];
            match shape.area {
                AreaSign::Negative => {
                    result.negative_area_elements.push(elem_id);
                },
                AreaSign::Zero => {
                    result.zero_area_elements.push(elem_id);
                },
                AreaSign::Positive => {},
            }
            if corners == 4 && shape.concave {
                result.concave_quads.push(elem_id);
            }
        }
        k += 1;
    }
}

impl Hgrid {
    /// Runs every check on the mesh and reports all that was found.
    ///
    /// `shapes` holds what was measured of the geometry of the elements, one
    /// entry for each element in insertion order; an element beyond the end
    /// of `shapes` counts as not measured. The references are held against
    /// the node store of the mesh. In a mesh whose elements and boundaries
    /// refer to its own node store, no reference dangles.
    pub fn check_validity(&self, shapes: &Vec<ElementShape>) -> (r: MeshValidation)
        ensures
            is_report_of(
                self.elements_view().entries(),
                group_or_empty(self.open_segments()),
                group_or_empty(self.land_segments()),
                group_or_empty(self.interior_segments()),
                self.nodes_view().id_set(),
                shapes@,
                r,
            ),
            self.consistent() ==> r.structurally_valid(),
    {
        let mut result = MeshValidation::default();
        let node_ids = self.nodes().known_ids();
        let items = self.elements().items();
        let ghost entries = self.elements_view().entries();
        check_element_refs(&items, &node_ids, &mut result);
        proof {
            if self.consistent() {
                lemma_no_dangling_elements(entries, node_ids@, entries.len() as int);
            }
        }
        let mut open_refs: Vec<u32> = Vec::new();
        let mut land_refs: Vec<u32> = Vec::new();
        let mut interior_refs: Vec<u32> = Vec::new();
        if let Some(boundaries) = self.boundaries() {
            if let Some(open) = boundaries.open() {
                open_refs = check_segment_refs(open.nodes_ids(), &node_ids);
            }
            if let Some(land) = boundaries.land() {
                land_refs = check_segment_refs(land.nodes_ids(), &node_ids);
            }
            if let Some(interior) = boundaries.interior() {
                interior_refs = check_segment_refs(interior.nodes_ids(), &node_ids);
            }
        }
        proof {
            let open = group_or_empty(self.open_segments());
            let land = group_or_empty(self.land_segments());
            let interior = group_or_empty(self.interior_segments());
            assert(open_refs@ =~= dangling_segments(open, node_ids@, open.len() as int));
            assert(land_refs@ =~= dangling_segments(land, node_ids@, land.len() as int));
            assert(interior_refs@ =~= dangling_segments(
                interior,
                node_ids@,
                interior.len() as int,
            ));
            if self.consistent() {
                lemma_no_dangling_segments(open, node_ids@, open.len() as int);
                lemma_no_dangling_segments(land, node_ids@, land.len() as int);
                lemma_no_dangling_segments(interior, node_ids@, interior.len() as int);
            }
        }
        result.invalid_open_boundary_refs = open_refs;
        result.invalid_land_boundary_refs = land_refs;
        result.invalid_interior_boundary_refs = interior_refs;
        check_element_geometry(&items, &node_ids, shapes, &mut result);
        let claims = collect_claims(&items);
        result.orientation_conflicts = find_orientation_conflicts(&claims);
        result
    }
}

} // verus!
