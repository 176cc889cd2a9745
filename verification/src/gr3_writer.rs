//! The text of a mesh file.
//!
//! The nodes are written under the numbers 1, 2, 3 and so on, in their
//! order, and the elements and boundaries name them by those numbers. The
//! floating-point numbers of the nodes are taken as they were written out
//! by the caller.

use crate::boundaries::{group_or_empty, segments_view};
use crate::gr3::Gr3ParserOutput;
use crate::linked_map::{
    distinct_keys, element_items_view, element_map_iter, keys_of, node_items_view, node_map_iter,
    NodeValue,
};
use crate::text::{decimal, push_decimal};
use std::collections::HashMap;
use vstd::prelude::*;
use vstd::std_specs::hash::group_hash_axioms;

verus! {

/// The numbers of a node as they are to be written: its two coordinates and
/// each of its scalar values.
pub type NodeTexts = (String, String, Vec<String>);

/// The numbers of a node as plain values.
pub type NodeTextsView = (Seq<char>, Seq<char>, Seq<Seq<char>>);

/// The numbers of the nodes as plain values.
pub open spec fn texts_view(numbers: Seq<NodeTexts>) -> Seq<NodeTextsView> {
    numbers.map_values(|n: NodeTexts| (n.0@, n.1@, n.2@.map_values(|v: String| v@)))
}

/// The first line: the reference system and the description, with a blank
/// between them where both are there.
pub open spec fn first_line(crs: Seq<char>, description: Seq<char>) -> Seq<char> {
    if crs.len() == 0 {
        description
    } else if description.len() == 0 {
        crs
    } else {
        crs + " "@ + description
    }
}

/// Texts with a blank between each two of them.
pub open spec fn joined(texts: Seq<Seq<char>>) -> Seq<char>
    decreases texts.len(),
{
    if texts.len() == 0 {
        Seq::empty()
    } else if texts.len() == 1 {
        texts[0]
    } else {
        joined(texts.drop_last()) + " "@ + texts.last()
    }
}

/// The line of the node at position `i`: its number, its coordinates and
/// its values, or the mark of a node without values.
pub open spec fn gr3_node_line(i: int, has_values: bool, texts: NodeTextsView) -> Seq<char> {
    "\n"@ + decimal((i + 1) as nat) + " "@ + texts.0 + " "@ + texts.1 + " "@ + (if has_values {
        joined(texts.2)
    } else {
        "-99999."@
    })
}

/// The lines of the first `n` nodes.
pub open spec fn gr3_node_lines(
    nodes: Seq<(u32, NodeValue)>,
    numbers: Seq<NodeTextsView>,
    n: int,
) -> Seq<char>
    decreases n,
{
    if n <= 0 {
        Seq::empty()
    } else {
        gr3_node_lines(nodes, numbers, n - 1) + gr3_node_line(
            n - 1,
            nodes[n - 1].1.1 is Some,
            numbers[n - 1],
        )
    }
}

/// The number under which the node with this id is written.
pub open spec fn number_of(ids: Seq<u32>, id: u32) -> nat {
    (ids.index_of(id) + 1) as nat
}

/// The numbers of the nodes with these ids, each with a blank before it.
pub open spec fn numbers_listed(ids: Seq<u32>, node_ids: Seq<u32>) -> Seq<char>
    decreases node_ids.len(),
{
    if node_ids.len() == 0 {
        Seq::empty()
    } else {
        numbers_listed(ids, node_ids.drop_last()) + " "@ + decimal(number_of(ids, node_ids.last()))
    }
}

/// The numbers of the nodes with these ids, each on a line of its own.
pub open spec fn numbers_below(ids: Seq<u32>, node_ids: Seq<u32>) -> Seq<char>
    decreases node_ids.len(),
{
    if node_ids.len() == 0 {
        Seq::empty()
    } else {
        numbers_below(ids, node_ids.drop_last()) + "\n"@ + decimal(number_of(ids, node_ids.last()))
    }
}

/// The lines of the first `n` elements: the number of the element, the
/// number of its nodes and the numbers of its nodes.
pub open spec fn gr3_element_lines(ids: Seq<u32>, elements: Seq<(u32, Seq<u32>)>, n: int) -> Seq<
    char,
>
    decreases n,
{
    if n <= 0 {
        Seq::empty()
    } else {
        gr3_element_lines(ids, elements, n - 1) + "\n"@ + decimal(n as nat) + " "@ + decimal(
            elements[n - 1].1.len(),
        ) + numbers_listed(ids, elements[n - 1].1)
    }
}

/// The number of node ids in all segments.
pub open spec fn total_nodes(segments: Seq<Seq<u32>>) -> nat
    decreases segments.len(),
{
    if segments.len() == 0 {
        0
    } else {
        total_nodes(segments.drop_last()) + segments.last().len()
    }
}

/// The lines of the first `n` segments of a group: for each the number of
/// its nodes, what the segment is, and the numbers of its nodes.
pub open spec fn gr3_segment_lines(
    ids: Seq<u32>,
    segments: Seq<Seq<u32>>,
    mark: Seq<char>,
    n: int,
) -> Seq<char>
    decreases n,
{
    if n <= 0 {
        Seq::empty()
    } else {
        gr3_segment_lines(ids, segments, mark, n - 1) + "\n"@ + decimal(segments[n - 1].len())
            + mark + decimal(n as nat) + numbers_below(ids, segments[n - 1])
    }
}

/// The boundaries of a file: nothing where no group is there, else the
/// counts and the segments of the open boundaries, then the counts of the
/// land and interior boundaries together and their segments, the land
/// boundaries marked 0 and the interior ones marked 1.
pub open spec fn gr3_boundary_lines(
    ids: Seq<u32>,
    open: Option<Seq<Seq<u32>>>,
    land: Option<Seq<Seq<u32>>>,
    interior: Option<Seq<Seq<u32>>>,
) -> Seq<char> {
    if open is None && land is None && interior is None {
        Seq::empty()
    } else {
        let o = group_or_empty(open);
        let l = group_or_empty(land);
        let i = group_or_empty(interior);
        "\n"@ + decimal(o.len()) + " ! total number of open boundaries"@ + "\n"@ + decimal(
            total_nodes(o),
        ) + " ! total number of open boundary nodes"@ + gr3_segment_lines(
            ids,
            o,
            " ! number of nodes for ocean_boundary_"@,
            o.len() as int,
        ) + "\n"@ + decimal(l.len() + i.len()) + " ! total number of non-ocean boundaries"@ + "\n"@
            + decimal(total_nodes(l) + total_nodes(i))
            + " ! total number of non-ocean boundaries nodes"@ + gr3_segment_lines(
            ids,
            l,
            " 0 ! number of nodes for land_boundary_"@,
            l.len() as int,
        ) + gr3_segment_lines(
            ids,
            i,
            " 1 ! number of nodes for interior_boundary_"@,
            i.len() as int,
        )
    }
}

/// Every id of the list is among `ids`.
pub open spec fn ids_resolve(ids: Seq<u32>, node_ids: Seq<u32>) -> bool {
    forall|k: int| 0 <= k < node_ids.len() ==> ids.contains(#[trigger] node_ids[k])
}

/// Every node id of every segment is among `ids`.
pub open spec fn segments_resolve(ids: Seq<u32>, segments: Seq<Seq<u32>>) -> bool {
    forall|k: int| 0 <= k < segments.len() ==> ids_resolve(ids, #[trigger] segments[k])
}

/// Every node id that an element or a boundary segment of the file names is
/// the id of a node of the file.
pub open spec fn all_resolve(gr3: Gr3ParserOutput) -> bool {
    let ids = keys_of(gr3.node_entries());
    &&& gr3.element_entries() matches Some(elements) ==> forall|k: int|
        0 <= k < elements.len() ==> ids_resolve(ids, (#[trigger] elements[k]).1)
    &&& segments_resolve(ids, group_or_empty(gr3.open_segments()))
    &&& segments_resolve(ids, group_or_empty(gr3.land_segments()))
    &&& segments_resolve(ids, group_or_empty(gr3.interior_segments()))
}

/// The text of a mesh file.
pub open spec fn gr3_text(gr3: Gr3ParserOutput, crs: Seq<char>, numbers: Seq<NodeTextsView>) -> Seq<
    char,
> {
    let ids = keys_of(gr3.node_entries());
    let elements = match gr3.element_entries() {
        Some(e) => e,
        None => Seq::empty(),
    };
    first_line(
        crs,
        match gr3.description_view() {
            Some(d) => d,
            None => Seq::empty(),
        },
    ) + "\n"@ + decimal(elements.len()) + " "@ + decimal(gr3.node_entries().len())
        + gr3_node_lines(gr3.node_entries(), numbers, gr3.node_entries().len() as int)
        + gr3_element_lines(ids, elements, elements.len() as int) + gr3_boundary_lines(
        ids,
        gr3.open_segments(),
        gr3.land_segments(),
        gr3.interior_segments(),
    )
}

/// Appends texts with a blank between each two of them.
fn push_joined(out: &mut String, texts: &Vec<String>)
    ensures
        final(out)@ == old(out)@ + joined(texts@.map_values(|v: String| v@)),
{
    let ghost all = texts@.map_values(|v: String| v@);
    let mut i: usize = 0;
    assert(all.take(0) == Seq::<Seq<char>>::empty());
    while i < texts.len()
        invariant
            i <= texts.len(),
            all == texts@.map_values(|v: String| v@),
            out@ == old(out)@ + joined(all.take(i as int)),
        decreases texts.len() - i,
    {
        if i > 0 {
            out.append(" ");
        }
        out.append(texts[i].as_str());
        proof {
            let next = all.take(i + 1);
            assert(next.drop_last() == all.take(i as int));
            assert(next.last() == all[i as int]);
            if i == 0 {
                assert(next[0] == all[0]);
                assert(joined(all.take(0)) == Seq::<char>::empty());
            }
            assert(out@ =~= old(out)@ + joined(next));
        }
        i += 1;
    }
    assert(all.take(i as int) == all);
}

/// The number under which each node is written.
fn number_nodes(ids: &Vec<u32>) -> (r: HashMap<u32, usize>)
    requires
        ids@.no_duplicates(),
    ensures
        forall|id: u32| r@.contains_key(id) <==> ids@.contains(id),
        forall|id: u32| #[trigger] r@.contains_key(id) ==> r@[id] == number_of(ids@, id),
{
    broadcast use group_hash_axioms;

    let mut numbers: HashMap<u32, usize> = HashMap::new();
    let mut i: usize = 0;
    while i < ids.len()
        invariant
            i <= ids.len(),
            ids@.no_duplicates(),
            forall|id: u32| numbers@.contains_key(id) <==> ids@.take(i as int).contains(id),
            forall|id: u32| #[trigger]
                numbers@.contains_key(id) ==> numbers@[id] == number_of(ids@, id),
        decreases ids.len() - i,
    {
        let id = ids[i];
        let ghost before = ids@.take(i as int);
        proof {
            assert(ids@.contains(id));
            let k = ids@.index_of(id);
            assert(ids@[k] == id);
            assert(k == i);
        }
        numbers.insert(id, i + 1);
        proof {
            let after = ids@.take(i + 1);
            assert(after == before.push(id));
            assert forall|other: u32| numbers@.contains_key(other) <==> after.contains(other) by {
                if before.contains(other) {
                    let j = choose|j: int| 0 <= j < before.len() && before[j] == other;
                    assert(after[j] == other);
                }
                if other == id {
                    assert(after[i as int] == id);
                }
                if after.contains(other) && other != id {
                    let j = choose|j: int| 0 <= j < after.len() && after[j] == other;
                    assert(before[j] == other);
                }
            }
        }
        i += 1;
    }
    assert(ids@.take(i as int) == ids@);
    numbers
}

/// Appends the numbers of the nodes with these ids, each after `before`.
/// Nothing is promised of the text where an id has no number.
fn push_numbers(
    out: &mut String,
    numbers: &HashMap<u32, usize>,
    node_ids: &Vec<u32>,
    newline: bool,
    Ghost(ids): Ghost<Seq<u32>>,
) -> (ok: bool)
    requires
        forall|id: u32| numbers@.contains_key(id) <==> ids.contains(id),
        forall|id: u32| #[trigger] numbers@.contains_key(id) ==> numbers@[id] == number_of(ids, id),
    ensures
        ok == ids_resolve(ids, node_ids@),
        ok ==> final(out)@ == old(out)@ + (if newline {
            numbers_below(ids, node_ids@)
        } else {
            numbers_listed(ids, node_ids@)
        }),
{
    broadcast use group_hash_axioms;

    let mut i: usize = 0;
    assert(node_ids@.take(0) == Seq::<u32>::empty());
    while i < node_ids.len()
        invariant
            i <= node_ids.len(),
            forall|id: u32| numbers@.contains_key(id) <==> ids.contains(id),
            forall|id: u32| #[trigger]
                numbers@.contains_key(id) ==> numbers@[id] == number_of(ids, id),
            ids_resolve(ids, node_ids@.take(i as int)),
            out@ == old(out)@ + (if newline {
                numbers_below(ids, node_ids@.take(i as int))
            } else {
                numbers_listed(ids, node_ids@.take(i as int))
            }),
        decreases node_ids.len() - i,
    {
        let id = node_ids[i];
        let number = match numbers.get(&id) {
            Some(n) => *n,
            None => {
                assert(!ids.contains(node_ids@[i as int]));
                return false;
            },
        };
        if newline {
            out.append("\n");
        } else {
            out.append(" ");
        }
        push_decimal(out, number as u128);
        proof {
            let seen = node_ids@.take(i as int);
            let next = node_ids@.take(i + 1);
            assert(next.drop_last() == seen);
            assert(next.last() == id);
            assert forall|k: int| 0 <= k < next.len() implies ids.contains(#[trigger] next[k]) by {
                if k < i {
                    assert(seen[k] == next[k]);
                }
            }
            assert(out@ =~= old(out)@ + (if newline {
                numbers_below(ids, next)
            } else {
                numbers_listed(ids, next)
            }));
        }
        i += 1;
    }
    assert(node_ids@.take(i as int) == node_ids@);
    true
}

/// The number of node ids in all segments.
fn count_nodes(segments: &Vec<Vec<u32>>) -> (r: u128)
    ensures
        r == total_nodes(segments_view(segments@)),
        r <= segments@.len() * usize::MAX,
{
    let ghost all = segments_view(segments@);
    let mut total: u128 = 0;
    let mut i: usize = 0;
    assert(all.take(0) == Seq::<Seq<u32>>::empty());
    while i < segments.len()
        invariant
            i <= segments.len(),
            all == segments_view(segments@),
            total == total_nodes(all.take(i as int)),
            total <= i * usize::MAX,
        decreases segments.len() - i,
    {
        let ghost next = all.take(i + 1);
        proof {
            assert(next.drop_last() == all.take(i as int));
            assert(next.last() == all[i as int]);
            assert((i + 1) * usize::MAX == i * usize::MAX + usize::MAX) by (nonlinear_arith);
            assert(i * usize::MAX <= usize::MAX * usize::MAX) by (nonlinear_arith)
                requires
                    i <= usize::MAX,
            ;
            assert(usize::MAX * usize::MAX + usize::MAX < u128::MAX) by (nonlinear_arith)
                requires
                    usize::MAX <= 0xffff_ffff_ffff_ffff,
            ;
        }
        total = total + segments[i].len() as u128;
        i += 1;
    }
    assert(all.take(i as int) == all);
    total
}

/// Appends the lines of the segments of a group.
fn push_segment_lines(
    out: &mut String,
    numbers: &HashMap<u32, usize>,
    segments: &Vec<Vec<u32>>,
    mark: &str,
    Ghost(ids): Ghost<Seq<u32>>,
) -> (ok: bool)
    requires
        forall|id: u32| numbers@.contains_key(id) <==> ids.contains(id),
        forall|id: u32| #[trigger] numbers@.contains_key(id) ==> numbers@[id] == number_of(ids, id),
    ensures
        ok == segments_resolve(ids, segments_view(segments@)),
        ok ==> final(out)@ == old(out)@ + gr3_segment_lines(
            ids,
            segments_view(segments@),
            mark@,
            segments@.len() as int,
        ),
{
    let ghost all = segments_view(segments@);
    let mut i: usize = 0;
    while i < segments.len()
        invariant
            i <= segments.len(),
            all == segments_view(segments@),
            forall|id: u32| numbers@.contains_key(id) <==> ids.contains(id),
            forall|id: u32| #[trigger]
                numbers@.contains_key(id) ==> numbers@[id] == number_of(ids, id),
            forall|k: int| 0 <= k < i ==> ids_resolve(ids, #[trigger] all[k]),
            out@ == old(out)@ + gr3_segment_lines(ids, all, mark@, i as int),
        decreases segments.len() - i,
    {
        let ghost before = out@;
        out.append("\n");
        push_decimal(out, segments[i].len() as u128);
        out.append(mark);
        push_decimal(out, (i + 1) as u128);
        if !push_numbers(out, numbers, &segments[i], true, Ghost(ids)) {
            assert(!ids_resolve(ids, all[i as int]));
            return false;
        }
        assert(out@ =~= old(out)@ + gr3_segment_lines(ids, all, mark@, i as int + 1));
        i += 1;
    }
    true
}

/// Appends the lines of the nodes, and lists their ids.
fn push_node_lines(
    out: &mut String,
    items: &Vec<(u32, &crate::linked_map::NodeRecord)>,
    numbers: &Vec<NodeTexts>,
) -> (node_ids: Vec<u32>)
    requires
        items@.len() == numbers@.len(),
    ensures
        node_ids@ == keys_of(node_items_view(items@)),
        final(out)@ == old(out)@ + gr3_node_lines(
            node_items_view(items@),
            texts_view(numbers@),
            items@.len() as int,
        ),
{
    let ghost nodes = node_items_view(items@);
    let ghost ids = keys_of(nodes);
    let ghost texts = texts_view(numbers@);
    let mut node_ids: Vec<u32> = Vec::new();
    let mut i: usize = 0;
    while i < items.len()
        invariant
            i <= items.len(),
            items@.len() == numbers@.len(),
            nodes == node_items_view(items@),
            ids == keys_of(nodes),
            texts == texts_view(numbers@),
            node_ids@ == ids.take(i as int),
            out@ == old(out)@ + gr3_node_lines(nodes, texts, i as int),
        decreases items.len() - i,
    {
        let ghost before = out@;
        out.append("\n");
        push_decimal(out, (i as u128) + 1);
        out.append(" ");
        out.append(numbers[i].0.as_str());
        out.append(" ");
        out.append(numbers[i].1.as_str());
        out.append(" ");
        match &items[i].1.1 {
            Some(_) => {
                push_joined(out, &numbers[i].2);
            },
            None => {
                out.append("-99999.");
            },
        }
        node_ids.push(items[i].0);
        proof {
            assert(ids.take(i + 1) == ids.take(i as int).push(ids[i as int]));
            assert(out@ =~= before + gr3_node_line(
                i as int,
                nodes[i as int].1.1 is Some,
                texts[i as int],
            ));
        }
        i += 1;
    }
    assert(ids.take(i as int) == ids);
    node_ids
}

/// Appends the lines of the elements.
fn push_gr3_element_lines(
    out: &mut String,
    numbers: &HashMap<u32, usize>,
    items: &Vec<(u32, &Vec<u32>)>,
    Ghost(ids): Ghost<Seq<u32>>,
) -> (ok: bool)
    requires
        forall|id: u32| numbers@.contains_key(id) <==> ids.contains(id),
        forall|id: u32| #[trigger] numbers@.contains_key(id) ==> numbers@[id] == number_of(ids, id),
    ensures
        ok == (forall|k: int|
            0 <= k < items@.len() ==> ids_resolve(
                ids,
                (#[trigger] element_items_view(items@)[k]).1,
            )),
        ok ==> final(out)@ == old(out)@ + gr3_element_lines(
            ids,
            element_items_view(items@),
            items@.len() as int,
        ),
{
    let ghost elements = element_items_view(items@);
    let mut k: usize = 0;
    while k < items.len()
        invariant
            k <= items.len(),
            elements == element_items_view(items@),
            forall|id: u32| numbers@.contains_key(id) <==> ids.contains(id),
            forall|id: u32| #[trigger]
                numbers@.contains_key(id) ==> numbers@[id] == number_of(ids, id),
            forall|j: int| 0 <= j < k ==> ids_resolve(ids, (#[trigger] elements[j]).1),
            out@ == old(out)@ + gr3_element_lines(ids, elements, k as int),
        decreases items.len() - k,
    {
        out.append("\n");
        push_decimal(out, (k as u128) + 1);
        out.append(" ");
        push_decimal(out, items[k].1.len() as u128);
        if !push_numbers(out, numbers, items[k].1, false, Ghost(ids)) {
            assert(!ids_resolve(ids, elements[k as int].1));
            return false;
        }
        assert(out@ =~= old(out)@ + gr3_element_lines(ids, elements, k as int + 1));
        k += 1;
    }
    true
}

/// Appends the counts and the segments of the boundaries.
fn push_boundary_lines(
    out: &mut String,
    numbers: &HashMap<u32, usize>,
    open: &Vec<Vec<u32>>,
    land: &Vec<Vec<u32>>,
    interior: &Vec<Vec<u32>>,
    Ghost(ids): Ghost<Seq<u32>>,
) -> (ok: bool)
    requires
        forall|id: u32| numbers@.contains_key(id) <==> ids.contains(id),
        forall|id: u32| #[trigger] numbers@.contains_key(id) ==> numbers@[id] == number_of(ids, id),
        total_nodes(segments_view(land@)) + total_nodes(segments_view(interior@)) <= u128::MAX,
    ensures
        ok == (segments_resolve(ids, segments_view(open@)) && segments_resolve(
            ids,
            segments_view(land@),
        ) && segments_resolve(ids, segments_view(interior@))),
        ok ==> final(out)@ == old(out)@ + gr3_boundary_lines(
            ids,
            Some(segments_view(open@)),
            Some(segments_view(land@)),
            Some(segments_view(interior@)),
        ),
{
    out.append("\n");
    push_decimal(out, open.len() as u128);
    out.append(" ! total number of open boundaries");
    out.append("\n");
    push_decimal(out, count_nodes(open));
    out.append(" ! total number of open boundary nodes");
    if !push_segment_lines(out, numbers, open, " ! number of nodes for ocean_boundary_", Ghost(ids)) {
        return false;
    }
    out.append("\n");
    push_decimal(out, land.len() as u128 + interior.len() as u128);
    out.append(" ! total number of non-ocean boundaries");
    out.append("\n");
    let land_nodes = count_nodes(land);
    let interior_nodes = count_nodes(interior);
    push_decimal(out, land_nodes + interior_nodes);
    out.append(" ! total number of non-ocean boundaries nodes");
    if !push_segment_lines(out, numbers, land, " 0 ! number of nodes for land_boundary_", Ghost(ids)) {
        return false;
    }
    if !push_segment_lines(
        out,
        numbers,
        interior,
        " 1 ! number of nodes for interior_boundary_",
        Ghost(ids),
    ) {
        return false;
    }
    assert(out@ =~= old(out)@ + gr3_boundary_lines(
        ids,
        Some(segments_view(open@)),
        Some(segments_view(land@)),
        Some(segments_view(interior@)),
    ));
    true
}

impl Gr3ParserOutput {
    /// The text of the mesh file, or nothing where an element or a boundary
    /// segment names a node id that is not the id of a node.
    ///
    /// `crs` is the definition of the reference system for the first line,
    /// empty where there is none. `numbers` holds, for every node in order,
    /// its two coordinates and its scalar values as they are to be written.
    /// The number of nodes of the land and interior boundaries together must
    /// fit into 128 bits.
    pub fn to_gr3_string(&self, crs: &str, numbers: &Vec<NodeTexts>) -> (r: Option<String>)
        requires
            numbers@.len() == self.node_entries().len(),
            total_nodes(group_or_empty(self.land_segments())) + total_nodes(
                group_or_empty(self.interior_segments()),
            ) <= u128::MAX,
        ensures
            r is Some <==> all_resolve(*self),
            r matches Some(text) ==> text@ == gr3_text(*self, crs@, texts_view(numbers@)),
    {
        let ghost texts = texts_view(numbers@);
        let ghost nodes = self.node_entries();
        let ghost ids = keys_of(nodes);
        let mut out = String::new();
        let description = self.description();
        let has_crs = crs.unicode_len() > 0;
        if has_crs {
            out.append(crs);
        }
        match &description {
            Some(d) => {
                if d.as_str().unicode_len() > 0 {
                    if has_crs {
                        out.append(" ");
                    }
                    out.append(d.as_str());
                }
            },
            None => {},
        }
        assert(out@ =~= first_line(
            crs@,
            match self.description_view() {
                Some(d) => d,
                None => Seq::empty(),
            },
        ));
        let items = node_map_iter(self.nodes_ref());
        let element_items = match self.elements_ref() {
            Some(elements) => element_map_iter(elements),
            None => Vec::new(),
        };
        let ghost elements = element_items_view(element_items@);
        assert(elements == (match self.element_entries() {
            Some(e) => e,
            None => Seq::empty(),
        }));
        out.append("\n");
        push_decimal(&mut out, element_items.len() as u128);
        out.append(" ");
        push_decimal(&mut out, items.len() as u128);
        let node_ids = push_node_lines(&mut out, &items, numbers);
        proof {
            assert(distinct_keys(nodes));
            assert(ids.no_duplicates());
        }
        let node_numbers = number_nodes(&node_ids);
        if !push_gr3_element_lines(&mut out, &node_numbers, &element_items, Ghost(ids)) {
            return None;
        }
        let no_segments: Vec<Vec<u32>> = Vec::new();
        assert(segments_view(no_segments@) == Seq::<Seq<u32>>::empty());
        let open_given = self.open_boundaries_ref();
        let land_given = self.land_boundaries_ref();
        let interior_given = self.interior_boundaries_ref();
        if open_given.is_none() && land_given.is_none() && interior_given.is_none() {
            assert(segments_resolve(ids, Seq::<Seq<u32>>::empty()));
            assert(out@ =~= gr3_text(*self, crs@, texts));
            return Some(out);
        }
        let open = match open_given {
            Some(s) => s,
            None => &no_segments,
        };
        let land = match land_given {
            Some(s) => s,
            None => &no_segments,
        };
        let interior = match interior_given {
            Some(s) => s,
            None => &no_segments,
        };
        assert(segments_view(open@) == group_or_empty(self.open_segments()));
        assert(segments_view(land@) == group_or_empty(self.land_segments()));
        assert(segments_view(interior@) == group_or_empty(self.interior_segments()));
        if !push_boundary_lines(&mut out, &node_numbers, open, land, interior, Ghost(ids)) {
            return None;
        }
        assert(gr3_boundary_lines(
            ids,
            Some(segments_view(open@)),
            Some(segments_view(land@)),
            Some(segments_view(interior@)),
        ) == gr3_boundary_lines(
            ids,
            self.open_segments(),
            self.land_segments(),
            self.interior_segments(),
        ));
        assert(out@ =~= gr3_text(*self, crs@, texts));
        Some(out)
    }
}

} // verus!
