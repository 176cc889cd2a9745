//! The mesh in the 2DM text format, as far as it is made of whole numbers:
//! the element lines and the node strings of the boundaries.

use crate::boundaries::segments_view;
use crate::gr3::Gr3ParserOutput;
use crate::linked_map::{
    element_items_view, element_map_iter, node_items_view, node_map_iter, NodeValue,
};
use crate::text::{decimal, push_decimal};
use vstd::prelude::*;

verus! {

/// The numbers in decimal, each followed by a blank.
pub open spec fn spaced(ids: Seq<u32>) -> Seq<char>
    decreases ids.len(),
{
    if ids.len() == 0 {
        Seq::empty()
    } else {
        spaced(ids.drop_last()) + decimal(ids.last() as nat) + " "@
    }
}

/// The numbers in decimal, each with a blank before it.
pub open spec fn listed(ids: Seq<u32>) -> Seq<char>
    decreases ids.len(),
{
    if ids.len() == 0 {
        Seq::empty()
    } else {
        listed(ids.drop_last()) + " "@ + decimal(ids.last() as nat)
    }
}

/// The line of an element with `corners` nodes: the card, the element's id
/// and the ids of its nodes. An element with another number of nodes has no
/// line.
pub open spec fn element_line(e: (u32, Seq<u32>), corners: nat) -> Seq<char> {
    if e.1.len() != corners {
        Seq::empty()
    } else if corners == 3 {
        "E3T "@ + decimal(e.0 as nat) + listed(e.1) + "\n"@
    } else {
        "E4Q "@ + decimal(e.0 as nat) + listed(e.1) + "\n"@
    }
}

/// The lines of the elements with `corners` nodes, in order.
pub open spec fn element_lines(entries: Seq<(u32, Seq<u32>)>, corners: nat) -> Seq<char>
    decreases entries.len(),
{
    if entries.len() == 0 {
        Seq::empty()
    } else {
        element_lines(entries.drop_last(), corners) + element_line(entries.last(), corners)
    }
}

/// The node string of a segment: its node ids, the last of them with a minus
/// sign before it. A segment without nodes has no node string.
pub open spec fn node_string(segment: Seq<u32>) -> Seq<char> {
    if segment.len() == 0 {
        Seq::empty()
    } else {
        "NS "@ + spaced(segment.drop_last()) + "-"@ + decimal(segment.last() as nat) + "\n"@
    }
}

/// The node strings of the segments, in order.
pub open spec fn node_strings(segments: Seq<Seq<u32>>) -> Seq<char>
    decreases segments.len(),
{
    if segments.len() == 0 {
        Seq::empty()
    } else {
        node_strings(segments.drop_last()) + node_string(segments.last())
    }
}

/// The node strings of an optional group of segments.
pub open spec fn group_strings(group: Option<Seq<Seq<u32>>>) -> Seq<char> {
    match group {
        Some(segments) => node_strings(segments),
        None => Seq::empty(),
    }
}

/// The bit pattern of -99999, the value written for a node that has none.
pub const MISSING_VALUE: u64 = 0xc0f8_69f0_0000_0000;

/// The three numbers of a node's line: its coordinates and its first scalar
/// value, or the value for a missing one.
pub open spec fn nodal_numbers(e: (u32, NodeValue)) -> (u64, u64, u64) {
    (
        e.1.0.0,
        e.1.0.1,
        match e.1.1 {
            Some(values) => if values.len() > 0 {
                values[0]
            } else {
                MISSING_VALUE
            },
            None => MISSING_VALUE,
        },
    )
}

/// Three numbers written out, as plain values.
pub open spec fn written_numbers(numbers: Seq<(String, String, String)>) -> Seq<
    (Seq<char>, Seq<char>, Seq<char>),
> {
    numbers.map_values(|n: (String, String, String)| (n.0@, n.1@, n.2@))
}

/// The line of a node: the card, the node's id and its three numbers as they
/// were written out.
pub open spec fn node_line(id: u32, numbers: (Seq<char>, Seq<char>, Seq<char>)) -> Seq<char> {
    "ND "@ + decimal(id as nat) + " "@ + numbers.0 + " "@ + numbers.1 + " "@ + numbers.2 + "\n"@
}

/// The lines of the first `n` nodes.
pub open spec fn node_lines(
    entries: Seq<(u32, NodeValue)>,
    numbers: Seq<(Seq<char>, Seq<char>, Seq<char>)>,
    n: int,
) -> Seq<char>
    decreases n,
{
    if n <= 0 {
        Seq::empty()
    } else {
        node_lines(entries, numbers, n - 1) + node_line(entries[n - 1].0, numbers[n - 1])
    }
}

/// Appends the numbers in decimal, each with a blank before it.
fn push_listed(out: &mut String, ids: &Vec<u32>)
    ensures
        final(out)@ == old(out)@ + listed(ids@),
{
    let mut i: usize = 0;
    assert(ids@.take(0) == Seq::<u32>::empty());
    while i < ids.len()
        invariant
            i <= ids.len(),
            out@ == old(out)@ + listed(ids@.take(i as int)),
        decreases ids.len() - i,
    {
        out.append(" ");
        push_decimal(out, ids[i] as u128);
        proof {
            let next = ids@.take(i + 1);
            assert(next.drop_last() == ids@.take(i as int));
            assert(next.last() == ids@[i as int]);
            assert(out@ =~= old(out)@ + listed(next));
        }
        i += 1;
    }
    assert(ids@.take(i as int) == ids@);
}

/// Appends the lines of the elements with `corners` nodes.
fn push_element_lines(out: &mut String, items: &Vec<(u32, &Vec<u32>)>, corners: usize)
    requires
        corners == 3 || corners == 4,
    ensures
        final(out)@ == old(out)@ + element_lines(element_items_view(items@), corners as nat),
{
    let ghost entries = element_items_view(items@);
    let mut k: usize = 0;
    assert(entries.take(0) == Seq::<(u32, Seq<u32>)>::empty());
    while k < items.len()
        invariant
            k <= items.len(),
            corners == 3 || corners == 4,
            entries == element_items_view(items@),
            out@ == old(out)@ + element_lines(entries.take(k as int), corners as nat),
        decreases items.len() - k,
    {
        let ghost before = out@;
        if items[k].1.len() == corners {
            if corners == 3 {
                out.append("E3T ");
            } else {
                out.append("E4Q ");
            }
            push_decimal(out, items[k].0 as u128);
            push_listed(out, items[k].1);
            out.append("\n");
        }
        proof {
            let next = entries.take(k + 1);
            assert(next.drop_last() == entries.take(k as int));
            assert(next.last() == entries[k as int]);
            assert(out@ =~= before + element_line(entries[k as int], corners as nat));
            assert(out@ =~= old(out)@ + element_lines(next, corners as nat));
        }
        k += 1;
    }
    assert(entries.take(k as int) == entries);
}

/// Appends the node string of a segment.
fn push_node_string(out: &mut String, segment: &Vec<u32>)
    ensures
        final(out)@ == old(out)@ + node_string(segment@),
{
    if segment.len() == 0 {
        assert(out@ =~= old(out)@ + node_string(segment@));
        return ;
    }
    out.append("NS ");
    let ghost start = out@;
    let ghost head = segment@.drop_last();
    let last = segment.len() - 1;
    let mut i: usize = 0;
    assert(head.take(0) == Seq::<u32>::empty());
    while i < last
        invariant
            i <= last,
            last == segment.len() - 1,
            head == segment@.drop_last(),
            out@ == start + spaced(head.take(i as int)),
        decreases last - i,
    {
        push_decimal(out, segment[i] as u128);
        out.append(" ");
        proof {
            let next = head.take(i + 1);
            assert(next.drop_last() == head.take(i as int));
            assert(next.last() == segment@[i as int]);
            assert(out@ =~= start + spaced(next));
        }
        i += 1;
    }
    assert(head.take(i as int) == head);
    out.append("-");
    push_decimal(out, segment[last] as u128);
    out.append("\n");
    assert(out@ =~= old(out)@ + node_string(segment@));
}

/// Appends the node strings of the segments, in order.
fn push_node_strings(out: &mut String, segments: &Vec<Vec<u32>>)
    ensures
        final(out)@ == old(out)@ + node_strings(segments_view(segments@)),
{
    let ghost all = segments_view(segments@);
    let mut i: usize = 0;
    assert(all.take(0) == Seq::<Seq<u32>>::empty());
    while i < segments.len()
        invariant
            i <= segments.len(),
            all == segments_view(segments@),
            out@ == old(out)@ + node_strings(all.take(i as int)),
        decreases segments.len() - i,
    {
        push_node_string(out, &segments[i]);
        proof {
            let next = all.take(i + 1);
            assert(next.drop_last() == all.take(i as int));
            assert(next.last() == all[i as int]);
            assert(out@ =~= old(out)@ + node_strings(next));
        }
        i += 1;
    }
    assert(all.take(i as int) == all);
}

impl Gr3ParserOutput {
    /// The three numbers of every node's line, in the order of the nodes:
    /// the coordinates and the first scalar value, or the value for a missing
    /// one.
    pub fn nodal_values(&self) -> (r: Vec<(u64, u64, u64)>)
        ensures
            r@ == self.node_entries().map_values(|e: (u32, NodeValue)| nodal_numbers(e)),
    {
        let items = node_map_iter(self.nodes_ref());
        let ghost entries = self.node_entries();
        let ghost target = entries.map_values(|e: (u32, NodeValue)| nodal_numbers(e));
        let mut out: Vec<(u64, u64, u64)> = Vec::new();
        let mut i: usize = 0;
        while i < items.len()
            invariant
                i <= items.len(),
                entries == node_items_view(items@),
                target == entries.map_values(|e: (u32, NodeValue)| nodal_numbers(e)),
                out@ == target.take(i as int),
            decreases items.len() - i,
        {
            let record = items[i].1;
            let value = match &record.1 {
                Some(v) => if v.len() > 0 {
                    v[0]
                } else {
                    MISSING_VALUE
                },
                None => MISSING_VALUE,
            };
            out.push((record.0.0, record.0.1, value));
            assert(target.take(i + 1) == target.take(i as int).push(target[i as int]));
            i += 1;
        }
        assert(target.take(i as int) == target);
        out
    }

    /// The mesh in the 2DM format: the header, the element lines, one line
    /// for every node and the node strings of the boundaries. `numbers`
    /// holds the three numbers of every node's line as they are to be
    /// written, in the order of the nodes.
    pub fn to_2dm_string(&self, numbers: &Vec<(String, String, String)>) -> (r: String)
        requires
            numbers@.len() == self.node_entries().len(),
        ensures
            r@ == "MESH2D\n"@ + (match self.element_entries() {
                Some(entries) => element_lines(entries, 3) + element_lines(entries, 4),
                None => Seq::empty(),
            }) + node_lines(
                self.node_entries(),
                written_numbers(numbers@),
                self.node_entries().len() as int,
            ) + group_strings(self.open_segments()) + group_strings(self.land_segments())
                + group_strings(self.interior_segments()),
    {
        let mut output = "MESH2D\n".to_owned();
        let elements = self.elements_to_2dm_string();
        output.append(elements.as_str());
        let ghost start = output@;
        let items = node_map_iter(self.nodes_ref());
        let ghost entries = self.node_entries();
        let ghost texts = written_numbers(numbers@);
        let mut i: usize = 0;
        while i < items.len()
            invariant
                i <= items.len(),
                items@.len() == numbers@.len(),
                entries == node_items_view(items@),
                texts == written_numbers(numbers@),
                output@ == start + node_lines(entries, texts, i as int),
            decreases items.len() - i,
        {
            let ghost before = output@;
            output.append("ND ");
            push_decimal(&mut output, items[i].0 as u128);
            output.append(" ");
            output.append(numbers[i].0.as_str());
            output.append(" ");
            output.append(numbers[i].1.as_str());
            output.append(" ");
            output.append(numbers[i].2.as_str());
            output.append("\n");
            assert(output@ =~= before + node_line(entries[i as int].0, texts[i as int]));
            assert(output@ =~= start + node_lines(entries, texts, i as int + 1));
            i += 1;
        }
        let ghost with_nodes = output@;
        let boundaries = self.boundaries_to_2dm_string();
        output.append(boundaries.as_str());
        assert(output@ =~= with_nodes + (group_strings(self.open_segments()) + group_strings(
            self.land_segments(),
        ) + group_strings(self.interior_segments())));
        output
    }

    /// The element lines of the 2DM format: the triangles in order, then the
    /// quadrilaterals in order.
    pub fn elements_to_2dm_string(&self) -> (r: String)
        ensures
            r@ == (match self.element_entries() {
                Some(entries) => element_lines(entries, 3) + element_lines(entries, 4),
                None => Seq::empty(),
            }),
    {
        let mut output = String::new();
        match self.elements_ref() {
            Some(elements) => {
                let items = element_map_iter(elements);
                push_element_lines(&mut output, &items, 3);
                push_element_lines(&mut output, &items, 4);
                assert(output@ =~= element_lines(self.element_entries()->0, 3) + element_lines(
                    self.element_entries()->0,
                    4,
                ));
            },
            None => {},
        }
        output
    }

    /// The node strings of the 2DM format: those of the open boundary
    /// segments, then of the land and of the interior ones.
    pub fn boundaries_to_2dm_string(&self) -> (r: String)
        ensures
            r@ == group_strings(self.open_segments()) + group_strings(self.land_segments())
                + group_strings(self.interior_segments()),
    {
        let mut output = String::new();
        if let Some(open_boundaries) = self.open_boundaries_ref() {
            push_node_strings(&mut output, open_boundaries);
        }
        let ghost after_open = output@;
        assert(after_open =~= group_strings(self.open_segments()));
        if let Some(land_boundaries) = self.land_boundaries_ref() {
            push_node_strings(&mut output, land_boundaries);
        }
        let ghost after_land = output@;
        assert(after_land =~= after_open + group_strings(self.land_segments()));
        if let Some(interior_boundaries) = self.interior_boundaries_ref() {
            push_node_strings(&mut output, interior_boundaries);
        }
        assert(output@ =~= after_land + group_strings(self.interior_segments()));
        output
    }
}

} // verus!
