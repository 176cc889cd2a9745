//! Digests of a mesh for change detection.
//!
//! The mesh is written out as one sequence of bytes, `hash_input`, which is
//! then hashed: by SHA-256 for a digest that can be stored, and by the
//! standard library's default hasher for a quick comparison.

use crate::boundaries::segments_view;
use crate::hgrid::Hgrid;
use crate::linked_map::{element_items_view, node_items_view, NodeRecord, NodeValue};
use sha2::{Digest, Sha256};
use std::collections::hash_map::DefaultHasher;
use std::hash::Hasher;
use vstd::bytes::{spec_u32_to_le_bytes, spec_u64_to_le_bytes, u32_to_le_bytes, u64_to_le_bytes};
use vstd::prelude::*;
use vstd::std_specs::hash::DefaultHasherAdditionalSpecFns;
use vstd::utf8::encode_utf8;

verus! {

/// The SHA-256 digest of a sequence of bytes.
pub uninterp spec fn sha256(data: Seq<u8>) -> Seq<u8>;

/// `Sha256::digest`: the SHA-256 digest of the bytes.
#[verifier::external_body]
pub(crate) fn sha256_digest(data: &Vec<u8>) -> (r: Vec<u8>)
    ensures
        r@ == sha256(data@),
{
    Sha256::digest(data.as_slice()).to_vec()
}

/// The lower-case hexadecimal digit of a number below sixteen.
pub open spec fn hex_char(d: int) -> char {
    if d == 0 {
        '0'
    } else if d == 1 {
        '1'
    } else if d == 2 {
        '2'
    } else if d == 3 {
        '3'
    } else if d == 4 {
        '4'
    } else if d == 5 {
        '5'
    } else if d == 6 {
        '6'
    } else if d == 7 {
        '7'
    } else if d == 8 {
        '8'
    } else if d == 9 {
        '9'
    } else if d == 10 {
        'a'
    } else if d == 11 {
        'b'
    } else if d == 12 {
        'c'
    } else if d == 13 {
        'd'
    } else if d == 14 {
        'e'
    } else {
        'f'
    }
}

/// The bytes in lower-case hexadecimal, two digits for each byte.
pub open spec fn hex_of(bytes: Seq<u8>) -> Seq<char>
    decreases bytes.len(),
{
    if bytes.len() == 0 {
        Seq::empty()
    } else {
        hex_of(bytes.drop_last()).push(hex_char(bytes.last() as int / 16)).push(
            hex_char(bytes.last() as int % 16),
        )
    }
}

/// The ids as bytes: each as four bytes, least significant first.
pub open spec fn ids_bytes(ids: Seq<u32>) -> Seq<u8>
    decreases ids.len(),
{
    if ids.len() == 0 {
        Seq::empty()
    } else {
        ids_bytes(ids.drop_last()) + spec_u32_to_le_bytes(ids.last())
    }
}

/// The numbers as bytes: each bit pattern as eight bytes, least significant
/// first.
pub open spec fn values_bytes(values: Seq<u64>) -> Seq<u8>
    decreases values.len(),
{
    if values.len() == 0 {
        Seq::empty()
    } else {
        values_bytes(values.drop_last()) + spec_u64_to_le_bytes(values.last())
    }
}

/// A node as bytes: its id, its two coordinates and its scalar values.
pub open spec fn node_bytes(e: (u32, NodeValue)) -> Seq<u8> {
    spec_u32_to_le_bytes(e.0) + spec_u64_to_le_bytes(e.1.0.0) + spec_u64_to_le_bytes(e.1.0.1)
        + (match e.1.1 {
        Some(values) => values_bytes(values),
        None => Seq::empty(),
    })
}

/// The nodes as bytes, in insertion order.
pub open spec fn nodes_bytes(entries: Seq<(u32, NodeValue)>) -> Seq<u8>
    decreases entries.len(),
{
    if entries.len() == 0 {
        Seq::empty()
    } else {
        nodes_bytes(entries.drop_last()) + node_bytes(entries.last())
    }
}

/// The elements as bytes, in insertion order: each its id, then the ids of
/// its nodes.
pub open spec fn elements_bytes(entries: Seq<(u32, Seq<u32>)>) -> Seq<u8>
    decreases entries.len(),
{
    if entries.len() == 0 {
        Seq::empty()
    } else {
        elements_bytes(entries.drop_last()) + spec_u32_to_le_bytes(entries.last().0) + ids_bytes(
            entries.last().1,
        )
    }
}

/// The segments as bytes: the node ids of all segments, in order.
pub open spec fn segments_bytes(segments: Seq<Seq<u32>>) -> Seq<u8>
    decreases segments.len(),
{
    if segments.len() == 0 {
        Seq::empty()
    } else {
        segments_bytes(segments.drop_last()) + ids_bytes(segments.last())
    }
}

/// An optional text as bytes in UTF-8, nothing where the text is absent.
pub open spec fn text_bytes(text: Option<Seq<char>>) -> Seq<u8> {
    match text {
        Some(s) => encode_utf8(s),
        None => Seq::empty(),
    }
}

/// The bytes that stand for a mesh: its description, its nodes, its
/// elements, its open boundary segments and its reference system.
pub open spec fn hash_input(grid: Hgrid) -> Seq<u8> {
    text_bytes(grid.description_view()) + nodes_bytes(grid.nodes_view().entries())
        + elements_bytes(grid.elements_view().entries()) + segments_bytes(
        match grid.open_segments() {
            Some(s) => s,
            None => Seq::empty(),
        },
    ) + text_bytes(grid.nodes_view().crs_view())
}

/// The digit of a number below sixteen, as a text of one character.
fn hex_digit(d: u8) -> (r: &'static str)
    requires
        d < 16,
    ensures
        r@ == seq![hex_char(d as int)],
{
    proof {
        reveal_strlit("0");
        reveal_strlit("1");
        reveal_strlit("2");
        reveal_strlit("3");
        reveal_strlit("4");
        reveal_strlit("5");
        reveal_strlit("6");
        reveal_strlit("7");
        reveal_strlit("8");
        reveal_strlit("9");
        reveal_strlit("a");
        reveal_strlit("b");
        reveal_strlit("c");
        reveal_strlit("d");
        reveal_strlit("e");
        reveal_strlit("f");
    }
    let r = match d {
        0 => "0",
        1 => "1",
        2 => "2",
        3 => "3",
        4 => "4",
        5 => "5",
        6 => "6",
        7 => "7",
        8 => "8",
        9 => "9",
        10 => "a",
        11 => "b",
        12 => "c",
        13 => "d",
        14 => "e",
        _ => "f",
    };
    assert(r@ =~= seq![hex_char(d as int)]);
    r
}

/// Writes bytes in lower-case hexadecimal, two digits for each byte.
pub fn to_hex(bytes: &Vec<u8>) -> (r: String)
    ensures
        r@ == hex_of(bytes@),
{
    let mut out = String::new();
    let mut i: usize = 0;
    assert(bytes@.take(0) == Seq::<u8>::empty());
    while i < bytes.len()
        invariant
            i <= bytes.len(),
            out@ == hex_of(bytes@.take(i as int)),
        decreases bytes.len() - i,
    {
        let b = bytes[i];
        let ghost before = out@;
        out.append(hex_digit(b / 16));
        out.append(hex_digit(b % 16));
        proof {
            let next = bytes@.take(i + 1);
            assert(next.drop_last() == bytes@.take(i as int));
            assert(next.last() == b);
            assert(out@ =~= before.push(hex_char(b as int / 16)).push(hex_char(b as int % 16)));
        }
        i += 1;
    }
    assert(bytes@.take(i as int) == bytes@);
    out
}

/// Appends a list of bytes to another.
fn extend(out: &mut Vec<u8>, bytes: &Vec<u8>)
    ensures
        final(out)@ == old(out)@ + bytes@,
{
    let mut i: usize = 0;
    while i < bytes.len()
        invariant
            i <= bytes.len(),
            out@ == old(out)@ + bytes@.take(i as int),
        decreases bytes.len() - i,
    {
        out.push(bytes[i]);
        assert(bytes@.take(i + 1) == bytes@.take(i as int).push(bytes@[i as int]));
        i += 1;
    }
    assert(bytes@.take(i as int) == bytes@);
}

/// Appends the bytes of a text in UTF-8.
fn extend_with_text(out: &mut Vec<u8>, text: &str)
    ensures
        final(out)@ == old(out)@ + encode_utf8(text@),
{
    let bytes = text.as_bytes();
    let mut i: usize = 0;
    while i < bytes.len()
        invariant
            i <= bytes.len(),
            bytes@ == encode_utf8(text@),
            out@ == old(out)@ + bytes@.take(i as int),
        decreases bytes.len() - i,
    {
        out.push(bytes[i]);
        assert(bytes@.take(i + 1) == bytes@.take(i as int).push(bytes@[i as int]));
        i += 1;
    }
    assert(bytes@.take(i as int) == bytes@);
}

/// Appends ids, each as four bytes, least significant first.
fn extend_with_ids(out: &mut Vec<u8>, ids: &Vec<u32>)
    ensures
        final(out)@ == old(out)@ + ids_bytes(ids@),
{
    let mut i: usize = 0;
    assert(ids@.take(0) == Seq::<u32>::empty());
    while i < ids.len()
        invariant
            i <= ids.len(),
            out@ == old(out)@ + ids_bytes(ids@.take(i as int)),
        decreases ids.len() - i,
    {
        let ghost before = out@;
        let bytes = u32_to_le_bytes(ids[i]);
        extend(out, &bytes);
        proof {
            let next = ids@.take(i + 1);
            assert(next.drop_last() == ids@.take(i as int));
            assert(next.last() == ids@[i as int]);
            assert(out@ =~= old(out)@ + ids_bytes(next));
        }
        i += 1;
    }
    assert(ids@.take(i as int) == ids@);
}

/// Appends numbers, each bit pattern as eight bytes, least significant first.
fn extend_with_values(out: &mut Vec<u8>, values: &Vec<u64>)
    ensures
        final(out)@ == old(out)@ + values_bytes(values@),
{
    let mut i: usize = 0;
    assert(values@.take(0) == Seq::<u64>::empty());
    while i < values.len()
        invariant
            i <= values.len(),
            out@ == old(out)@ + values_bytes(values@.take(i as int)),
        decreases values.len() - i,
    {
        let bytes = u64_to_le_bytes(values[i]);
        extend(out, &bytes);
        proof {
            let next = values@.take(i + 1);
            assert(next.drop_last() == values@.take(i as int));
            assert(next.last() == values@[i as int]);
            assert(out@ =~= old(out)@ + values_bytes(next));
        }
        i += 1;
    }
    assert(values@.take(i as int) == values@);
}

/// Appends the nodes, in order.
fn extend_with_nodes(out: &mut Vec<u8>, items: &Vec<(u32, &NodeRecord)>)
    ensures
        final(out)@ == old(out)@ + nodes_bytes(node_items_view(items@)),
{
    let ghost entries = node_items_view(items@);
    let mut i: usize = 0;
    assert(entries.take(0) == Seq::<(u32, NodeValue)>::empty());
    while i < items.len()
        invariant
            i <= items.len(),
            entries == node_items_view(items@),
            out@ == old(out)@ + nodes_bytes(entries.take(i as int)),
        decreases items.len() - i,
    {
        let record = items[i].1;
        let id_bytes = u32_to_le_bytes(items[i].0);
        let x_bytes = u64_to_le_bytes(record.0.0);
        let y_bytes = u64_to_le_bytes(record.0.1);
        extend(out, &id_bytes);
        extend(out, &x_bytes);
        extend(out, &y_bytes);
        match &record.1 {
            Some(values) => {
                extend_with_values(out, values);
            },
            None => {},
        }
        proof {
            let next = entries.take(i + 1);
            assert(next.drop_last() == entries.take(i as int));
            assert(next.last() == entries[i as int]);
            assert(out@ =~= old(out)@ + nodes_bytes(next));
        }
        i += 1;
    }
    assert(entries.take(i as int) == entries);
}

/// Appends the elements, in order.
fn extend_with_elements(out: &mut Vec<u8>, items: &Vec<(u32, &Vec<u32>)>)
    ensures
        final(out)@ == old(out)@ + elements_bytes(element_items_view(items@)),
{
    let ghost entries = element_items_view(items@);
    let mut i: usize = 0;
    assert(entries.take(0) == Seq::<(u32, Seq<u32>)>::empty());
    while i < items.len()
        invariant
            i <= items.len(),
            entries == element_items_view(items@),
            out@ == old(out)@ + elements_bytes(entries.take(i as int)),
        decreases items.len() - i,
    {
        let id_bytes = u32_to_le_bytes(items[i].0);
        extend(out, &id_bytes);
        extend_with_ids(out, items[i].1);
        proof {
            let next = entries.take(i + 1);
            assert(next.drop_last() == entries.take(i as int));
            assert(next.last() == entries[i as int]);
            assert(out@ =~= old(out)@ + elements_bytes(next));
        }
        i += 1;
    }
    assert(entries.take(i as int) == entries);
}

/// Appends the node ids of all segments, in order.
fn extend_with_segments(out: &mut Vec<u8>, segments: &Vec<Vec<u32>>)
    ensures
        final(out)@ == old(out)@ + segments_bytes(segments_view(segments@)),
{
    let ghost all = segments_view(segments@);
    let mut i: usize = 0;
    assert(all.take(0) == Seq::<Seq<u32>>::empty());
    while i < segments.len()
        invariant
            i <= segments.len(),
            all == segments_view(segments@),
            out@ == old(out)@ + segments_bytes(all.take(i as int)),
        decreases segments.len() - i,
    {
        extend_with_ids(out, &segments[i]);
        proof {
            let next = all.take(i + 1);
            assert(next.drop_last() == all.take(i as int));
            assert(next.last() == all[i as int]);
            assert(out@ =~= old(out)@ + segments_bytes(next));
        }
        i += 1;
    }
    assert(all.take(i as int) == all);
}

impl Hgrid {
    /// The bytes that stand for the mesh in a digest.
    pub fn hash_bytes(&self) -> (r: Vec<u8>)
        ensures
            r@ == hash_input(*self),
    {
        let mut out: Vec<u8> = Vec::new();
        match self.description() {
            Some(text) => {
                extend_with_text(&mut out, text.as_str());
            },
            None => {},
        }
        let nodes = crate::linked_map::node_map_iter(self.nodes().hash_map());
        extend_with_nodes(&mut out, &nodes);
        let elements = self.elements().items();
        extend_with_elements(&mut out, &elements);
        let ghost before = out@;
        if let Some(boundaries) = self.boundaries() {
            if let Some(open) = boundaries.open() {
                extend_with_segments(&mut out, open.nodes_ids());
            }
        }
        assert(out@ =~= before + segments_bytes(
            match self.open_segments() {
                Some(s) => s,
                None => Seq::empty(),
            },
        ));
        match self.crs() {
            Some(text) => {
                extend_with_text(&mut out, text);
            },
            None => {},
        }
        assert(out@ =~= hash_input(*self));
        out
    }

    /// The SHA-256 digest of the mesh in lower-case hexadecimal. Two meshes
    /// with the same description, nodes, elements, open boundary segments
    /// and reference system have the same digest.
    pub fn calculate_hash(&self) -> (r: String)
        ensures
            r@ == hex_of(sha256(hash_input(*self))),
    {
        let bytes = self.hash_bytes();
        let digest = sha256_digest(&bytes);
        to_hex(&digest)
    }

    /// A quick digest of the mesh for comparisons within one program.
    pub fn quick_hash(&self) -> (r: u64)
        ensures
            r == DefaultHasher::spec_finish(seq![hash_input(*self)]),
    {
        let bytes = self.hash_bytes();
        let mut hasher = DefaultHasher::new();
        hasher.write(bytes.as_slice());
        assert(hasher@ =~= seq![hash_input(*self)]);
        hasher.finish()
    }
}

} // verus!
