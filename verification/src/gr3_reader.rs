//! The grammar of mesh files.
//!
//! A file is taken as its lines after the first, each line as its words, and
//! each word with the floating-point number that it reads as, if it reads as
//! one. `parsed` says what a file holds or where it fails; `parse_gr3` works
//! it out.

use crate::gr3::{text_view, Gr3ParserOutput};
use crate::linked_map::{
    element_entries, element_map_insert, element_map_len, element_map_new, inserted,
    node_entries, node_map_insert, node_map_len, node_map_new, NodeRecord, NodeValue,
};
use crate::numbers::{parse_unsigned, unsigned_value};
use vstd::prelude::*;

verus! {

/// A word of a line.
#[derive(Debug, Clone)]
pub struct Gr3Word {
    /// The word as it stands in the file.
    pub text: String,
    /// The bit pattern of the floating-point number that the word reads as,
    /// if it reads as one.
    pub float: Option<u64>,
}

/// A word as a plain value.
pub type WordView = (Seq<char>, Option<u64>);

/// The words of a line as plain values.
pub open spec fn line_view(line: Vec<Gr3Word>) -> Seq<WordView> {
    line@.map_values(|w: Gr3Word| (w.text@, w.float))
}

/// The lines of a file as plain values.
pub open spec fn lines_view(lines: Seq<Vec<Gr3Word>>) -> Seq<Seq<WordView>> {
    lines.map_values(|line: Vec<Gr3Word>| line_view(line))
}

/// What is wrong with a file.
#[derive(Debug, Clone, Copy, PartialEq, Eq, Structural)]
pub enum Gr3FailureKind {
    /// The file could not be read as far as it was needed.
    Unreadable,
    /// The line of the counts is missing or empty.
    NoCounts,
    /// The number of elements is no number.
    BadElementCount,
    /// The number of nodes is no number.
    BadNodeCount,
    /// The number of nodes is missing.
    NoNodeCount,
    /// The file ends before all nodes are read.
    FewNodeLines,
    /// The id of a node is no number.
    BadNodeId,
    /// The line of a node is empty.
    NoNodeId,
    /// The x coordinate of a node is no number.
    BadX,
    /// The x coordinate of a node is missing.
    NoX,
    /// The y coordinate of a node is no number.
    BadY,
    /// The y coordinate of a node is missing.
    NoY,
    /// A scalar value of a node is no number.
    BadValue,
    /// The file ends before all elements are read.
    FewElementLines,
    /// The id of an element is no number.
    BadElementId,
    /// The line of an element is empty.
    NoElementId,
    /// The number of nodes of an element is no number.
    BadElementSize,
    /// The number of nodes of an element is missing.
    NoElementSize,
    /// A node id of an element is no number.
    BadElementNode,
    /// An element has fewer node ids than it announces.
    FewElementNodes,
    /// The number of open boundaries is no number.
    BadOpenCount,
    /// The line of the number of open boundaries is empty.
    NoOpenCount,
    /// The line of the number of open boundary nodes is missing.
    NoOpenTotalLine,
    /// The number of open boundary nodes is no number.
    BadOpenTotal,
    /// The line of the number of open boundary nodes is empty.
    NoOpenTotal,
    /// The file ends before all open boundaries are read.
    FewOpenLines,
    /// The number of nodes of an open boundary is no number.
    BadOpenSize,
    /// The line of an open boundary is empty.
    NoOpenSize,
    /// The file ends before all nodes of an open boundary are read.
    FewOpenNodes,
    /// A node id of an open boundary is no number.
    BadOpenNode,
    /// The line of a node of an open boundary is empty.
    NoOpenNode,
    /// The line of the number of land boundaries is missing.
    NoLandCountLine,
    /// The number of land boundaries is no number.
    BadLandCount,
    /// The line of the number of land boundaries is empty.
    NoLandCount,
    /// The line of the number of land boundary nodes is missing.
    NoLandTotalLine,
    /// The number of land boundary nodes is no number.
    BadLandTotal,
    /// The line of the number of land boundary nodes is empty.
    NoLandTotal,
    /// The file ends before all land boundaries are read.
    FewLandLines,
    /// The number of nodes of a land boundary is no number.
    BadLandSize,
    /// The line of a land boundary is empty.
    NoLandSize,
    /// The kind of a land boundary is no number.
    BadLandType,
    /// The kind of a land boundary is missing.
    NoLandType,
    /// The file ends before all nodes of a land boundary are read.
    FewLandNodes,
    /// A node id of a land boundary is no number.
    BadLandNode,
    /// The line of a node of a land boundary is empty.
    NoLandNode,
    /// The kind of a land boundary is neither 0 nor 1.
    UnknownLandType,
}

/// Why a file was refused, and where.
#[derive(Debug, Clone, Copy, PartialEq, Eq, Structural)]
pub struct Gr3Failure {
    /// What is wrong.
    pub kind: Gr3FailureKind,
    /// The line at fault, counted from zero at the line after the first of
    /// the file; for a missing line, the number of lines that were read.
    pub line: usize,
    /// The word at fault in that line, counted from zero.
    pub word: usize,
    /// How many nodes, elements or boundaries had been read.
    pub seen: usize,
    /// How many node ids of the element or boundary at hand had been read.
    pub items: usize,
    /// The number that was announced, or the number at fault.
    pub number: u64,
}

/// What a word of a line is, taken as an unsigned number.
#[derive(Debug, Clone, Copy, PartialEq, Eq, Structural)]
pub enum Item {
    /// The line has no such word.
    Missing,
    /// The word is no number in range.
    Bad,
    /// The number.
    Value(u64),
}

/// Word `k` of a line as an unsigned number of at most `max`.
pub open spec fn item(line: Seq<WordView>, k: int, max: u64) -> Item {
    if !(0 <= k < line.len()) {
        Item::Missing
    } else {
        match unsigned_value(line[k].0, max as nat) {
            Some(v) => Item::Value(v as u64),
            None => Item::Bad,
        }
    }
}

/// The failure at a line that is not there.
pub open spec fn at_end(kind: Gr3FailureKind, broken: bool, line: int, seen: int, items: int, number: u64) -> Gr3Failure {
    Gr3Failure {
        kind: if broken {
            Gr3FailureKind::Unreadable
        } else {
            kind
        },
        line: line as usize,
        word: 0,
        seen: seen as usize,
        items: items as usize,
        number,
    }
}

/// The failure at a word of a line.
pub open spec fn at_word(kind: Gr3FailureKind, line: int, word: int, seen: int, items: int, number: u64) -> Gr3Failure {
    Gr3Failure {
        kind,
        line: line as usize,
        word: word as usize,
        seen: seen as usize,
        items: items as usize,
        number,
    }
}

/// The first word from `from` on that does not read as a floating-point
/// number, or the number of words where all do.
pub open spec fn first_bad_float(line: Seq<WordView>, from: int) -> int
    decreases line.len() - from,
{
    if from < 0 || from >= line.len() {
        line.len() as int
    } else if line[from].1 is None {
        from
    } else {
        first_bad_float(line, from + 1)
    }
}

/// The floating-point numbers of the words from `from` on.
pub open spec fn floats_from(line: Seq<WordView>, from: int) -> Seq<u64> {
    Seq::new((line.len() - from) as nat, |i: int| line[from + i].1->0)
}

/// The node that a line holds: its id, its two coordinates and its scalar
/// values; or what is wrong with the line, and at which word.
pub open spec fn node_of(line: Seq<WordView>) -> Result<(u32, NodeValue), (Gr3FailureKind, int)> {
    match item(line, 0, u32::MAX as u64) {
        Item::Missing => Err((Gr3FailureKind::NoNodeId, 0)),
        Item::Bad => Err((Gr3FailureKind::BadNodeId, 0)),
        Item::Value(id) => {
            if line.len() <= 1 {
                Err((Gr3FailureKind::NoX, 1))
            } else if line[1].1 is None {
                Err((Gr3FailureKind::BadX, 1))
            } else if line.len() <= 2 {
                Err((Gr3FailureKind::NoY, 2))
            } else if line[2].1 is None {
                Err((Gr3FailureKind::BadY, 2))
            } else if first_bad_float(line, 3) < line.len() {
                Err((Gr3FailureKind::BadValue, first_bad_float(line, 3)))
            } else {
                Ok((id as u32, ((line[1].1->0, line[2].1->0), Some(floats_from(line, 3)))))
            }
        },
    }
}

/// The nodes of `left` lines from line `at` on, put into the map `acc` one
/// after the other.
pub open spec fn read_nodes(
    doc: Seq<Seq<WordView>>,
    broken: bool,
    at: int,
    left: nat,
    total: u64,
    acc: Seq<(u32, NodeValue)>,
) -> Result<Seq<(u32, NodeValue)>, Gr3Failure>
    decreases left,
{
    if left == 0 {
        Ok(acc)
    } else if !(0 <= at < doc.len()) {
        Err(at_end(Gr3FailureKind::FewNodeLines, broken, at, acc.len() as int, 0, total))
    } else {
        match node_of(doc[at]) {
            Err((kind, word)) => Err(at_word(kind, at, word, acc.len() as int, 0, 0)),
            Ok((id, value)) => read_nodes(
                doc,
                broken,
                at + 1,
                (left - 1) as nat,
                total,
                inserted(acc, id, value),
            ),
        }
    }
}

/// The node ids of an element: `left` words from word `from` on.
pub open spec fn element_nodes(line: Seq<WordView>, from: int, left: nat, acc: Seq<u32>) -> Result<
    Seq<u32>,
    (Gr3FailureKind, int, int),
>
    decreases left,
{
    if left == 0 {
        Ok(acc)
    } else {
        match item(line, from, u32::MAX as u64) {
            Item::Missing => Err((Gr3FailureKind::FewElementNodes, from, acc.len() as int)),
            Item::Bad => Err((Gr3FailureKind::BadElementNode, from, acc.len() as int)),
            Item::Value(id) => element_nodes(line, from + 1, (left - 1) as nat, acc.push(id as u32)),
        }
    }
}

/// The element that a line holds: its id, the number of its nodes and their
/// ids; or what is wrong with the line, at which word, and how many node ids
/// were read.
pub open spec fn element_of(line: Seq<WordView>) -> Result<
    (u32, Seq<u32>),
    (Gr3FailureKind, int, int),
> {
    match item(line, 0, u32::MAX as u64) {
        Item::Missing => Err((Gr3FailureKind::NoElementId, 0, 0)),
        Item::Bad => Err((Gr3FailureKind::BadElementId, 0, 0)),
        Item::Value(id) => match item(line, 1, u8::MAX as u64) {
            Item::Missing => Err((Gr3FailureKind::NoElementSize, 1, 0)),
            Item::Bad => Err((Gr3FailureKind::BadElementSize, 1, 0)),
            Item::Value(size) => match element_nodes(line, 2, size as nat, Seq::empty()) {
                Err(e) => Err(e),
                Ok(node_ids) => Ok((id as u32, node_ids)),
            },
        },
    }
}

/// The elements of `left` lines from line `at` on, put into the map `acc`
/// one after the other.
pub open spec fn read_elements(
    doc: Seq<Seq<WordView>>,
    broken: bool,
    at: int,
    left: nat,
    total: u64,
    acc: Seq<(u32, Seq<u32>)>,
) -> Result<Seq<(u32, Seq<u32>)>, Gr3Failure>
    decreases left,
{
    if left == 0 {
        Ok(acc)
    } else if !(0 <= at < doc.len()) {
        Err(at_end(Gr3FailureKind::FewElementLines, broken, at, acc.len() as int, 0, total))
    } else {
        match element_of(doc[at]) {
            Err((kind, word, items)) => Err(at_word(kind, at, word, acc.len() as int, items, 0)),
            Ok((id, node_ids)) => read_elements(
                doc,
                broken,
                at + 1,
                (left - 1) as nat,
                total,
                inserted(acc, id, node_ids),
            ),
        }
    }
}

/// The kinds of failure of the lines that hold one node id each.
#[derive(Debug, Clone, Copy)]
pub struct IdKinds {
    pub few: Gr3FailureKind,
    pub none: Gr3FailureKind,
    pub bad: Gr3FailureKind,
}

/// The node ids of `left` lines from line `at` on, one id at the start of
/// each line.
pub open spec fn read_ids(
    doc: Seq<Seq<WordView>>,
    broken: bool,
    at: int,
    left: nat,
    kinds: IdKinds,
    seen: int,
    number: u64,
    acc: Seq<u32>,
) -> Result<Seq<u32>, Gr3Failure>
    decreases left,
{
    if left == 0 {
        Ok(acc)
    } else if !(0 <= at < doc.len()) {
        Err(at_end(kinds.few, broken, at, seen, acc.len() as int, number))
    } else {
        match item(doc[at], 0, u32::MAX as u64) {
            Item::Missing => Err(at_word(kinds.none, at, 0, seen, acc.len() as int, 0)),
            Item::Bad => Err(at_word(kinds.bad, at, 0, seen, acc.len() as int, 0)),
            Item::Value(id) => read_ids(
                doc,
                broken,
                at + 1,
                (left - 1) as nat,
                kinds,
                seen,
                number,
                acc.push(id as u32),
            ),
        }
    }
}

/// The kinds of failure of the nodes of an open boundary.
pub open spec fn open_kinds() -> IdKinds {
    IdKinds {
        few: Gr3FailureKind::FewOpenNodes,
        none: Gr3FailureKind::NoOpenNode,
        bad: Gr3FailureKind::BadOpenNode,
    }
}

/// The kinds of failure of the nodes of a land boundary.
pub open spec fn land_kinds() -> IdKinds {
    IdKinds {
        few: Gr3FailureKind::FewLandNodes,
        none: Gr3FailureKind::NoLandNode,
        bad: Gr3FailureKind::BadLandNode,
    }
}

/// The number at the start of line `at`.
pub open spec fn count_at(
    doc: Seq<Seq<WordView>>,
    broken: bool,
    at: int,
    no_line: Gr3FailureKind,
    none: Gr3FailureKind,
    bad: Gr3FailureKind,
) -> Result<u32, Gr3Failure> {
    if !(0 <= at < doc.len()) {
        Err(at_end(no_line, broken, at, 0, 0, 0))
    } else {
        match item(doc[at], 0, u32::MAX as u64) {
            Item::Missing => Err(at_word(none, at, 0, 0, 0, 0)),
            Item::Bad => Err(at_word(bad, at, 0, 0, 0, 0)),
            Item::Value(n) => Ok(n as u32),
        }
    }
}

/// `left` open boundaries from line `at` on: for each a line with the number
/// of its nodes, then its nodes. With the boundaries comes the line after
/// them.
pub open spec fn read_open(
    doc: Seq<Seq<WordView>>,
    broken: bool,
    at: int,
    left: nat,
    total: u64,
    acc: Seq<Seq<u32>>,
) -> Result<(Seq<Seq<u32>>, int), Gr3Failure>
    decreases left,
{
    if left == 0 {
        Ok((acc, at))
    } else if !(0 <= at < doc.len()) {
        Err(at_end(Gr3FailureKind::FewOpenLines, broken, at, acc.len() as int, 0, total))
    } else {
        match item(doc[at], 0, u32::MAX as u64) {
            Item::Missing => Err(
                at_word(Gr3FailureKind::NoOpenSize, at, 0, acc.len() as int, 0, 0),
            ),
            Item::Bad => Err(at_word(Gr3FailureKind::BadOpenSize, at, 0, acc.len() as int, 0, 0)),
            Item::Value(size) => match read_ids(
                doc,
                broken,
                at + 1,
                size as nat,
                open_kinds(),
                acc.len() as int,
                0,
                Seq::empty(),
            ) {
                Err(e) => Err(e),
                Ok(node_ids) => read_open(
                    doc,
                    broken,
                    at + 1 + size,
                    (left - 1) as nat,
                    total,
                    acc.push(node_ids),
                ),
            },
        }
    }
}

/// `left` land boundaries from line `at` on: for each a line with the number
/// of its nodes and its kind, then its nodes. A boundary of kind 0 is a land
/// boundary, one of kind 1 an interior boundary.
pub open spec fn read_land(
    doc: Seq<Seq<WordView>>,
    broken: bool,
    at: int,
    left: nat,
    total: u64,
    land: Seq<Seq<u32>>,
    interior: Seq<Seq<u32>>,
) -> Result<(Seq<Seq<u32>>, Seq<Seq<u32>>), Gr3Failure>
    decreases left,
{
    if left == 0 {
        Ok((land, interior))
    } else if !(0 <= at < doc.len()) {
        Err(at_end(Gr3FailureKind::FewLandLines, broken, at, land.len() as int, 0, total))
    } else {
        match item(doc[at], 0, u64::MAX) {
            Item::Missing => Err(
                at_word(Gr3FailureKind::NoLandSize, at, 0, land.len() as int, 0, 0),
            ),
            Item::Bad => Err(at_word(Gr3FailureKind::BadLandSize, at, 0, land.len() as int, 0, 0)),
            Item::Value(size) => match item(doc[at], 1, u8::MAX as u64) {
                Item::Missing => Err(
                    at_word(Gr3FailureKind::NoLandType, at, 1, land.len() as int, 0, 0),
                ),
                Item::Bad => Err(
                    at_word(Gr3FailureKind::BadLandType, at, 1, land.len() as int, 0, 0),
                ),
                Item::Value(kind) => match read_ids(
                    doc,
                    broken,
                    at + 1,
                    size as nat,
                    land_kinds(),
                    land.len() as int,
                    total,
                    Seq::empty(),
                ) {
                    Err(e) => Err(e),
                    Ok(node_ids) => if kind == 0 {
                        read_land(
                            doc,
                            broken,
                            at + 1 + size,
                            (left - 1) as nat,
                            total,
                            land.push(node_ids),
                            interior,
                        )
                    } else if kind == 1 {
                        read_land(
                            doc,
                            broken,
                            at + 1 + size,
                            (left - 1) as nat,
                            total,
                            land,
                            interior.push(node_ids),
                        )
                    } else {
                        Err(
                            at_word(
                                Gr3FailureKind::UnknownLandType,
                                at,
                                1,
                                land.len() as int,
                                0,
                                kind,
                            ),
                        )
                    },
                },
            },
        }
    }
}

/// What a file holds.
pub struct Gr3Content {
    /// The node entries, in the order of the map that they were put into.
    pub nodes: Seq<(u32, NodeValue)>,
    /// The element entries, in the order of the map that they were put into.
    pub elements: Seq<(u32, Seq<u32>)>,
    /// Whether the file goes on after the elements.
    pub with_boundaries: bool,
    /// The open boundary segments.
    pub open: Seq<Seq<u32>>,
    /// The land boundary segments.
    pub land: Seq<Seq<u32>>,
    /// The interior boundary segments.
    pub interior: Seq<Seq<u32>>,
}

/// The boundaries of a file, from line `at` on: the number of open
/// boundaries, the number of their nodes, the open boundaries, the number of
/// land boundaries, the number of their nodes, and the land boundaries.
pub open spec fn read_boundaries(doc: Seq<Seq<WordView>>, broken: bool, at: int) -> Result<
    (Seq<Seq<u32>>, Seq<Seq<u32>>, Seq<Seq<u32>>),
    Gr3Failure,
> {
    match count_at(
        doc,
        broken,
        at,
        Gr3FailureKind::Unreadable,
        Gr3FailureKind::NoOpenCount,
        Gr3FailureKind::BadOpenCount,
    ) {
        Err(e) => Err(e),
        Ok(open_count) => match count_at(
            doc,
            broken,
            at + 1,
            Gr3FailureKind::NoOpenTotalLine,
            Gr3FailureKind::NoOpenTotal,
            Gr3FailureKind::BadOpenTotal,
        ) {
            Err(e) => Err(e),
            Ok(_) => match read_open(
                doc,
                broken,
                at + 2,
                open_count as nat,
                open_count as u64,
                Seq::empty(),
            ) {
                Err(e) => Err(e),
                Ok((open, next)) => match count_at(
                    doc,
                    broken,
                    next,
                    Gr3FailureKind::NoLandCountLine,
                    Gr3FailureKind::NoLandCount,
                    Gr3FailureKind::BadLandCount,
                ) {
                    Err(e) => Err(e),
                    Ok(land_count) => match count_at(
                        doc,
                        broken,
                        next + 1,
                        Gr3FailureKind::NoLandTotalLine,
                        Gr3FailureKind::NoLandTotal,
                        Gr3FailureKind::BadLandTotal,
                    ) {
                        Err(e) => Err(e),
                        Ok(_) => match read_land(
                            doc,
                            broken,
                            next + 2,
                            land_count as nat,
                            land_count as u64,
                            Seq::empty(),
                            Seq::empty(),
                        ) {
                            Err(e) => Err(e),
                            Ok((land, interior)) => Ok((open, land, interior)),
                        },
                    },
                },
            },
        }
    }
}

/// What the lines of a file after its first hold, or where they fail:
/// the numbers of elements and nodes, the nodes, the elements and, if the
/// file goes on, the boundaries. `broken` says that the file could not be
/// read beyond these lines.
pub open spec fn parsed(doc: Seq<Seq<WordView>>, broken: bool) -> Result<Gr3Content, Gr3Failure> {
    if doc.len() == 0 {
        Err(at_end(Gr3FailureKind::NoCounts, broken, 0, 0, 0, 0))
    } else {
        match item(doc[0], 0, u32::MAX as u64) {
            Item::Missing => Err(at_word(Gr3FailureKind::NoCounts, 0, 0, 0, 0, 0)),
            Item::Bad => Err(at_word(Gr3FailureKind::BadElementCount, 0, 0, 0, 0, 0)),
            Item::Value(ne) => match item(doc[0], 1, u32::MAX as u64) {
                Item::Missing => Err(at_word(Gr3FailureKind::NoNodeCount, 0, 1, 0, 0, 0)),
                Item::Bad => Err(at_word(Gr3FailureKind::BadNodeCount, 0, 1, 0, 0, 0)),
                Item::Value(np) => match read_nodes(doc, broken, 1, np as nat, np, Seq::empty()) {
                    Err(e) => Err(e),
                    Ok(nodes) => match read_elements(
                        doc,
                        broken,
                        1 + np,
                        ne as nat,
                        ne,
                        Seq::empty(),
                    ) {
                        Err(e) => Err(e),
                        Ok(elements) => if doc.len() <= 1 + np + ne && !broken {
                            Ok(
                                Gr3Content {
                                    nodes,
                                    elements,
                                    with_boundaries: false,
                                    open: Seq::empty(),
                                    land: Seq::empty(),
                                    interior: Seq::empty(),
                                },
                            )
                        } else {
                            match read_boundaries(doc, broken, 1 + np + ne) {
                                Err(e) => Err(e),
                                Ok((open, land, interior)) => Ok(
                                    Gr3Content {
                                        nodes,
                                        elements,
                                        with_boundaries: true,
                                        open,
                                        land,
                                        interior,
                                    },
                                ),
                            }
                        },
                    },
                },
            },
        }
    }
}

/// A list counts as present only when it has an item.
pub open spec fn present<T>(list: Seq<T>) -> Option<Seq<T>> {
    if list.len() > 0 {
        Some(list)
    } else {
        None
    }
}

/// The record `output` holds the content `content` of a file with this
/// description and reference system. Lists without items are left out, and
/// a file that ends with its elements has no reference system.
pub open spec fn holds(
    output: Gr3ParserOutput,
    content: Gr3Content,
    description: Seq<char>,
    crs: Option<Seq<char>>,
) -> bool {
    &&& output.description_view() == Some(description)
    &&& output.crs_view() == (if content.with_boundaries {
        crs
    } else {
        None
    })
    &&& output.node_entries() == content.nodes
    &&& output.element_entries() == present(content.elements)
    &&& output.open_segments() == present(content.open)
    &&& output.land_segments() == present(content.land)
    &&& output.interior_segments() == present(content.interior)
}

/// The failure at a line that is not there.
fn fail_at_end(
    kind: Gr3FailureKind,
    broken: bool,
    line: usize,
    seen: usize,
    items: usize,
    number: u64,
) -> (r: Gr3Failure)
    ensures
        r == at_end(kind, broken, line as int, seen as int, items as int, number),
{
    Gr3Failure {
        kind: if broken {
            Gr3FailureKind::Unreadable
        } else {
            kind
        },
        line,
        word: 0,
        seen,
        items,
        number,
    }
}

/// The failure at a word of a line.
fn fail_at_word(
    kind: Gr3FailureKind,
    line: usize,
    word: usize,
    seen: usize,
    items: usize,
    number: u64,
) -> (r: Gr3Failure)
    ensures
        r == at_word(kind, line as int, word as int, seen as int, items as int, number),
{
    Gr3Failure { kind, line, word, seen, items, number }
}

/// Word `k` of a line as an unsigned number of at most `max`.
fn item_of(line: &Vec<Gr3Word>, k: usize, max: u64) -> (r: Item)
    ensures
        r == item(line_view(*line), k as int, max),
        r matches Item::Value(v) ==> v <= max,
{
    if k >= line.len() {
        Item::Missing
    } else {
        match parse_unsigned(line[k].text.as_str(), max) {
            Some(v) => Item::Value(v),
            None => Item::Bad,
        }
    }
}

/// Reads the node that a line holds.
#[verifier::loop_isolation(false)]
fn read_node(line: &Vec<Gr3Word>) -> (r: Result<(u32, NodeRecord), (Gr3FailureKind, usize)>)
    ensures
        match r {
            Ok((id, record)) => node_of(line_view(*line)) == Ok::<
                (u32, NodeValue),
                (Gr3FailureKind, int),
            >((id, crate::linked_map::record_view(record))),
            Err((kind, word)) => node_of(line_view(*line)) == Err::<
                (u32, NodeValue),
                (Gr3FailureKind, int),
            >((kind, word as int)),
        },
{
    let ghost words = line_view(*line);
    let id = match item_of(line, 0, u32::MAX as u64) {
        Item::Missing => { return Err((Gr3FailureKind::NoNodeId, 0)); },
        Item::Bad => { return Err((Gr3FailureKind::BadNodeId, 0)); },
        Item::Value(id) => id as u32,
    };
    if line.len() <= 1 {
        return Err((Gr3FailureKind::NoX, 1));
    }
    let x = match line[1].float {
        Some(x) => x,
        None => { return Err((Gr3FailureKind::BadX, 1)); },
    };
    if line.len() <= 2 {
        return Err((Gr3FailureKind::NoY, 2));
    }
    let y = match line[2].float {
        Some(y) => y,
        None => { return Err((Gr3FailureKind::BadY, 2)); },
    };
    let mut values: Vec<u64> = Vec::new();
    let mut k: usize = 3;
    while k < line.len()
        invariant
            3 <= k <= line.len(),
            words == line_view(*line),
            first_bad_float(words, 3) == first_bad_float(words, k as int),
            values@.len() == k - 3,
            forall|i: int| 0 <= i < values@.len() ==> values@[i] == (#[trigger] words[3 + i]).1->0,
        decreases line.len() - k,
    {
        match line[k].float {
            Some(v) => {
                values.push(v);
            },
            None => {
                return Err((Gr3FailureKind::BadValue, k));
            },
        }
        k += 1;
    }
    assert(values@ =~= floats_from(words, 3));
    Ok((id, ((x, y), Some(values))))
}

/// Reads the element that a line holds.
#[verifier::loop_isolation(false)]
fn read_element(line: &Vec<Gr3Word>) -> (r: Result<
    (u32, Vec<u32>),
    (Gr3FailureKind, usize, usize),
>)
    ensures
        match r {
            Ok((id, node_ids)) => element_of(line_view(*line)) == Ok::<
                (u32, Seq<u32>),
                (Gr3FailureKind, int, int),
            >((id, node_ids@)),
            Err((kind, word, items)) => element_of(line_view(*line)) == Err::<
                (u32, Seq<u32>),
                (Gr3FailureKind, int, int),
            >((kind, word as int, items as int)),
        },
{
    let ghost words = line_view(*line);
    let id = match item_of(line, 0, u32::MAX as u64) {
        Item::Missing => { return Err((Gr3FailureKind::NoElementId, 0, 0)); },
        Item::Bad => { return Err((Gr3FailureKind::BadElementId, 0, 0)); },
        Item::Value(id) => id as u32,
    };
    let size = match item_of(line, 1, u8::MAX as u64) {
        Item::Missing => { return Err((Gr3FailureKind::NoElementSize, 1, 0)); },
        Item::Bad => { return Err((Gr3FailureKind::BadElementSize, 1, 0)); },
        Item::Value(size) => size as usize,
    };
    let mut node_ids: Vec<u32> = Vec::new();
    let mut k: usize = 0;
    while k < size
        invariant
            k <= size <= 255,
            words == line_view(*line),
            node_ids@.len() == k,
            element_nodes(words, 2, size as nat, Seq::empty()) == element_nodes(
                words,
                2 + k,
                (size - k) as nat,
                node_ids@,
            ),
        decreases size - k,
    {
        match item_of(line, 2 + k, u32::MAX as u64) {
            Item::Missing => {
                return Err((Gr3FailureKind::FewElementNodes, 2 + k, k));
            },
            Item::Bad => {
                return Err((Gr3FailureKind::BadElementNode, 2 + k, k));
            },
            Item::Value(node_id) => {
                node_ids.push(node_id as u32);
            },
        }
        k += 1;
    }
    Ok((id, node_ids))
}

/// Reads `count` node ids, one from the start of each line from line `at`
/// on. With the ids comes the line after them.
#[verifier::loop_isolation(false)]
fn read_id_lines(
    lines: &Vec<Vec<Gr3Word>>,
    broken: bool,
    at: usize,
    count: u64,
    kinds: IdKinds,
    seen: usize,
    number: u64,
) -> (r: Result<(Vec<u32>, usize), Gr3Failure>)
    requires
        at <= lines.len(),
    ensures
        match r {
            Ok((ids, next)) => {
                &&& read_ids(
                    lines_view(lines@),
                    broken,
                    at as int,
                    count as nat,
                    kinds,
                    seen as int,
                    number,
                    Seq::empty(),
                ) == Ok::<Seq<u32>, Gr3Failure>(ids@)
                &&& next == at + count
                &&& next <= lines.len()
            },
            Err(e) => read_ids(
                lines_view(lines@),
                broken,
                at as int,
                count as nat,
                kinds,
                seen as int,
                number,
                Seq::empty(),
            ) == Err::<Seq<u32>, Gr3Failure>(e),
        },
{
    let ghost doc = lines_view(lines@);
    let ghost target = read_ids(
        doc,
        broken,
        at as int,
        count as nat,
        kinds,
        seen as int,
        number,
        Seq::empty(),
    );
    let mut ids: Vec<u32> = Vec::new();
    let mut done: u64 = 0;
    let mut line: usize = at;
    while done < count
        invariant
            done <= count,
            line == at + done,
            line <= lines.len(),
            ids@.len() == done,
            doc == lines_view(lines@),
            target == read_ids(
                doc,
                broken,
                line as int,
                (count - done) as nat,
                kinds,
                seen as int,
                number,
                ids@,
            ),
        decreases count - done,
    {
        if line >= lines.len() {
            return Err(fail_at_end(kinds.few, broken, line, seen, ids.len(), number));
        }
        match item_of(&lines[line], 0, u32::MAX as u64) {
            Item::Missing => {
                return Err(fail_at_word(kinds.none, line, 0, seen, ids.len(), 0));
            },
            Item::Bad => {
                return Err(fail_at_word(kinds.bad, line, 0, seen, ids.len(), 0));
            },
            Item::Value(id) => {
                ids.push(id as u32);
            },
        }
        line += 1;
        done += 1;
    }
    Ok((ids, line))
}

/// Reads the number at the start of line `at`.
fn read_count(
    lines: &Vec<Vec<Gr3Word>>,
    broken: bool,
    at: usize,
    no_line: Gr3FailureKind,
    none: Gr3FailureKind,
    bad: Gr3FailureKind,
) -> (r: Result<u32, Gr3Failure>)
    ensures
        r == count_at(lines_view(lines@), broken, at as int, no_line, none, bad),
        r is Ok ==> at < lines.len(),
{
    if at >= lines.len() {
        return Err(fail_at_end(no_line, broken, at, 0, 0, 0));
    }
    match item_of(&lines[at], 0, u32::MAX as u64) {
        Item::Missing => Err(fail_at_word(none, at, 0, 0, 0, 0)),
        Item::Bad => Err(fail_at_word(bad, at, 0, 0, 0, 0)),
        Item::Value(n) => Ok(n as u32),
    }
}

/// Reads `count` open boundaries from line `at` on. With the boundaries
/// comes the line after them.
#[verifier::loop_isolation(false)]
fn read_open_boundaries(lines: &Vec<Vec<Gr3Word>>, broken: bool, at: usize, count: u32) -> (r:
    Result<(Vec<Vec<u32>>, usize), Gr3Failure>)
    requires
        at <= lines.len(),
    ensures
        match r {
            Ok((open, next)) => read_open(
                lines_view(lines@),
                broken,
                at as int,
                count as nat,
                count as u64,
                Seq::empty(),
            ) == Ok::<(Seq<Seq<u32>>, int), Gr3Failure>(
                (crate::boundaries::segments_view(open@), next as int),
            ) && next <= lines.len(),
            Err(e) => read_open(
                lines_view(lines@),
                broken,
                at as int,
                count as nat,
                count as u64,
                Seq::empty(),
            ) == Err::<(Seq<Seq<u32>>, int), Gr3Failure>(e),
        },
{
    let ghost doc = lines_view(lines@);
    let ghost target = read_open(
        doc,
        broken,
        at as int,
        count as nat,
        count as u64,
        Seq::empty(),
    );
    let kinds = IdKinds {
        few: Gr3FailureKind::FewOpenNodes,
        none: Gr3FailureKind::NoOpenNode,
        bad: Gr3FailureKind::BadOpenNode,
    };
    let mut open: Vec<Vec<u32>> = Vec::new();
    let mut done: u32 = 0;
    let mut line: usize = at;
    assert(crate::boundaries::segments_view(open@) == Seq::<Seq<u32>>::empty());
    while done < count
        invariant
            done <= count,
            line <= lines.len(),
            open@.len() == done,
            doc == lines_view(lines@),
            kinds == open_kinds(),
            target == read_open(
                doc,
                broken,
                line as int,
                (count - done) as nat,
                count as u64,
                crate::boundaries::segments_view(open@),
            ),
        decreases count - done,
    {
        if line >= lines.len() {
            return Err(
                fail_at_end(Gr3FailureKind::FewOpenLines, broken, line, open.len(), 0, count as u64),
            );
        }
        let size = match item_of(&lines[line], 0, u32::MAX as u64) {
            Item::Missing => {
                return Err(fail_at_word(Gr3FailureKind::NoOpenSize, line, 0, open.len(), 0, 0));
            },
            Item::Bad => {
                return Err(fail_at_word(Gr3FailureKind::BadOpenSize, line, 0, open.len(), 0, 0));
            },
            Item::Value(size) => size,
        };
        let (node_ids, next) = match read_id_lines(
            lines,
            broken,
            line + 1,
            size,
            kinds,
            open.len(),
            0,
        ) {
            Err(e) => { return Err(e); },
            Ok(read) => read,
        };
        let ghost before = crate::boundaries::segments_view(open@);
        open.push(node_ids);
        assert(crate::boundaries::segments_view(open@) == before.push(node_ids@));
        line = next;
        done += 1;
    }
    Ok((open, line))
}

/// Reads `count` land boundaries from line `at` on, and sorts them into land
/// and interior boundaries.
#[verifier::loop_isolation(false)]
fn read_land_boundaries(lines: &Vec<Vec<Gr3Word>>, broken: bool, at: usize, count: u32) -> (r:
    Result<(Vec<Vec<u32>>, Vec<Vec<u32>>), Gr3Failure>)
    requires
        at <= lines.len(),
    ensures
        match r {
            Ok((land, interior)) => read_land(
                lines_view(lines@),
                broken,
                at as int,
                count as nat,
                count as u64,
                Seq::empty(),
                Seq::empty(),
            ) == Ok::<(Seq<Seq<u32>>, Seq<Seq<u32>>), Gr3Failure>(
                (
                    crate::boundaries::segments_view(land@),
                    crate::boundaries::segments_view(interior@),
                ),
            ),
            Err(e) => read_land(
                lines_view(lines@),
                broken,
                at as int,
                count as nat,
                count as u64,
                Seq::empty(),
                Seq::empty(),
            ) == Err::<(Seq<Seq<u32>>, Seq<Seq<u32>>), Gr3Failure>(e),
        },
{
    let ghost doc = lines_view(lines@);
    let ghost target = read_land(
        doc,
        broken,
        at as int,
        count as nat,
        count as u64,
        Seq::empty(),
        Seq::empty(),
    );
    let kinds = IdKinds {
        few: Gr3FailureKind::FewLandNodes,
        none: Gr3FailureKind::NoLandNode,
        bad: Gr3FailureKind::BadLandNode,
    };
    let mut land: Vec<Vec<u32>> = Vec::new();
    let mut interior: Vec<Vec<u32>> = Vec::new();
    let mut done: u32 = 0;
    let mut line: usize = at;
    assert(crate::boundaries::segments_view(land@) == Seq::<Seq<u32>>::empty());
    assert(crate::boundaries::segments_view(interior@) == Seq::<Seq<u32>>::empty());
    while done < count
        invariant
            done <= count,
            line <= lines.len(),
            doc == lines_view(lines@),
            kinds == land_kinds(),
            target == read_land(
                doc,
                broken,
                line as int,
                (count - done) as nat,
                count as u64,
                crate::boundaries::segments_view(land@),
                crate::boundaries::segments_view(interior@),
            ),
        decreases count - done,
    {
        if line >= lines.len() {
            return Err(
                fail_at_end(Gr3FailureKind::FewLandLines, broken, line, land.len(), 0, count as u64),
            );
        }
        let size = match item_of(&lines[line], 0, u64::MAX) {
            Item::Missing => {
                return Err(fail_at_word(Gr3FailureKind::NoLandSize, line, 0, land.len(), 0, 0));
            },
            Item::Bad => {
                return Err(fail_at_word(Gr3FailureKind::BadLandSize, line, 0, land.len(), 0, 0));
            },
            Item::Value(size) => size,
        };
        let kind = match item_of(&lines[line], 1, u8::MAX as u64) {
            Item::Missing => {
                return Err(fail_at_word(Gr3FailureKind::NoLandType, line, 1, land.len(), 0, 0));
            },
            Item::Bad => {
                return Err(fail_at_word(Gr3FailureKind::BadLandType, line, 1, land.len(), 0, 0));
            },
            Item::Value(kind) => kind,
        };
        let (node_ids, next) = match read_id_lines(
            lines,
            broken,
            line + 1,
            size,
            kinds,
            land.len(),
            count as u64,
        ) {
            Err(e) => { return Err(e); },
            Ok(read) => read,
        };
        let ghost land_before = crate::boundaries::segments_view(land@);
        let ghost interior_before = crate::boundaries::segments_view(interior@);
        if kind == 0 {
            land.push(node_ids);
            assert(crate::boundaries::segments_view(land@) == land_before.push(node_ids@));
        } else if kind == 1 {
            interior.push(node_ids);
            assert(crate::boundaries::segments_view(interior@) == interior_before.push(
                node_ids@,
            ));
        } else {
            return Err(
                fail_at_word(Gr3FailureKind::UnknownLandType, line, 1, land.len(), 0, kind),
            );
        }
        line = next;
        done += 1;
    }
    Ok((land, interior))
}

/// A list, if it has an item.
fn if_present(list: Vec<Vec<u32>>) -> (r: Option<Vec<Vec<u32>>>)
    ensures
        crate::boundaries::optional_segments_view(r) == present(
            crate::boundaries::segments_view(list@),
        ),
{
    if list.len() > 0 {
        Some(list)
    } else {
        None
    }
}

/// Reads `np` nodes from line 1 on into a map. With the map comes the line
/// after the nodes.
#[verifier::loop_isolation(false)]
fn read_node_lines(lines: &Vec<Vec<Gr3Word>>, broken: bool, np: u64) -> (r: Result<
    (linked_hash_map::LinkedHashMap<u32, NodeRecord>, usize),
    Gr3Failure,
>)
    requires
        lines.len() > 0,
    ensures
        match r {
            Ok((map, next)) => read_nodes(
                lines_view(lines@),
                broken,
                1,
                np as nat,
                np,
                Seq::empty(),
            ) == Ok::<Seq<(u32, NodeValue)>, Gr3Failure>(node_entries(map)) && next == 1 + np
                && next <= lines.len(),
            Err(e) => read_nodes(lines_view(lines@), broken, 1, np as nat, np, Seq::empty())
                == Err::<Seq<(u32, NodeValue)>, Gr3Failure>(e),
        },
{
    let ghost doc = lines_view(lines@);
    let ghost target = read_nodes(doc, broken, 1, np as nat, np, Seq::empty());
    let mut nodemap = node_map_new();
    let mut line: usize = 1;
    let mut done: u64 = 0;
    while done < np
        invariant
            done <= np,
            line == 1 + done,
            line <= lines.len(),
            target == read_nodes(
                doc,
                broken,
                line as int,
                (np - done) as nat,
                np,
                node_entries(nodemap),
            ),
        decreases np - done,
    {
        let seen = node_map_len(&nodemap);
        if line >= lines.len() {
            return Err(fail_at_end(Gr3FailureKind::FewNodeLines, broken, line, seen, 0, np));
        }
        match read_node(&lines[line]) {
            Err((kind, word)) => {
                return Err(fail_at_word(kind, line, word, seen, 0, 0));
            },
            Ok((id, record)) => {
                node_map_insert(&mut nodemap, id, record);
            },
        }
        line += 1;
        done += 1;
    }
    Ok((nodemap, line))
}

/// Reads `ne` elements from line `at` on into a map. With the map comes the
/// line after the elements.
#[verifier::loop_isolation(false)]
fn read_element_lines(lines: &Vec<Vec<Gr3Word>>, broken: bool, at: usize, ne: u64) -> (r: Result<
    (linked_hash_map::LinkedHashMap<u32, Vec<u32>>, usize),
    Gr3Failure,
>)
    requires
        at <= lines.len(),
    ensures
        match r {
            Ok((map, next)) => read_elements(
                lines_view(lines@),
                broken,
                at as int,
                ne as nat,
                ne,
                Seq::empty(),
            ) == Ok::<Seq<(u32, Seq<u32>)>, Gr3Failure>(element_entries(map)) && next == at + ne
                && next <= lines.len(),
            Err(e) => read_elements(
                lines_view(lines@),
                broken,
                at as int,
                ne as nat,
                ne,
                Seq::empty(),
            ) == Err::<Seq<(u32, Seq<u32>)>, Gr3Failure>(e),
        },
{
    let ghost doc = lines_view(lines@);
    let ghost target = read_elements(doc, broken, at as int, ne as nat, ne, Seq::empty());
    let mut elemmap = element_map_new();
    let mut line: usize = at;
    let mut done: u64 = 0;
    while done < ne
        invariant
            done <= ne,
            line == at + done,
            line <= lines.len(),
            target == read_elements(
                doc,
                broken,
                line as int,
                (ne - done) as nat,
                ne,
                element_entries(elemmap),
            ),
        decreases ne - done,
    {
        let seen = element_map_len(&elemmap);
        if line >= lines.len() {
            return Err(fail_at_end(Gr3FailureKind::FewElementLines, broken, line, seen, 0, ne));
        }
        match read_element(&lines[line]) {
            Err((kind, word, items)) => {
                return Err(fail_at_word(kind, line, word, seen, items, 0));
            },
            Ok((id, node_ids)) => {
                element_map_insert(&mut elemmap, id, node_ids);
            },
        }
        line += 1;
        done += 1;
    }
    Ok((elemmap, line))
}

/// Reads the boundaries of a file from line `at` on.
fn read_boundary_lines(lines: &Vec<Vec<Gr3Word>>, broken: bool, at: usize) -> (r: Result<
    (Vec<Vec<u32>>, Vec<Vec<u32>>, Vec<Vec<u32>>),
    Gr3Failure,
>)
    requires
        at <= lines.len(),
    ensures
        match r {
            Ok((open, land, interior)) => read_boundaries(lines_view(lines@), broken, at as int)
                == Ok::<(Seq<Seq<u32>>, Seq<Seq<u32>>, Seq<Seq<u32>>), Gr3Failure>(
                (
                    crate::boundaries::segments_view(open@),
                    crate::boundaries::segments_view(land@),
                    crate::boundaries::segments_view(interior@),
                ),
            ),
            Err(e) => read_boundaries(lines_view(lines@), broken, at as int) == Err::<
                (Seq<Seq<u32>>, Seq<Seq<u32>>, Seq<Seq<u32>>),
                Gr3Failure,
            >(e),
        },
{
    let open_count = match read_count(
        lines,
        broken,
        at,
        Gr3FailureKind::Unreadable,
        Gr3FailureKind::NoOpenCount,
        Gr3FailureKind::BadOpenCount,
    ) {
        Err(e) => { return Err(e); },
        Ok(n) => n,
    };
    match read_count(
        lines,
        broken,
        at + 1,
        Gr3FailureKind::NoOpenTotalLine,
        Gr3FailureKind::NoOpenTotal,
        Gr3FailureKind::BadOpenTotal,
    ) {
        Err(e) => { return Err(e); },
        Ok(_) => {},
    }
    let (open, next) = match read_open_boundaries(lines, broken, at + 2, open_count) {
        Err(e) => { return Err(e); },
        Ok(read) => read,
    };
    let land_count = match read_count(
        lines,
        broken,
        next,
        Gr3FailureKind::NoLandCountLine,
        Gr3FailureKind::NoLandCount,
        Gr3FailureKind::BadLandCount,
    ) {
        Err(e) => { return Err(e); },
        Ok(n) => n,
    };
    match read_count(
        lines,
        broken,
        next + 1,
        Gr3FailureKind::NoLandTotalLine,
        Gr3FailureKind::NoLandTotal,
        Gr3FailureKind::BadLandTotal,
    ) {
        Err(e) => { return Err(e); },
        Ok(_) => {},
    }
    match read_land_boundaries(lines, broken, next + 2, land_count) {
        Err(e) => Err(e),
        Ok((land, interior)) => Ok((open, land, interior)),
    }
}

/// Reads a mesh file from its lines after the first.
///
/// `description` and `crs` are what the first line gives. Each line is taken
/// as its words, and `broken` says that the file could not be read beyond
/// these lines. A file may end with its elements; it then has no boundaries
/// and no reference system.
pub fn parse_gr3(
    description: String,
    crs: Option<String>,
    lines: &Vec<Vec<Gr3Word>>,
    broken: bool,
) -> (r: Result<Gr3ParserOutput, Gr3Failure>)
    ensures
        match r {
            Ok(output) => parsed(lines_view(lines@), broken) matches Ok(content) && holds(
                output,
                content,
                description@,
                text_view(crs),
            ),
            Err(e) => parsed(lines_view(lines@), broken) == Err::<Gr3Content, Gr3Failure>(e),
        },
{
    if lines.len() == 0 {
        return Err(fail_at_end(Gr3FailureKind::NoCounts, broken, 0, 0, 0, 0));
    }
    let ne = match item_of(&lines[0], 0, u32::MAX as u64) {
        Item::Missing => { return Err(fail_at_word(Gr3FailureKind::NoCounts, 0, 0, 0, 0, 0)); },
        Item::Bad => {
            return Err(fail_at_word(Gr3FailureKind::BadElementCount, 0, 0, 0, 0, 0));
        },
        Item::Value(ne) => ne,
    };
    let np = match item_of(&lines[0], 1, u32::MAX as u64) {
        Item::Missing => {
            return Err(fail_at_word(Gr3FailureKind::NoNodeCount, 0, 1, 0, 0, 0));
        },
        Item::Bad => { return Err(fail_at_word(Gr3FailureKind::BadNodeCount, 0, 1, 0, 0, 0)); },
        Item::Value(np) => np,
    };
    let (nodemap, after_nodes) = match read_node_lines(lines, broken, np) {
        Err(e) => { return Err(e); },
        Ok(read) => read,
    };
    let (elemmap, line) = match read_element_lines(lines, broken, after_nodes, ne) {
        Err(e) => { return Err(e); },
        Ok(read) => read,
    };
    let elements = if element_map_len(&elemmap) > 0 {
        Some(elemmap)
    } else {
        None
    };
    if line >= lines.len() && !broken {
        return Ok(Gr3ParserOutput::new(Some(description), None, nodemap, elements, None, None, None));
    }
    match read_boundary_lines(lines, broken, line) {
        Err(e) => Err(e),
        Ok((open, land, interior)) => Ok(
            Gr3ParserOutput::new(
                Some(description),
                crs,
                nodemap,
                elements,
                if_present(open),
                if_present(land),
                if_present(interior),
            ),
        ),
    }
}

} // verus!
