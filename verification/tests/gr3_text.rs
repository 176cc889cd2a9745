use linked_hash_map::LinkedHashMap;
use schismrs_hgrid::gr3::Gr3ParserOutput;
use schismrs_hgrid::gr3_reader::{parse_gr3, Gr3Failure, Gr3FailureKind, Gr3Word};
use schismrs_hgrid::linked_map::NodeRecord;
use schismrs_hgrid::numbers::parse_unsigned;
use schismrs_hgrid::Hgrid;

fn words_of(line: &str) -> Vec<Gr3Word> {
    line.split_whitespace()
        .map(|word| Gr3Word {
            text: word.to_string(),
            float: word.parse::<f64>().ok().map(f64::to_bits),
        })
        .collect()
}

fn lines_of(text: &str) -> Vec<Vec<Gr3Word>> {
    text.lines().skip(1).map(words_of).collect()
}

fn read(text: &str) -> Result<Gr3ParserOutput, Gr3Failure> {
    parse_gr3("a mesh".to_string(), Some("EPSG:4326".to_string()), &lines_of(text), false)
}

fn failure(text: &str) -> (Gr3FailureKind, usize, usize, usize, usize, u64) {
    match read(text) {
        Ok(_) => panic!("the file was accepted"),
        Err(f) => (f.kind, f.line, f.word, f.seen, f.items, f.number),
    }
}

fn written(gr3: &Gr3ParserOutput) -> String {
    let numbers: Vec<(String, String, Vec<String>)> = gr3
        .nodes_ref()
        .iter()
        .map(|(_, (coord, value))| {
            (
                f64::from_bits(coord.0).to_string(),
                f64::from_bits(coord.1).to_string(),
                value
                    .as_ref()
                    .map_or(Vec::new(), |v| v.iter().map(|b| f64::from_bits(*b).to_string()).collect()),
            )
        })
        .collect();
    gr3.to_gr3_string("", &numbers).unwrap()
}

fn entries_of<V: Clone>(map: &LinkedHashMap<u32, V>) -> Vec<(u32, V)> {
    map.iter().map(|(k, v)| (*k, v.clone())).collect()
}

const FULL: &str = "Test grid
2 4
1 0.0 0.0 -10.0
2 1.0 0.0 -12.0 7.5
3 0.0 1.0 -8.0
4 1.0 1.0
1 3 1 2 3
2 3 2 4 3
1 ! total number of open boundaries
2 ! total number of open boundary nodes
2 ! number of nodes for ocean_boundary_1
1
2
3 ! total number of non-ocean boundaries
5 ! total number of non-ocean boundaries nodes
2 0 ! number of nodes for land_boundary_1
2
4
1 1 ! number of nodes for interior_boundary_1
3
2 0 ! number of nodes for land_boundary_2
4
3";

#[test]
fn a_full_file_is_read() {
    let gr3 = read(FULL).unwrap();
    assert_eq!(gr3.description(), Some("a mesh".to_string()));
    assert_eq!(gr3.crs(), Some("EPSG:4326".to_string()));
    let nodes = entries_of(&gr3.nodes());
    assert_eq!(nodes.len(), 4);
    assert_eq!(nodes[1].0, 2);
    assert_eq!(nodes[1].1 .0, (1.0f64.to_bits(), 0.0f64.to_bits()));
    assert_eq!(nodes[1].1 .1, Some(vec![(-12.0f64).to_bits(), 7.5f64.to_bits()]));
    assert_eq!(nodes[3].1 .1, Some(vec![]));
    assert_eq!(
        entries_of(&gr3.elements().unwrap()),
        vec![(1, vec![1, 2, 3]), (2, vec![2, 4, 3])]
    );
    assert_eq!(gr3.open_boundaries(), Some(vec![vec![1, 2]]));
    assert_eq!(gr3.land_boundaries(), Some(vec![vec![2, 4], vec![4, 3]]));
    assert_eq!(gr3.interior_boundaries(), Some(vec![vec![3]]));
}

#[test]
fn a_file_may_end_with_its_elements() {
    let gr3 = read("Test grid\n2 3\n1 0.0 0.0 -10.0\n2 1.0 0.0 -12.0\n3 0.5 1.0 -8.0\n1 3 1 2 3\n2 3 1 3 2\n").unwrap();
    assert_eq!(gr3.crs(), None);
    assert_eq!(gr3.open_boundaries(), None);
    assert_eq!(gr3.land_boundaries(), None);
    assert_eq!(gr3.interior_boundaries(), None);
    assert_eq!(entries_of(&gr3.elements().unwrap()).len(), 2);
    let gr3 = read("x\n0 1\n5 1e3 -2.5\n").unwrap();
    assert!(gr3.elements().is_none());
    assert_eq!(entries_of(&gr3.nodes())[0].1 .0, (1000.0f64.to_bits(), (-2.5f64).to_bits()));
    let hgrid = Hgrid::try_from(&gr3).unwrap();
    assert_eq!(hgrid.nodes().node_ids(), vec![5]);
}

#[test]
fn a_repeated_id_moves_to_the_end() {
    let gr3 = read("x\n0 3\n7 0 0 1\n8 0 0 2\n7 5 5 3\n").unwrap();
    let nodes = entries_of(&gr3.nodes());
    assert_eq!(nodes.len(), 2);
    assert_eq!(nodes[0].0, 8);
    assert_eq!(nodes[1], (7, ((5.0f64.to_bits(), 5.0f64.to_bits()), Some(vec![3.0f64.to_bits()]))));
}

#[test]
fn empty_groups_are_left_out() {
    let gr3 = read("x\n0 1\n1 0 0\n0\n0\n1\n1\n1 1\n1\n").unwrap();
    assert_eq!(gr3.open_boundaries(), None);
    assert_eq!(gr3.land_boundaries(), None);
    assert_eq!(gr3.interior_boundaries(), Some(vec![vec![1]]));
    assert_eq!(gr3.crs(), Some("EPSG:4326".to_string()));
}

#[test]
fn failures_say_what_and_where() {
    assert_eq!(failure("x"), (Gr3FailureKind::NoCounts, 0, 0, 0, 0, 0));
    assert_eq!(failure("x\n\n"), (Gr3FailureKind::NoCounts, 0, 0, 0, 0, 0));
    assert_eq!(failure("x\nab 3\n"), (Gr3FailureKind::BadElementCount, 0, 0, 0, 0, 0));
    assert_eq!(failure("x\n-1 3\n"), (Gr3FailureKind::BadElementCount, 0, 0, 0, 0, 0));
    assert_eq!(failure("x\n4294967296 3\n"), (Gr3FailureKind::BadElementCount, 0, 0, 0, 0, 0));
    assert_eq!(failure("x\n1\n"), (Gr3FailureKind::NoNodeCount, 0, 1, 0, 0, 0));
    assert_eq!(failure("x\n1 2.0\n"), (Gr3FailureKind::BadNodeCount, 0, 1, 0, 0, 0));
    assert_eq!(failure("x\n1 2\n1 0 0\n"), (Gr3FailureKind::FewNodeLines, 2, 0, 1, 0, 2));
    assert_eq!(failure("x\n1 2\n1 0 0\nz 0 0\n"), (Gr3FailureKind::BadNodeId, 2, 0, 1, 0, 0));
    assert_eq!(failure("x\n1 2\n\n"), (Gr3FailureKind::NoNodeId, 1, 0, 0, 0, 0));
    assert_eq!(failure("x\n1 1\n1\n"), (Gr3FailureKind::NoX, 1, 1, 0, 0, 0));
    assert_eq!(failure("x\n1 1\n1 x\n"), (Gr3FailureKind::BadX, 1, 1, 0, 0, 0));
    assert_eq!(failure("x\n1 1\n1 0\n"), (Gr3FailureKind::NoY, 1, 2, 0, 0, 0));
    assert_eq!(failure("x\n1 1\n1 0 y\n"), (Gr3FailureKind::BadY, 1, 2, 0, 0, 0));
    assert_eq!(failure("x\n1 1\n1 0 0 1 2 v 3\n"), (Gr3FailureKind::BadValue, 1, 5, 0, 0, 0));
    assert_eq!(failure("x\n2 1\n1 0 0\n9 3 1 1 1\n"), (Gr3FailureKind::FewElementLines, 3, 0, 1, 0, 2));
    assert_eq!(failure("x\n1 1\n1 0 0\ne 3 1 1 1\n"), (Gr3FailureKind::BadElementId, 2, 0, 0, 0, 0));
    assert_eq!(failure("x\n1 1\n1 0 0\n\n"), (Gr3FailureKind::NoElementId, 2, 0, 0, 0, 0));
    assert_eq!(failure("x\n1 1\n1 0 0\n9\n"), (Gr3FailureKind::NoElementSize, 2, 1, 0, 0, 0));
    assert_eq!(failure("x\n1 1\n1 0 0\n9 256 1\n"), (Gr3FailureKind::BadElementSize, 2, 1, 0, 0, 0));
    assert_eq!(failure("x\n1 1\n1 0 0\n9 3 1 1\n"), (Gr3FailureKind::FewElementNodes, 2, 4, 0, 2, 0));
    assert_eq!(failure("x\n1 1\n1 0 0\n9 3 1 q 1\n"), (Gr3FailureKind::BadElementNode, 2, 3, 0, 1, 0));
    let head = "x\n0 1\n1 0 0\n";
    assert_eq!(failure(&format!("{head}\n")), (Gr3FailureKind::NoOpenCount, 2, 0, 0, 0, 0));
    assert_eq!(failure(&format!("{head}o\n")), (Gr3FailureKind::BadOpenCount, 2, 0, 0, 0, 0));
    assert_eq!(failure(&format!("{head}1\n")), (Gr3FailureKind::NoOpenTotalLine, 3, 0, 0, 0, 0));
    assert_eq!(failure(&format!("{head}1\n\n")), (Gr3FailureKind::NoOpenTotal, 3, 0, 0, 0, 0));
    assert_eq!(failure(&format!("{head}1\n=\n")), (Gr3FailureKind::BadOpenTotal, 3, 0, 0, 0, 0));
    assert_eq!(failure(&format!("{head}2\n1\n1\n1\n")), (Gr3FailureKind::FewOpenLines, 6, 0, 1, 0, 2));
    assert_eq!(failure(&format!("{head}1\n1\n\n")), (Gr3FailureKind::NoOpenSize, 4, 0, 0, 0, 0));
    assert_eq!(failure(&format!("{head}1\n1\nk\n")), (Gr3FailureKind::BadOpenSize, 4, 0, 0, 0, 0));
    assert_eq!(failure(&format!("{head}1\n2\n2\n1\n")), (Gr3FailureKind::FewOpenNodes, 6, 0, 0, 1, 0));
    assert_eq!(failure(&format!("{head}1\n2\n2\n1\n\n")), (Gr3FailureKind::NoOpenNode, 6, 0, 0, 1, 0));
    assert_eq!(failure(&format!("{head}1\n2\n2\n1\n1.5\n")), (Gr3FailureKind::BadOpenNode, 6, 0, 0, 1, 0));
    assert_eq!(failure(&format!("{head}0\n0\n")), (Gr3FailureKind::NoLandCountLine, 4, 0, 0, 0, 0));
    assert_eq!(failure(&format!("{head}0\n0\n\n")), (Gr3FailureKind::NoLandCount, 4, 0, 0, 0, 0));
    assert_eq!(failure(&format!("{head}0\n0\nl\n")), (Gr3FailureKind::BadLandCount, 4, 0, 0, 0, 0));
    assert_eq!(failure(&format!("{head}0\n0\n1\n")), (Gr3FailureKind::NoLandTotalLine, 5, 0, 0, 0, 0));
    assert_eq!(failure(&format!("{head}0\n0\n1\n\n")), (Gr3FailureKind::NoLandTotal, 5, 0, 0, 0, 0));
    assert_eq!(failure(&format!("{head}0\n0\n1\nt\n")), (Gr3FailureKind::BadLandTotal, 5, 0, 0, 0, 0));
    assert_eq!(failure(&format!("{head}0\n0\n2\n1\n1 0\n1\n")), (Gr3FailureKind::FewLandLines, 8, 0, 1, 0, 2));
    assert_eq!(failure(&format!("{head}0\n0\n1\n1\n\n")), (Gr3FailureKind::NoLandSize, 6, 0, 0, 0, 0));
    assert_eq!(failure(&format!("{head}0\n0\n1\n1\ns 0\n")), (Gr3FailureKind::BadLandSize, 6, 0, 0, 0, 0));
    assert_eq!(failure(&format!("{head}0\n0\n1\n1\n1\n")), (Gr3FailureKind::NoLandType, 6, 1, 0, 0, 0));
    assert_eq!(failure(&format!("{head}0\n0\n1\n1\n1 !\n")), (Gr3FailureKind::BadLandType, 6, 1, 0, 0, 0));
    assert_eq!(failure(&format!("{head}0\n0\n1\n1\n2 0\n1\n")), (Gr3FailureKind::FewLandNodes, 8, 0, 0, 1, 1));
    assert_eq!(failure(&format!("{head}0\n0\n1\n1\n1 0\n\n")), (Gr3FailureKind::NoLandNode, 7, 0, 0, 0, 0));
    assert_eq!(failure(&format!("{head}0\n0\n1\n1\n1 0\nn\n")), (Gr3FailureKind::BadLandNode, 7, 0, 0, 0, 0));
    assert_eq!(failure(&format!("{head}0\n0\n1\n1\n1 2\n1\n")), (Gr3FailureKind::UnknownLandType, 6, 1, 0, 0, 2));
}

#[test]
fn a_file_that_breaks_off_is_unreadable() {
    let lines = lines_of("x\n1 2\n1 0 0\n");
    let r = parse_gr3(String::new(), None, &lines, true);
    assert_eq!(r.unwrap_err().kind, Gr3FailureKind::Unreadable);
    let lines = lines_of("x\n0 1\n1 0 0\n");
    let r = parse_gr3(String::new(), None, &lines, true);
    let f = r.unwrap_err();
    assert_eq!((f.kind, f.line), (Gr3FailureKind::Unreadable, 2));
    let r = parse_gr3(String::new(), None, &Vec::new(), true);
    assert_eq!(r.unwrap_err().kind, Gr3FailureKind::Unreadable);
}

#[test]
fn unsigned_numbers_are_read_as_the_standard_library_reads_them() {
    for word in ["0", "7", "+7", "007", "4294967295", "4294967296", "", "+", "-", "-0", "1 ", "1e3", "12a", "18446744073709551615", "18446744073709551616", "99999999999999999999999", "٣"] {
        assert_eq!(parse_unsigned(word, u32::MAX as u64), word.parse::<u32>().ok().map(u64::from), "{word}");
        assert_eq!(parse_unsigned(word, u64::MAX), word.parse::<u64>().ok(), "{word}");
        assert_eq!(parse_unsigned(word, u8::MAX as u64), word.parse::<u8>().ok().map(u64::from), "{word}");
    }
}

#[test]
fn the_text_of_a_file() {
    let gr3 = read(FULL).unwrap();
    assert_eq!(
        written(&gr3),
        "a mesh
2 4
1 0 0 -10
2 1 0 -12 7.5
3 0 1 -8
4 1 1 
1 3 1 2 3
2 3 2 4 3
1 ! total number of open boundaries
2 ! total number of open boundary nodes
2 ! number of nodes for ocean_boundary_1
1
2
3 ! total number of non-ocean boundaries
5 ! total number of non-ocean boundaries nodes
2 0 ! number of nodes for land_boundary_1
2
4
2 0 ! number of nodes for land_boundary_2
4
3
1 1 ! number of nodes for interior_boundary_1
3"
    );
}

#[test]
fn what_is_written_reads_back() {
    let gr3 = read(FULL).unwrap();
    let text = written(&gr3);
    let again = read(&text).unwrap();
    assert_eq!(entries_of(&again.nodes()), entries_of(&gr3.nodes()));
    assert_eq!(entries_of(&again.elements().unwrap()), entries_of(&gr3.elements().unwrap()));
    assert_eq!(again.open_boundaries(), gr3.open_boundaries());
    assert_eq!(again.land_boundaries(), gr3.land_boundaries());
    assert_eq!(again.interior_boundaries(), gr3.interior_boundaries());

    let mut hgrid = Hgrid::try_from(&gr3).unwrap();
    hgrid.flip_depths();
    let after_flip = read(&written(&hgrid.to_gr3())).unwrap();
    assert_eq!(entries_of(&after_flip.nodes()), entries_of(&gr3.nodes()));
    assert_eq!(after_flip.land_boundaries(), gr3.land_boundaries());
}

#[test]
fn nodes_are_written_under_their_positions() {
    let mut nodes: LinkedHashMap<u32, NodeRecord> = LinkedHashMap::new();
    nodes.insert(30, ((1.5f64.to_bits(), 2.0f64.to_bits()), None));
    nodes.insert(10, ((0.0f64.to_bits(), 0.0f64.to_bits()), Some(vec![4.0f64.to_bits()])));
    let mut elements: LinkedHashMap<u32, Vec<u32>> = LinkedHashMap::new();
    elements.insert(77, vec![10, 30, 10]);
    let gr3 = Gr3ParserOutput::new(None, None, nodes, Some(elements), None, Some(vec![]), None);
    let numbers = vec![
        ("1.5".to_string(), "2".to_string(), vec![]),
        ("0".to_string(), "0".to_string(), vec!["4".to_string()]),
    ];
    assert_eq!(
        gr3.to_gr3_string("epsg", &numbers).unwrap(),
        "epsg\n1 2\n1 1.5 2 -99999.\n2 0 0 4\n1 3 2 1 2\n0 ! total number of open boundaries\n0 ! total number of open boundary nodes\n0 ! total number of non-ocean boundaries\n0 ! total number of non-ocean boundaries nodes"
    );
    let mut nodes: LinkedHashMap<u32, NodeRecord> = LinkedHashMap::new();
    nodes.insert(1, ((0, 0), None));
    let mut elements: LinkedHashMap<u32, Vec<u32>> = LinkedHashMap::new();
    elements.insert(1, vec![1, 2, 1]);
    let dangling = Gr3ParserOutput::new(Some("d".to_string()), None, nodes, Some(elements), None, None, None);
    assert!(dangling.to_gr3_string("c", &vec![("0".to_string(), "0".to_string(), vec![])]).is_none());
}
