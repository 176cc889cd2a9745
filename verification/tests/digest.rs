use linked_hash_map::LinkedHashMap;
use schismrs_hgrid::digest::to_hex;
use schismrs_hgrid::gr3::Gr3ParserOutput;
use schismrs_hgrid::gr3_reader::{parse_gr3, Gr3Word};
use schismrs_hgrid::linked_map::NodeRecord;
use schismrs_hgrid::Hgrid;

fn node(x: f64, y: f64, depth: f64) -> NodeRecord {
    ((x.to_bits(), y.to_bits()), Some(vec![depth.to_bits()]))
}

fn grid(
    description: &str,
    points: &[(u32, f64, f64, f64)],
    cells: &[(u32, Vec<u32>)],
) -> Hgrid {
    let mut nodes: LinkedHashMap<u32, NodeRecord> = LinkedHashMap::new();
    for (id, x, y, depth) in points {
        nodes.insert(*id, node(*x, *y, *depth));
    }
    let mut elements: LinkedHashMap<u32, Vec<u32>> = LinkedHashMap::new();
    for (id, node_ids) in cells {
        elements.insert(*id, node_ids.clone());
    }
    let parsed = Gr3ParserOutput::new(
        Some(description.to_string()),
        None,
        nodes,
        Some(elements),
        None,
        None,
        None,
    );
    Hgrid::try_from(&parsed).unwrap()
}

fn load(text: &str) -> Hgrid {
    let mut lines = text.lines();
    let description = lines.next().unwrap().to_string();
    let words: Vec<Vec<Gr3Word>> = lines
        .map(|line| {
            line.split_whitespace()
                .map(|word| Gr3Word {
                    text: word.to_string(),
                    float: word.parse::<f64>().ok().map(f64::to_bits),
                })
                .collect()
        })
        .collect();
    let parsed = parse_gr3(description, None, &words, false).unwrap();
    Hgrid::try_from(&parsed).unwrap()
}

fn test_grid() -> Hgrid {
    grid(
        "Test grid",
        &[(1, 0.0, 0.0, -10.0), (2, 1.0, 0.0, -12.0), (3, 0.5, 1.0, -8.0)],
        &[(1, vec![1, 2, 3]), (2, vec![1, 3, 2])],
    )
}

#[test]
fn test_hgrid_hash_deterministic() {
    let text = "Test grid\n2 3\n1 0.0 0.0 -10.0\n2 1.0 0.0 -12.0\n3 0.5 1.0 -8.0\n1 3 1 2 3\n2 3 1 3 2\n";
    let hgrid1 = load(text);
    let hgrid2 = load(text);
    assert_eq!(hgrid1.calculate_hash(), hgrid2.calculate_hash());
    assert_eq!(hgrid1.quick_hash(), hgrid2.quick_hash());
    assert_eq!(hgrid1.calculate_hash(), test_grid().calculate_hash());
}

#[test]
fn test_hgrid_hash_different_for_different_grids() {
    let hgrid1 = load("Test grid 1\n1 2\n1 0.0 0.0 -10.0\n2 1.0 0.0 -12.0\n1 3 1 2 1\n");
    let hgrid2 = load("Test grid 2\n1 2\n1 0.0 0.0 -15.0\n2 1.0 0.0 -12.0\n1 3 1 2 1\n");
    assert_ne!(hgrid1.calculate_hash(), hgrid2.calculate_hash());
    assert_ne!(hgrid1.quick_hash(), hgrid2.quick_hash());
}

#[test]
fn digest_is_the_sha256_of_the_mesh_bytes() {
    let hgrid = test_grid();
    assert_eq!(hgrid.hash_bytes().len(), 125);
    assert_eq!(
        hgrid.calculate_hash(),
        "535f9cc842598fea116df1262de8fdc005c4b85a3870f0c989fb9d29853b515a"
    );
}

#[test]
fn mesh_bytes_are_little_endian_and_in_order() {
    let mut nodes: LinkedHashMap<u32, NodeRecord> = LinkedHashMap::new();
    nodes.insert(258, ((1.0f64.to_bits(), 2.0f64.to_bits()), Some(vec![3.0f64.to_bits()])));
    let mut elements: LinkedHashMap<u32, Vec<u32>> = LinkedHashMap::new();
    elements.insert(7, vec![258, 258, 258]);
    let parsed = Gr3ParserOutput::new(
        Some("\u{e9}".to_string()),
        Some("EPSG:4326".to_string()),
        nodes,
        Some(elements),
        Some(vec![vec![258, 258]]),
        Some(vec![vec![258]]),
        None,
    );
    let hgrid = Hgrid::try_from(&parsed).unwrap();
    assert_eq!(
        to_hex(&hgrid.hash_bytes()),
        "c3a902010000000000000000f03f00000000000000400000000000000840070000000201000002010000020100000201000002010000455053473a34333236"
    );
    assert_eq!(
        hgrid.calculate_hash(),
        "f78ce1d9f919e11c108cd6a3d73249c9b1dc0485192b8032be75a9bb7ac78c94"
    );
}

#[test]
fn a_node_without_values_gives_its_id_and_coordinates_only() {
    let mut nodes: LinkedHashMap<u32, NodeRecord> = LinkedHashMap::new();
    nodes.insert(1, ((0, 0), None));
    let parsed = Gr3ParserOutput::new(None, None, nodes, None, None, None, None);
    let hgrid = Hgrid::try_from(&parsed).unwrap();
    assert_eq!(to_hex(&hgrid.hash_bytes()), "0100000000000000000000000000000000000000");
    assert_eq!(
        hgrid.calculate_hash(),
        "21fc3f955c14305ed66b2f6064de082e8447f29048da3ab7c5c01090c1b722ab"
    );
}

#[test]
fn hexadecimal_has_two_lower_case_digits_for_each_byte() {
    assert_eq!(to_hex(&vec![0x00, 0x0f, 0xa0, 0xff, 0x3c]), "000fa0ff3c");
    assert_eq!(to_hex(&Vec::new()), "");
}

#[test]
fn flipping_the_depths_changes_the_digest() {
    let mut hgrid = test_grid();
    let before = hgrid.calculate_hash();
    hgrid.flip_depths();
    assert_ne!(hgrid.calculate_hash(), before);
    hgrid.flip_depths();
    assert_eq!(hgrid.calculate_hash(), before);
}
