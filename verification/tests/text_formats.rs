use linked_hash_map::LinkedHashMap;
use schismrs_hgrid::crs::{crs_definition_from, is_geographic_from};
use schismrs_hgrid::gr3::Gr3ParserOutput;
use schismrs_hgrid::linked_map::NodeRecord;
use schismrs_hgrid::sms2dm::MISSING_VALUE;

fn written(gr3: &Gr3ParserOutput) -> Vec<(String, String, String)> {
    gr3.nodal_values()
        .iter()
        .map(|(x, y, v)| {
            (
                format!("{:<.16E}", f64::from_bits(*x)),
                format!("{:<.16E}", f64::from_bits(*y)),
                format!("{:<.16E}", f64::from_bits(*v)),
            )
        })
        .collect()
}

fn node(x: f64, y: f64, value: f64) -> NodeRecord {
    ((x.to_bits(), y.to_bits()), Some(vec![value.to_bits()]))
}

#[test]
fn test_2dm_string_generation() {
    let mut nodes = LinkedHashMap::new();
    nodes.insert(1, node(0.0, 0.0, -10.5));
    nodes.insert(2, node(1.0, 0.0, -12.3));
    nodes.insert(3, node(0.5, 1.0, -15.7));
    nodes.insert(4, node(1.5, 1.0, -18.2));

    let mut elements = LinkedHashMap::new();
    elements.insert(1, vec![1, 2, 3]);
    elements.insert(2, vec![2, 4, 3]);

    let open_boundaries = vec![vec![1, 2]];

    let gr3 = Gr3ParserOutput::new(
        Some("Test mesh".to_string()),
        Some("epsg:6933".to_string()),
        nodes,
        Some(elements),
        Some(open_boundaries),
        None,
        None,
    );

    let sms2dm_string = gr3.to_2dm_string(&written(&gr3));

    assert!(sms2dm_string.contains("MESH2D"));
    assert!(sms2dm_string.contains("E3T 1 1 2 3"));
    assert!(sms2dm_string.contains("E3T 2 2 4 3"));
    assert!(sms2dm_string.contains("ND 1"));
    assert!(sms2dm_string.contains("NS 1 -2"));

    println!("Generated 2DM string:\n{}", sms2dm_string);
}

#[test]
fn test_mixed_element_2dm() {
    let mut nodes = LinkedHashMap::new();
    for i in 1..=6 {
        nodes.insert(i, node(i as f64, 0.0, -10.0 - i as f64));
    }

    let mut elements = LinkedHashMap::new();
    elements.insert(1, vec![1, 2, 3]);
    elements.insert(2, vec![2, 4, 5, 3]);
    elements.insert(3, vec![4, 6, 5]);

    let gr3 = Gr3ParserOutput::new(
        Some("Mixed element mesh".to_string()),
        Some("epsg:6933".to_string()),
        nodes,
        Some(elements),
        None,
        None,
        None,
    );

    let sms2dm_string = gr3.to_2dm_string(&written(&gr3));

    assert!(sms2dm_string.contains("E3T 1 1 2 3"));
    assert!(sms2dm_string.contains("E4Q 2 2 4 5 3"));
    assert!(sms2dm_string.contains("E3T 3 4 6 5"));

    println!("Mixed element 2DM string:\n{}", sms2dm_string);
}

#[test]
fn triangles_come_before_quadrilaterals() {
    let mut nodes: LinkedHashMap<u32, NodeRecord> = LinkedHashMap::new();
    nodes.insert(12, ((0, 0), None));
    let mut elements = LinkedHashMap::new();
    elements.insert(10, vec![2, 4, 5, 3]);
    elements.insert(20, vec![1, 2, 3]);
    elements.insert(30, vec![1, 2]);
    elements.insert(40, vec![4000000000, 6, 5]);
    let gr3 = Gr3ParserOutput::new(None, None, nodes, Some(elements), None, None, None);
    assert_eq!(
        gr3.elements_to_2dm_string(),
        "E3T 20 1 2 3\nE3T 40 4000000000 6 5\nE4Q 10 2 4 5 3\n"
    );
    assert_eq!(gr3.boundaries_to_2dm_string(), "");
    assert_eq!(
        gr3.to_2dm_string(&vec![("a".to_string(), "b".to_string(), "c".to_string())]),
        "MESH2D\nE3T 20 1 2 3\nE3T 40 4000000000 6 5\nE4Q 10 2 4 5 3\nND 12 a b c\n"
    );
}

#[test]
fn node_strings_end_with_a_negative_id() {
    let gr3 = Gr3ParserOutput::new(
        None,
        None,
        LinkedHashMap::new(),
        None,
        Some(vec![vec![1, 2], vec![], vec![7]]),
        Some(vec![vec![10, 20, 30]]),
        Some(vec![vec![0, 105]]),
    );
    assert_eq!(
        gr3.boundaries_to_2dm_string(),
        "NS 1 -2\nNS -7\nNS 10 20 -30\nNS 0 -105\n"
    );
    assert_eq!(gr3.elements_to_2dm_string(), "");
    assert_eq!(gr3.to_2dm_string(&Vec::new()), "MESH2D\nNS 1 -2\nNS -7\nNS 10 20 -30\nNS 0 -105\n");
}

#[test]
fn a_node_without_a_value_gets_the_missing_value() {
    let mut nodes: LinkedHashMap<u32, NodeRecord> = LinkedHashMap::new();
    nodes.insert(1, ((1.0f64.to_bits(), 2.0f64.to_bits()), None));
    nodes.insert(2, ((3.0f64.to_bits(), 4.0f64.to_bits()), Some(vec![])));
    nodes.insert(3, ((5.0f64.to_bits(), 6.0f64.to_bits()), Some(vec![7.0f64.to_bits(), 8.0f64.to_bits()])));
    let gr3 = Gr3ParserOutput::new(None, None, nodes, None, None, None, None);
    assert_eq!(f64::from_bits(MISSING_VALUE), -99999.0);
    let values: Vec<(f64, f64, f64)> = gr3
        .nodal_values()
        .iter()
        .map(|(x, y, v)| (f64::from_bits(*x), f64::from_bits(*y), f64::from_bits(*v)))
        .collect();
    assert_eq!(values, vec![(1.0, 2.0, -99999.0), (3.0, 4.0, -99999.0), (5.0, 6.0, 7.0)]);
}

#[test]
fn geographic_systems_are_told_by_their_texts() {
    assert!(is_geographic_from(Some("+proj=longlat +datum=WGS84 +no_defs"), None, None));
    assert!(is_geographic_from(Some("PROJ=LongLat"), None, None));
    assert!(is_geographic_from(Some("WGS 84 Geographic 2D"), None, None));
    assert!(is_geographic_from(Some("a Geodetic system"), None, None));
    assert!(is_geographic_from(None, Some("+PROJ=LONGLAT"), None));
    assert!(is_geographic_from(Some("+proj=utm +zone=18"), None, Some("{\"type\": \"GeographicCRS\"}")));
    assert!(!is_geographic_from(None, None, None));
    assert!(!is_geographic_from(Some("+proj=utm +zone=18"), Some("+proj=utm +zone=18"), Some("{\"type\": \"ProjectedCRS\"}")));
    assert!(!is_geographic_from(None, Some("geographic"), None));
    assert!(!is_geographic_from(None, None, Some("geographiccrs")));
    assert!(!is_geographic_from(Some(""), Some(""), Some("")));
}

#[test]
fn definition_comes_before_description() {
    let def = Some("+proj=utm".to_string());
    let desc = Some("WGS 84".to_string());
    assert_eq!(crs_definition_from(def.clone(), desc.clone()), def);
    assert_eq!(crs_definition_from(Some(String::new()), desc.clone()), desc);
    assert_eq!(crs_definition_from(None, desc.clone()), desc);
    assert_eq!(crs_definition_from(Some(String::new()), None), None);
    assert_eq!(crs_definition_from(None, None), None);
}

#[test]
fn first_line_splits_into_description_and_reference_system() {
    use_split("epsg:4326", &[], true, &[], "", Some("epsg:4326"));
    use_split(
        "  my   mesh epsg:4326 ",
        &["my", "mesh", "epsg:4326"],
        false,
        &[false, false, true],
        "my mesh",
        Some("epsg:4326"),
    );
    use_split(
        "grid +proj=utm +zone=18",
        &["grid", "+proj=utm", "+zone=18"],
        false,
        &[false, true, true],
        "grid",
        Some("+proj=utm +zone=18"),
    );
    use_split("just  a mesh", &["just", "a", "mesh"], false, &[false, false, false], "just  a mesh", None);
    use_split("just a mesh", &["just", "a", "mesh"], false, &[], "just a mesh", None);
    use_split("x y", &["x", "y"], false, &[true, true, true], "", Some("x y"));
    use_split("", &[], false, &[], "", None);
}

fn use_split(
    line: &str,
    words: &[&str],
    whole: bool,
    accepted: &[bool],
    description: &str,
    crs: Option<&str>,
) {
    let words: Vec<String> = words.iter().map(|w| w.to_string()).collect();
    let (d, c) = schismrs_hgrid::crs::split_description(line, &words, whole, &accepted.to_vec());
    assert_eq!(d, description);
    assert_eq!(c.as_deref(), crs);
}
