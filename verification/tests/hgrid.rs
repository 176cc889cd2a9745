use linked_hash_map::LinkedHashMap;
use schismrs_hgrid::boundaries::{
    BoundariesError, Boundaries, BoundaryType, InteriorBoundaries, LandBoundaries, OpenBoundaries,
};
use schismrs_hgrid::elements::{Elements, ElementsError};
use schismrs_hgrid::gr3::Gr3ParserOutput;
use schismrs_hgrid::linked_map::NodeRecord;
use schismrs_hgrid::nodes::Nodes;
use schismrs_hgrid::{DepthConvention, Hgrid, HgridTryFromError};
use std::sync::Arc;

fn node(x: f64, y: f64, depth: f64) -> NodeRecord {
    ((x.to_bits(), y.to_bits()), Some(vec![depth.to_bits()]))
}

fn floats(bits: &[u64]) -> Vec<f64> {
    bits.iter().map(|b| f64::from_bits(*b)).collect()
}

fn depth_mesh(third_depth: f64) -> Hgrid {
    let mut nodes_hash_map: LinkedHashMap<u32, NodeRecord> = LinkedHashMap::new();
    nodes_hash_map.insert(0, node(0.0, 0.0, 10.0));
    nodes_hash_map.insert(1, node(1.0, 0.0, 20.0));
    nodes_hash_map.insert(2, node(0.5, 1.0, third_depth));
    let nodes = Arc::new(Nodes::new(nodes_hash_map, None));
    let mut elements_hash_map: LinkedHashMap<u32, Vec<u32>> = LinkedHashMap::new();
    elements_hash_map.insert(0, vec![0, 1, 2]);
    let elements = Elements::new(elements_hash_map, nodes.clone()).unwrap();
    Hgrid::new(nodes, elements, None, None)
}

fn parsed_square(
    open: Option<Vec<Vec<u32>>>,
    land: Option<Vec<Vec<u32>>>,
    interior: Option<Vec<Vec<u32>>>,
) -> Gr3ParserOutput {
    let mut nodes: LinkedHashMap<u32, NodeRecord> = LinkedHashMap::new();
    nodes.insert(1, node(0.0, 0.0, 10.5));
    nodes.insert(2, node(1.0, 0.0, 12.25));
    nodes.insert(3, node(0.0, 1.0, -3.0));
    nodes.insert(4, node(1.0, 1.0, 0.0));
    let mut elements: LinkedHashMap<u32, Vec<u32>> = LinkedHashMap::new();
    elements.insert(1, vec![1, 2, 3]);
    elements.insert(2, vec![2, 4, 3]);
    Gr3ParserOutput::new(
        Some("Test mesh".to_string()),
        Some("epsg:6933".to_string()),
        nodes,
        Some(elements),
        open,
        land,
        interior,
    )
}

fn entries_of<V: Clone>(map: &LinkedHashMap<u32, V>) -> Vec<(u32, V)> {
    map.iter().map(|(k, v)| (*k, v.clone())).collect()
}

#[test]
fn test_depth_convention_methods() {
    let hgrid = depth_mesh(5.0);
    assert_eq!(hgrid.depth_convention(), DepthConvention::PositiveDown);

    let depths = floats(&hgrid.depths());
    assert_eq!(depths.len(), 3);
    assert!(depths.iter().all(|&d| d >= 0.0));

    let depths_pd = floats(&hgrid.depths_positive_down());
    assert_eq!(depths_pd.len(), 3);
    assert!(depths_pd.iter().all(|&d| d >= 0.0));
    assert!((depths_pd[0] - 10.0).abs() < 1e-9);
    assert!((depths_pd[1] - 20.0).abs() < 1e-9);
    assert!((depths_pd[2] - 5.0).abs() < 1e-9);

    let depths_pu = floats(&hgrid.depths_positive_up());
    assert!(depths_pu.iter().all(|&d| d <= 0.0));
    assert!((depths_pu[0] - (-10.0)).abs() < 1e-9);
    assert!((depths_pu[1] - (-20.0)).abs() < 1e-9);
    assert!((depths_pu[2] - (-5.0)).abs() < 1e-9);
}

#[test]
fn test_flip_depths() {
    let mut hgrid = depth_mesh(15.0);
    assert_eq!(hgrid.depth_convention(), DepthConvention::PositiveDown);
    let depths_before = floats(&hgrid.depths());
    assert!((depths_before[0] - 10.0).abs() < 1e-9);
    assert!((depths_before[1] - 20.0).abs() < 1e-9);
    assert!((depths_before[2] - 15.0).abs() < 1e-9);

    hgrid.flip_depths();
    assert_eq!(hgrid.depth_convention(), DepthConvention::PositiveUp);
    let depths_after = floats(&hgrid.depths());
    assert!((depths_after[0] - (-10.0)).abs() < 1e-9);
    assert!((depths_after[1] - (-20.0)).abs() < 1e-9);
    assert!((depths_after[2] - (-15.0)).abs() < 1e-9);

    let depths_pd = floats(&hgrid.depths_positive_down());
    assert!((depths_pd[0] - 10.0).abs() < 1e-9);
    assert!((depths_pd[1] - 20.0).abs() < 1e-9);
    assert!((depths_pd[2] - 15.0).abs() < 1e-9);

    hgrid.flip_depths();
    assert_eq!(hgrid.depth_convention(), DepthConvention::PositiveDown);
    let depths_final = floats(&hgrid.depths());
    assert!((depths_final[0] - 10.0).abs() < 1e-9);
    assert!((depths_final[1] - 20.0).abs() < 1e-9);
    assert!((depths_final[2] - 15.0).abs() < 1e-9);
}

#[test]
fn negation_turns_only_the_sign_bit() {
    for value in [0.0f64, -0.0, 1.5, -2.25, 1.0e300, f64::INFINITY, f64::MIN_POSITIVE] {
        assert_eq!(schismrs_hgrid::nodes::negate(value.to_bits()), (-value).to_bits());
    }
    assert_eq!(schismrs_hgrid::nodes::negate(0), 0x8000_0000_0000_0000);
    assert_eq!(schismrs_hgrid::nodes::SIGN_BIT, 0x8000_0000_0000_0000);
}

#[test]
fn flip_rewires_the_elements_to_the_new_store() {
    let mut hgrid = depth_mesh(15.0);
    hgrid.flip_depths();
    let through_elements = floats(&hgrid.elements().nodes().depths());
    assert_eq!(through_elements, vec![-10.0, -20.0, -15.0]);
    assert_eq!(floats(&hgrid.x()), vec![0.0, 1.0, 0.5]);
    assert_eq!(floats(&hgrid.y()), vec![0.0, 0.0, 1.0]);
    assert_eq!(hgrid.elements().len(), 1);
}

#[test]
fn depths_skip_nodes_without_values() {
    let mut map: LinkedHashMap<u32, NodeRecord> = LinkedHashMap::new();
    map.insert(1, ((0, 0), None));
    map.insert(2, ((0, 0), Some(vec![])));
    map.insert(3, ((0, 0), Some(vec![2.5f64.to_bits(), 9.0f64.to_bits()])));
    let nodes = Nodes::new(map, None);
    assert_eq!(floats(&nodes.depths()), vec![2.5]);
    assert_eq!(nodes.len(), 3);
    assert_eq!(nodes.node_ids(), vec![1, 2, 3]);
}

#[test]
fn try_from_builds_the_mesh_of_the_file() {
    let parsed = parsed_square(Some(vec![vec![1, 2]]), None, Some(vec![]));
    let hgrid = Hgrid::try_from(&parsed).unwrap();
    assert_eq!(hgrid.depth_convention(), DepthConvention::PositiveDown);
    assert_eq!(hgrid.description().map(|s| s.as_str()), Some("Test mesh"));
    assert_eq!(hgrid.crs(), Some("epsg:6933"));
    assert_eq!(hgrid.nodes().node_ids(), vec![1, 2, 3, 4]);
    assert_eq!(floats(&hgrid.depths()), vec![10.5, 12.25, -3.0, 0.0]);
    assert_eq!(
        entries_of(hgrid.elements().hash_map()),
        vec![(1, vec![1, 2, 3]), (2, vec![2, 4, 3])]
    );
    let boundaries = hgrid.boundaries().unwrap();
    assert_eq!(boundaries.open().unwrap().nodes_ids(), &vec![vec![1, 2]]);
    assert!(boundaries.land().is_none());
    assert!(boundaries.interior().is_none());
    let groups = boundaries.to_boundary_type_map();
    assert_eq!(groups.len(), 1);
    assert_eq!(groups[0].0, BoundaryType::Open);
}

#[test]
fn try_from_leaves_boundaries_out_when_every_group_is_empty() {
    let parsed = parsed_square(Some(vec![]), None, None);
    let hgrid = Hgrid::try_from(&parsed).unwrap();
    assert!(hgrid.boundaries().is_none());
}

#[test]
fn try_from_names_the_element_and_the_missing_nodes() {
    let mut nodes: LinkedHashMap<u32, NodeRecord> = LinkedHashMap::new();
    nodes.insert(1, node(0.0, 0.0, 1.0));
    nodes.insert(2, node(1.0, 0.0, 1.0));
    let mut elements: LinkedHashMap<u32, Vec<u32>> = LinkedHashMap::new();
    elements.insert(7, vec![1, 2, 1]);
    elements.insert(8, vec![9, 2, 11]);
    elements.insert(9, vec![12, 1, 2]);
    let parsed = Gr3ParserOutput::new(None, None, nodes, Some(elements), None, None, None);
    match Hgrid::try_from(&parsed) {
        Err(HgridTryFromError::ElementsError(ElementsError::DanglingNodeReference {
            element_id,
            node_ids,
        })) => {
            assert_eq!(element_id, 8);
            assert_eq!(node_ids, vec![9, 11]);
        }
        other => panic!("unexpected result: {:?}", other.map(|_| ())),
    }
}

#[test]
fn try_from_refuses_a_wrong_element_size_first() {
    let mut nodes: LinkedHashMap<u32, NodeRecord> = LinkedHashMap::new();
    nodes.insert(1, node(0.0, 0.0, 1.0));
    let mut elements: LinkedHashMap<u32, Vec<u32>> = LinkedHashMap::new();
    elements.insert(3, vec![5, 6, 7]);
    elements.insert(4, vec![1, 1]);
    let parsed = Gr3ParserOutput::new(None, None, nodes, Some(elements), None, None, None);
    match Hgrid::try_from(&parsed) {
        Err(HgridTryFromError::ElementsError(ElementsError::InvalidElementSize {
            element_id,
            node_count,
        })) => {
            assert_eq!(element_id, 4);
            assert_eq!(node_count, 2);
        }
        other => panic!("unexpected result: {:?}", other.map(|_| ())),
    }
}

#[test]
fn try_from_names_the_group_the_segment_and_the_missing_nodes() {
    let parsed = parsed_square(
        Some(vec![vec![1, 2]]),
        Some(vec![vec![3, 4], vec![4, 40, 2, 41]]),
        Some(vec![vec![99]]),
    );
    match Hgrid::try_from(&parsed) {
        Err(HgridTryFromError::BoundariesError(BoundariesError::DanglingNodeReference {
            boundary_type,
            segment,
            node_ids,
        })) => {
            assert_eq!(boundary_type, BoundaryType::Land);
            assert_eq!(segment, 1);
            assert_eq!(node_ids, vec![40, 41]);
        }
        other => panic!("unexpected result: {:?}", other.map(|_| ())),
    }
}

#[test]
fn writer_gets_what_the_reader_gave() {
    let parsed = parsed_square(Some(vec![vec![1, 2], vec![2, 4]]), Some(vec![vec![4, 3]]), None);
    let hgrid = Hgrid::try_from(&parsed).unwrap();
    let written = hgrid.to_gr3();
    assert_eq!(entries_of(&written.nodes()), entries_of(&parsed.nodes()));
    assert_eq!(
        entries_of(&written.elements().unwrap()),
        entries_of(&parsed.elements().unwrap())
    );
    assert_eq!(written.open_boundaries(), Some(vec![vec![1, 2], vec![2, 4]]));
    assert_eq!(written.land_boundaries(), Some(vec![vec![4, 3]]));
    assert_eq!(written.interior_boundaries(), Some(vec![]));
    assert_eq!(written.description(), Some("Test mesh".to_string()));
    assert_eq!(written.crs(), Some("epsg:6933".to_string()));
    assert_eq!(written.get_full_string(), "Test mesh");

    let again = Hgrid::try_from(&written).unwrap();
    assert_eq!(entries_of(again.nodes().hash_map()), entries_of(&parsed.nodes()));
    assert_eq!(
        entries_of(again.elements().hash_map()),
        entries_of(&parsed.elements().unwrap())
    );
    assert_eq!(
        again.boundaries().unwrap().open().unwrap().nodes_ids(),
        &vec![vec![1, 2], vec![2, 4]]
    );
    assert_eq!(again.boundaries().unwrap().land().unwrap().nodes_ids(), &vec![vec![4, 3]]);
    assert!(again.boundaries().unwrap().interior().is_none());
}

#[test]
fn writer_gets_positive_down_values_after_a_flip() {
    let parsed = parsed_square(None, None, None);
    let mut hgrid = Hgrid::try_from(&parsed).unwrap();
    hgrid.flip_depths();
    assert_eq!(floats(&hgrid.depths()), vec![-10.5, -12.25, 3.0, -0.0]);
    let written = hgrid.to_gr3();
    assert_eq!(entries_of(&written.nodes()), entries_of(&parsed.nodes()));
    assert_eq!(written.open_boundaries(), Some(vec![]));
}

#[test]
fn reversed_sign_negates_every_value() {
    let parsed = parsed_square(None, None, None);
    let reversed = parsed.nodes_values_reversed_sign();
    let values: Vec<f64> = reversed
        .iter()
        .map(|(_, record)| f64::from_bits(record.1.as_ref().unwrap()[0]))
        .collect();
    assert_eq!(values, vec![-10.5, -12.25, 3.0, -0.0]);
    let original = Gr3ParserOutput::new(None, None, LinkedHashMap::new(), None, None, None, None);
    assert_eq!(original.get_full_string(), "");
    assert!(original.elements().is_none());
}

#[test]
fn transform_puts_the_mesh_on_new_coordinates() {
    let parsed = parsed_square(Some(vec![vec![1, 2]]), Some(vec![]), None);
    let hgrid = Hgrid::try_from(&parsed).unwrap();
    let coordinates: Vec<(u64, u64)> = vec![
        (10.0f64.to_bits(), 20.0f64.to_bits()),
        (11.0f64.to_bits(), 20.0f64.to_bits()),
        (10.0f64.to_bits(), 21.0f64.to_bits()),
        (11.0f64.to_bits(), 21.0f64.to_bits()),
    ];
    let moved = hgrid.transform_to("EPSG:4326", &coordinates).unwrap();
    assert_eq!(moved.crs(), Some("EPSG:4326"));
    assert_eq!(floats(&moved.x()), vec![10.0, 11.0, 10.0, 11.0]);
    assert_eq!(floats(&moved.y()), vec![20.0, 20.0, 21.0, 21.0]);
    assert_eq!(moved.xy(), coordinates);
    assert_eq!(floats(&moved.depths()), vec![10.5, 12.25, -3.0, 0.0]);
    assert_eq!(moved.nodes().node_ids(), vec![1, 2, 3, 4]);
    assert_eq!(
        entries_of(moved.elements().hash_map()),
        entries_of(hgrid.elements().hash_map())
    );
    assert_eq!(moved.boundaries().unwrap().open().unwrap().nodes_ids(), &vec![vec![1, 2]]);
    assert_eq!(moved.depth_convention(), DepthConvention::PositiveDown);
    assert_eq!(moved.description().map(|s| s.as_str()), Some("Test mesh"));
    assert_eq!(moved.elements().nodes().get_node(4), Some(coordinates[3]));
}

#[test]
fn transform_needs_a_reference_system_and_all_coordinates() {
    let hgrid = depth_mesh(5.0);
    assert!(matches!(
        hgrid.transform_to("EPSG:4326", &vec![(0, 0), (0, 0), (0, 0)]),
        Err(HgridTryFromError::NoCrsDefined)
    ));
    let parsed = parsed_square(None, None, None);
    let hgrid = Hgrid::try_from(&parsed).unwrap();
    match hgrid.transform_to("EPSG:4326", &vec![(0, 0)]) {
        Err(HgridTryFromError::TransformError(reason)) => {
            assert_eq!(reason, "one coordinate pair is needed for every node");
        }
        other => panic!("unexpected result: {:?}", other.map(|_| ())),
    }
}

#[test]
fn groups_are_checked_when_they_are_made() {
    let mut map: LinkedHashMap<u32, NodeRecord> = LinkedHashMap::new();
    map.insert(1, node(0.0, 0.0, 1.0));
    map.insert(2, node(1.0, 0.0, 1.0));
    let nodes = Arc::new(Nodes::new(map, None));
    let open = OpenBoundaries::new(nodes.clone(), vec![vec![1, 2], vec![2, 1]]).unwrap();
    let mut walk = open.iter();
    assert_eq!(walk.next(), Some(&vec![1, 2]));
    assert_eq!(walk.next(), Some(&vec![2, 1]));
    assert_eq!(walk.next(), None);
    assert_eq!(walk.next(), None);
    match LandBoundaries::new(nodes.clone(), vec![vec![1], vec![3, 1, 3]]) {
        Err(BoundariesError::DanglingNodeReference { boundary_type, segment, node_ids }) => {
            assert_eq!(boundary_type, BoundaryType::Land);
            assert_eq!(segment, 1);
            assert_eq!(node_ids, vec![3, 3]);
        }
        Ok(_) => panic!("a dangling reference was accepted"),
    }
    match InteriorBoundaries::new(nodes.clone(), vec![vec![0]]) {
        Err(BoundariesError::DanglingNodeReference { boundary_type, segment, node_ids }) => {
            assert_eq!(boundary_type, BoundaryType::Interior);
            assert_eq!(segment, 0);
            assert_eq!(node_ids, vec![0]);
        }
        Ok(_) => panic!("a dangling reference was accepted"),
    }
    match OpenBoundaries::new(nodes.clone(), vec![vec![5]]) {
        Err(BoundariesError::DanglingNodeReference { boundary_type, .. }) => {
            assert_eq!(boundary_type, BoundaryType::Open);
        }
        Ok(_) => panic!("a dangling reference was accepted"),
    }
    let interior = InteriorBoundaries::new(nodes.clone(), vec![vec![2]]).unwrap();
    let boundaries = Boundaries::new(Some(open), None, Some(interior));
    let groups = boundaries.to_boundary_type_map();
    assert_eq!(groups.len(), 2);
    assert_eq!(groups[0], (BoundaryType::Open, &vec![vec![1, 2], vec![2, 1]]));
    assert_eq!(groups[1], (BoundaryType::Interior, &vec![vec![2]]));
}

#[test]
fn elements_are_checked_when_they_are_made() {
    let mut map: LinkedHashMap<u32, NodeRecord> = LinkedHashMap::new();
    map.insert(1, node(0.0, 0.0, 1.0));
    map.insert(2, node(1.0, 0.0, 1.0));
    map.insert(3, node(1.0, 1.0, 1.0));
    let nodes = Arc::new(Nodes::new(map, None));
    for size in [0usize, 1, 2, 5] {
        let mut elements: LinkedHashMap<u32, Vec<u32>> = LinkedHashMap::new();
        elements.insert(10, vec![1, 2, 3]);
        elements.insert(11, vec![1; size]);
        match Elements::new(elements, nodes.clone()) {
            Err(ElementsError::InvalidElementSize { element_id, node_count }) => {
                assert_eq!(element_id, 11);
                assert_eq!(node_count, size);
            }
            _ => panic!("a wrong size was accepted"),
        }
    }
    let mut elements: LinkedHashMap<u32, Vec<u32>> = LinkedHashMap::new();
    elements.insert(10, vec![1, 2, 3]);
    elements.insert(11, vec![1, 2, 3, 4]);
    match Elements::new(elements, nodes.clone()) {
        Err(ElementsError::DanglingNodeReference { element_id, node_ids }) => {
            assert_eq!(element_id, 11);
            assert_eq!(node_ids, vec![4]);
        }
        _ => panic!("a dangling reference was accepted"),
    }
    let mut elements: LinkedHashMap<u32, Vec<u32>> = LinkedHashMap::new();
    elements.insert(10, vec![1, 2, 3]);
    elements.insert(11, vec![3, 2, 1, 1]);
    let store = Elements::new(elements, nodes.clone()).unwrap();
    assert_eq!(store.len(), 2);
    assert_eq!(store.nodes().len(), 3);
    let copy = store.clone();
    assert_eq!(entries_of(copy.hash_map()), vec![(10, vec![1, 2, 3]), (11, vec![3, 2, 1, 1])]);
}

#[test]
fn node_store_hands_out_what_it_holds() {
    let mut map: LinkedHashMap<u32, NodeRecord> = LinkedHashMap::new();
    map.insert(5, node(1.5, 2.5, 3.5));
    map.insert(2, node(-1.0, 4.0, 0.25));
    let nodes = Nodes::new(map, Some("EPSG:32618".to_string()));
    assert_eq!(nodes.crs(), Some("EPSG:32618"));
    assert_eq!(nodes.len(), 2);
    assert_eq!(floats(&nodes.x()), vec![1.5, -1.0]);
    assert_eq!(floats(&nodes.y()), vec![2.5, 4.0]);
    assert_eq!(nodes.xy(), vec![(1.5f64.to_bits(), 2.5f64.to_bits()), ((-1.0f64).to_bits(), 4.0f64.to_bits())]);
    assert_eq!(nodes.get_node(2), Some(((-1.0f64).to_bits(), 4.0f64.to_bits())));
    assert_eq!(nodes.get_node(3), None);
    let known = nodes.known_ids();
    assert!(known.contains(&5) && known.contains(&2) && known.len() == 2);
    let copy = nodes.clone();
    assert_eq!(entries_of(copy.hash_map()), entries_of(nodes.hash_map()));
    assert_eq!(copy.crs(), Some("EPSG:32618"));
    assert!(nodes.with_coordinates(&vec![(0, 0)], None).is_none());
}

#[test]
fn clone_keeps_the_mesh() {
    let parsed = parsed_square(Some(vec![vec![1, 2]]), None, None);
    let hgrid = Hgrid::try_from(&parsed).unwrap().with_depth_convention(DepthConvention::PositiveUp);
    let copy = hgrid.clone();
    assert_eq!(copy.depth_convention(), DepthConvention::PositiveUp);
    assert_eq!(entries_of(copy.nodes().hash_map()), entries_of(hgrid.nodes().hash_map()));
    assert_eq!(entries_of(copy.elements().hash_map()), entries_of(hgrid.elements().hash_map()));
    assert_eq!(copy.boundaries().unwrap().open().unwrap().nodes_ids(), &vec![vec![1, 2]]);
    assert_eq!(floats(&copy.depths_positive_down()), vec![-10.5, -12.25, 3.0, -0.0]);
}

#[test]
fn elements_are_counted_node_by_node() {
    let parsed = parsed_square(None, None, None);
    let hgrid = Hgrid::try_from(&parsed).unwrap();
    assert!(hgrid.can_count_connected_elements());
    let counts = hgrid.get_number_of_elements_connected_to_each_node();
    assert_eq!(counts.array.to_vec(), vec![0, 1, 2, 2, 1]);

    let mut nodes: LinkedHashMap<u32, NodeRecord> = LinkedHashMap::new();
    nodes.insert(10, node(0.0, 0.0, 1.0));
    nodes.insert(20, node(1.0, 0.0, 1.0));
    nodes.insert(30, node(1.0, 1.0, 1.0));
    let mut elements: LinkedHashMap<u32, Vec<u32>> = LinkedHashMap::new();
    elements.insert(1, vec![10, 20, 30]);
    let far = Gr3ParserOutput::new(None, None, nodes, Some(elements), None, None, None);
    assert!(!Hgrid::try_from(&far).unwrap().can_count_connected_elements());
}
