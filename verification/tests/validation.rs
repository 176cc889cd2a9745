use linked_hash_map::LinkedHashMap;
use schismrs_hgrid::boundaries::{Boundaries, LandBoundaries, OpenBoundaries};
use schismrs_hgrid::edges::{collect_claims, find_boundary, find_orientation_conflicts};
use schismrs_hgrid::elements::Elements;
use schismrs_hgrid::linked_map::NodeRecord;
use schismrs_hgrid::nodes::Nodes;
use schismrs_hgrid::validation::{AreaSign, ElementShape};
use schismrs_hgrid::{Hgrid, MeshValidation};
use std::sync::Arc;

const AREA_TOL: f64 = 1e-10;

fn signed_triangle_area(v1: (f64, f64), v2: (f64, f64), v3: (f64, f64)) -> f64 {
    0.5 * ((v1.0 - v3.0) * (v2.1 - v3.1) - (v2.0 - v3.0) * (v1.1 - v3.1))
}

fn sign_of(area: f64) -> AreaSign {
    if area < -AREA_TOL {
        AreaSign::Negative
    } else if area.abs() <= AREA_TOL {
        AreaSign::Zero
    } else {
        AreaSign::Positive
    }
}

fn measure(hgrid: &Hgrid) -> Vec<ElementShape> {
    let mut shapes = Vec::new();
    for (_id, node_ids) in hgrid.elements().hash_map().iter() {
        let coords: Vec<(f64, f64)> = node_ids
            .iter()
            .filter_map(|n| hgrid.nodes().get_node(*n))
            .map(|(x, y)| (f64::from_bits(x), f64::from_bits(y)))
            .collect();
        let mut shape = ElementShape { area: AreaSign::Positive, concave: false };
        if coords.len() == node_ids.len() && coords.len() == 3 {
            shape.area = sign_of(signed_triangle_area(coords[0], coords[1], coords[2]));
        } else if coords.len() == node_ids.len() && coords.len() == 4 {
            let area1 = signed_triangle_area(coords[0], coords[1], coords[2]);
            let area2 = signed_triangle_area(coords[0], coords[2], coords[3]);
            let area3 = signed_triangle_area(coords[0], coords[1], coords[3]);
            let area4 = signed_triangle_area(coords[1], coords[2], coords[3]);
            shape.area = sign_of(area1 + area2);
            let min_area = [area1, area2, area3, area4].iter().cloned().fold(f64::INFINITY, f64::min);
            shape.concave = min_area <= -AREA_TOL;
        }
        shapes.push(shape);
    }
    shapes
}

fn node(x: f64, y: f64) -> NodeRecord {
    ((x.to_bits(), y.to_bits()), Some(vec![(-10.0f64).to_bits()]))
}

fn mesh(points: &[(u32, f64, f64)], cells: &[(u32, Vec<u32>)]) -> Hgrid {
    let mut nodes = LinkedHashMap::new();
    for (id, x, y) in points {
        nodes.insert(*id, node(*x, *y));
    }
    let nodes = Arc::new(Nodes::new(nodes, None));
    let mut elements = LinkedHashMap::new();
    for (id, node_ids) in cells {
        elements.insert(*id, node_ids.clone());
    }
    let elements = Elements::new(elements, nodes.clone()).unwrap();
    Hgrid::new(nodes, elements, None, None)
}

fn make_simple_triangle_mesh() -> Hgrid {
    mesh(&[(1, 0.0, 0.0), (2, 1.0, 0.0), (3, 0.5, 1.0)], &[(1, vec![1, 2, 3])])
}

fn check(hgrid: &Hgrid) -> MeshValidation {
    hgrid.check_validity(&measure(hgrid))
}

#[test]
fn test_valid_mesh() {
    let hgrid = make_simple_triangle_mesh();
    let validation = check(&hgrid);
    assert!(validation.is_ok());
    assert!(validation.is_structurally_valid());
    assert!(validation.is_geometrically_valid());
}

#[test]
fn test_negative_area_detection() {
    let hgrid = mesh(&[(1, 0.0, 0.0), (2, 0.5, 1.0), (3, 1.0, 0.0)], &[(1, vec![1, 2, 3])]);
    let validation = check(&hgrid);
    assert!(!validation.is_ok());
    assert!(validation.is_structurally_valid());
    assert!(!validation.is_geometrically_valid());
    assert_eq!(validation.negative_area_elements.len(), 1);
    assert_eq!(validation.negative_area_elements[0], 1);
}

#[test]
fn test_display() {
    let hgrid = make_simple_triangle_mesh();
    let validation = check(&hgrid);
    let display = validation.to_string();
    assert!(display.contains("OK"));
}

#[test]
fn counter_clockwise_triangle_is_not_reported_and_its_reverse_is() {
    let hgrid = make_simple_triangle_mesh();
    assert!(signed_triangle_area((0.0, 0.0), (1.0, 0.0), (0.5, 1.0)) > 0.0);
    let validation = check(&hgrid);
    assert!(validation.negative_area_elements.is_empty());
    assert!(validation.zero_area_elements.is_empty());
    assert_eq!(validation.issue_count(), 0);

    let turned = mesh(&[(1, 0.0, 0.0), (2, 1.0, 0.0), (3, 0.5, 1.0)], &[(1, vec![1, 3, 2])]);
    let validation = check(&turned);
    assert_eq!(validation.negative_area_elements, vec![1]);
    assert!(validation.zero_area_elements.is_empty());
    assert!(validation.concave_quads.is_empty());
    assert!(validation.orientation_conflicts.is_empty());
    assert!(validation.is_structurally_valid());
    assert_eq!(validation.issue_count(), 1);
}

#[test]
fn collinear_triangle_has_no_area() {
    let hgrid = mesh(&[(1, 0.0, 0.0), (2, 1.0, 1.0), (3, 2.0, 2.0)], &[(4, vec![1, 2, 3])]);
    let validation = check(&hgrid);
    assert_eq!(validation.zero_area_elements, vec![4]);
    assert!(validation.negative_area_elements.is_empty());
    assert!(validation.concave_quads.is_empty());
    assert_eq!(
        validation.to_string(),
        "Mesh validation: 1 issues found\n  - 1 degenerate (zero-area) elements\n"
    );
}

#[test]
fn concave_quadrilateral_is_reported() {
    let points = [(1, 0.0, 0.0), (2, 2.0, 0.0), (3, 0.5, 0.5), (4, 0.0, 2.0), (5, 2.0, 2.0)];
    let hgrid = mesh(&points, &[(1, vec![1, 2, 3, 4]), (2, vec![1, 2, 5, 4])]);
    let validation = check(&hgrid);
    assert_eq!(validation.concave_quads, vec![1]);
    assert!(validation.negative_area_elements.is_empty());
    assert!(validation.zero_area_elements.is_empty());
}

#[test]
fn concavity_is_not_reported_of_a_triangle() {
    let hgrid = make_simple_triangle_mesh();
    let shapes = vec![ElementShape { area: AreaSign::Positive, concave: true }];
    let validation = hgrid.check_validity(&shapes);
    assert!(validation.concave_quads.is_empty());
    assert!(validation.is_ok());
}

#[test]
fn an_element_that_was_not_measured_is_passed_over() {
    let hgrid = mesh(&[(1, 0.0, 0.0), (2, 0.5, 1.0), (3, 1.0, 0.0)], &[(1, vec![1, 2, 3])]);
    let validation = hgrid.check_validity(&Vec::new());
    assert!(validation.is_geometrically_valid());
}

#[test]
fn neighbours_that_walk_their_edge_the_same_way_are_in_conflict() {
    let points = [(1, 0.0, 0.0), (2, 1.0, 0.0), (3, 0.0, 1.0), (4, 1.0, 1.0)];
    let agreeing = mesh(&points, &[(1, vec![1, 2, 3]), (2, vec![2, 4, 3])]);
    assert!(check(&agreeing).orientation_conflicts.is_empty());
    assert!(check(&agreeing).is_ok());

    let disagreeing = mesh(&points, &[(1, vec![1, 2, 3]), (2, vec![2, 3, 4])]);
    let validation = check(&disagreeing);
    assert_eq!(validation.orientation_conflicts, vec![(1, 2)]);
    assert_eq!(validation.negative_area_elements, vec![2]);
    assert_eq!(
        validation.to_string(),
        "Mesh validation: 2 issues found\n  - 1 elements with negative area\n  - 1 orientation conflicts\n"
    );
}

#[test]
fn every_later_claim_is_held_against_the_first() {
    let claims = vec![(1, (1, 2)), (2, (1, 2)), (3, (2, 1)), (4, (1, 2)), (5, (3, 3)), (6, (3, 3))];
    assert_eq!(find_orientation_conflicts(&claims), vec![(1, 2), (1, 4), (5, 6)]);
    assert_eq!(find_boundary(&claims), Vec::<(u32, u32)>::new());
    let claims = vec![(1, (2, 1)), (1, (1, 3)), (2, (3, 1)), (2, (5, 4))];
    assert_eq!(find_boundary(&claims), vec![(1, 2), (4, 5)]);
    assert!(find_orientation_conflicts(&claims).is_empty());
}

#[test]
fn claims_follow_the_cycle_of_each_element() {
    let first = vec![1u32, 2, 3];
    let second = vec![2u32, 4, 5, 3];
    let items = vec![(7u32, &first), (8u32, &second)];
    assert_eq!(
        collect_claims(&items),
        vec![
            (7, (1, 2)),
            (7, (2, 3)),
            (7, (3, 1)),
            (8, (2, 4)),
            (8, (4, 5)),
            (8, (5, 3)),
            (8, (3, 2)),
        ]
    );
}

#[test]
fn references_are_held_against_the_node_store_of_the_mesh() {
    let mut large = LinkedHashMap::new();
    for id in 1..=6u32 {
        large.insert(id, node(id as f64, 0.0));
    }
    let large = Arc::new(Nodes::new(large, None));
    let mut small = LinkedHashMap::new();
    small.insert(1u32, node(0.0, 0.0));
    small.insert(2u32, node(1.0, 0.0));
    let small = Arc::new(Nodes::new(small, None));

    let mut elements = LinkedHashMap::new();
    elements.insert(10u32, vec![1u32, 2, 1]);
    elements.insert(11u32, vec![5u32, 2, 6, 5]);
    let elements = Elements::new(elements, large.clone()).unwrap();
    let open = OpenBoundaries::new(large.clone(), vec![vec![1, 2], vec![3], vec![2, 4]]).unwrap();
    let land = LandBoundaries::new(large.clone(), vec![vec![6]]).unwrap();
    let boundaries = Boundaries::new(Some(open), Some(land), None);
    let hgrid = Hgrid::new(small, elements, Some(boundaries), None);

    let shapes = vec![ElementShape { area: AreaSign::Negative, concave: true }; 2];
    let validation = hgrid.check_validity(&shapes);
    assert_eq!(validation.invalid_element_node_refs, vec![(11, vec![5, 6, 5])]);
    assert_eq!(validation.invalid_open_boundary_refs, vec![1, 2]);
    assert_eq!(validation.invalid_land_boundary_refs, vec![0]);
    assert!(validation.invalid_interior_boundary_refs.is_empty());
    assert_eq!(validation.negative_area_elements, vec![10]);
    assert!(validation.concave_quads.is_empty());
    assert!(!validation.is_structurally_valid());
    assert!(!validation.is_ok());
    assert_eq!(validation.issue_count(), 5);
    assert_eq!(
        validation.to_string(),
        "Mesh validation: 5 issues found\n  - 1 elements with invalid node refs\n  - 2 open boundaries with invalid node refs\n  - 1 land boundaries with invalid node refs\n  - 1 elements with negative area\n"
    );
}

#[test]
fn report_text_counts_in_decimal() {
    let mut validation = MeshValidation::default();
    assert_eq!(validation.to_string(), "Mesh validation: OK");
    validation.concave_quads = (0..120).collect();
    validation.invalid_interior_boundary_refs = vec![7];
    assert_eq!(validation.issue_count(), 121);
    assert_eq!(
        validation.to_string(),
        "Mesh validation: 121 issues found\n  - 1 interior boundaries with invalid node refs\n  - 120 concave quad elements\n"
    );
    assert!(validation.is_structurally_valid() == false);
    assert!(validation.is_geometrically_valid() == false);
}
