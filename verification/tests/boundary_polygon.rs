use linked_hash_map::LinkedHashMap;
use ndarray::Array2;
use schismrs_hgrid::boundary_polygon::{build_inpoly_arrays, flatten_rings, BoundaryPolygon};
use schismrs_hgrid::elements::Elements;
use schismrs_hgrid::linked_map::NodeRecord;
use schismrs_hgrid::nodes::Nodes;
use schismrs_hgrid::rings::edges_to_rings;
use schismrs_hgrid::Hgrid;
use std::sync::Arc;

fn node(x: f64, y: f64, depth: f64) -> NodeRecord {
    ((x.to_bits(), y.to_bits()), Some(vec![depth.to_bits()]))
}

fn make_mesh(
    nodes_map: LinkedHashMap<u32, NodeRecord>,
    elements_map: LinkedHashMap<u32, Vec<u32>>,
) -> Hgrid {
    let nodes_arc = Arc::new(Nodes::new(nodes_map, None));
    let elements = Elements::new(elements_map, nodes_arc.clone()).unwrap();
    Hgrid::new(nodes_arc, elements, None, None)
}

fn make_simple_triangle_mesh() -> Hgrid {
    let mut nodes_map: LinkedHashMap<u32, NodeRecord> = LinkedHashMap::new();
    nodes_map.insert(1u32, node(0.0, 0.0, 0.0));
    nodes_map.insert(2, node(1.0, 0.0, 0.0));
    nodes_map.insert(3, node(0.5, 1.0, 0.0));
    let mut elements_map = LinkedHashMap::new();
    elements_map.insert(1u32, vec![1u32, 2, 3]);
    make_mesh(nodes_map, elements_map)
}

fn make_two_triangle_mesh() -> Hgrid {
    let mut nodes_map: LinkedHashMap<u32, NodeRecord> = LinkedHashMap::new();
    nodes_map.insert(1u32, node(0.0, 0.0, 0.0));
    nodes_map.insert(2, node(1.0, 0.0, 0.0));
    nodes_map.insert(3, node(0.0, 1.0, 0.0));
    nodes_map.insert(4, node(1.0, 1.0, 0.0));
    let mut elements_map = LinkedHashMap::new();
    elements_map.insert(1u32, vec![1u32, 2, 3]);
    elements_map.insert(2, vec![2u32, 4, 3]);
    make_mesh(nodes_map, elements_map)
}

fn make_empty_mesh() -> Hgrid {
    let mut nodes_map: LinkedHashMap<u32, NodeRecord> = LinkedHashMap::new();
    nodes_map.insert(1u32, node(0.0, 0.0, 0.0));
    make_mesh(nodes_map, LinkedHashMap::new())
}

fn polygon_coordinates(hgrid: &Hgrid, polygon: &BoundaryPolygon) -> Array2<f64> {
    let mut data = Vec::new();
    for id in &polygon.node_ids {
        let (x, y) = hgrid.nodes().get_node(*id).unwrap();
        data.push(f64::from_bits(x));
        data.push(f64::from_bits(y));
    }
    Array2::from_shape_vec((polygon.node_ids.len(), 2), data).unwrap()
}

fn contains_points(hgrid: &Hgrid, points: &[(f64, f64)]) -> Vec<bool> {
    let polygon = hgrid.boundary_polygon().unwrap();
    if polygon.node_ids.is_empty() || points.is_empty() {
        return vec![false; points.len()];
    }
    let nodes = polygon_coordinates(hgrid, &polygon);
    let mut data = Vec::new();
    for (x, y) in points {
        data.push(*x);
        data.push(*y);
    }
    let vert = Array2::from_shape_vec((points.len(), 2), data).unwrap();
    let (inside, _on_edge) = inpoly::inpoly2(&vert, &nodes, Some(&polygon.edges.array), None);
    inside.to_vec()
}

fn contains_point(hgrid: &Hgrid, x: f64, y: f64) -> bool {
    contains_points(hgrid, &[(x, y)])[0]
}

#[test]
fn test_find_boundary_edges_single_triangle() {
    let hgrid = make_simple_triangle_mesh();
    let boundary_edges = hgrid.find_boundary_edges();
    assert_eq!(boundary_edges.len(), 3);
}

#[test]
fn test_find_boundary_edges_two_triangles() {
    let hgrid = make_two_triangle_mesh();
    let boundary_edges = hgrid.find_boundary_edges();
    assert_eq!(boundary_edges.len(), 4);
    let normalized: Vec<_> = boundary_edges
        .iter()
        .map(|&(a, b)| if a < b { (a, b) } else { (b, a) })
        .collect();
    assert!(!normalized.contains(&(2, 3)));
}

#[test]
fn test_edges_to_rings_single_triangle() {
    let edges = vec![(1, 2), (2, 3), (3, 1)];
    let rings = edges_to_rings(edges);
    assert_eq!(rings.len(), 1);
    assert_eq!(rings[0].len(), 3);
}

#[test]
fn test_contains_point_single_triangle() {
    let hgrid = make_simple_triangle_mesh();
    assert!(contains_point(&hgrid, 0.5, 0.3));
    assert!(!contains_point(&hgrid, 2.0, 0.0));
    assert!(!contains_point(&hgrid, 0.5, 2.0));
    assert!(!contains_point(&hgrid, -1.0, 0.5));
}

#[test]
fn test_contains_point_two_triangles() {
    let hgrid = make_two_triangle_mesh();
    assert!(contains_point(&hgrid, 0.5, 0.5));
    assert!(contains_point(&hgrid, 0.1, 0.1));
    assert!(contains_point(&hgrid, 0.9, 0.9));
    assert!(!contains_point(&hgrid, -0.1, 0.5));
    assert!(!contains_point(&hgrid, 1.1, 0.5));
    assert!(!contains_point(&hgrid, 0.5, -0.1));
    assert!(!contains_point(&hgrid, 0.5, 1.1));
}

#[test]
fn test_contains_points_batch() {
    let hgrid = make_two_triangle_mesh();
    let points = vec![(0.5, 0.5), (2.0, 0.5), (0.1, 0.1), (-1.0, -1.0)];
    let results = contains_points(&hgrid, &points);
    assert_eq!(results, vec![true, false, true, false]);
}

#[test]
fn batch_agrees_with_single_queries() {
    let hgrid = make_two_triangle_mesh();
    let points = vec![(0.5, 0.5), (2.0, 0.5), (0.1, 0.1), (-1.0, -1.0), (0.9, 0.2)];
    let batch = contains_points(&hgrid, &points);
    for (k, (x, y)) in points.iter().enumerate() {
        assert_eq!(batch[k], contains_point(&hgrid, *x, *y));
    }
}

#[test]
fn mesh_without_elements_has_no_ring_and_contains_nothing() {
    let hgrid = make_empty_mesh();
    assert!(hgrid.find_boundary_edges().is_empty());
    assert!(edges_to_rings(hgrid.find_boundary_edges()).is_empty());
    let polygon = hgrid.boundary_polygon().unwrap();
    assert!(polygon.node_ids.is_empty());
    assert_eq!(polygon.edges.array.nrows(), 0);
    assert!(!contains_point(&hgrid, 0.0, 0.0));
    assert!(!contains_point(&hgrid, 7.5, -3.0));
}

#[test]
fn single_triangle_edges_in_claim_order() {
    let hgrid = make_simple_triangle_mesh();
    assert_eq!(hgrid.find_boundary_edges(), vec![(1, 2), (2, 3), (1, 3)]);
}

#[test]
fn single_triangle_ring_is_closed() {
    let hgrid = make_simple_triangle_mesh();
    let rings = edges_to_rings(hgrid.find_boundary_edges());
    assert_eq!(rings, vec![vec![(1, 3), (3, 2), (2, 1)]]);
    assert_eq!(rings[0][0].0, rings[0][2].1);
}

#[test]
fn two_triangles_give_one_closed_ring_of_four() {
    let hgrid = make_two_triangle_mesh();
    let boundary = hgrid.find_boundary_edges();
    assert_eq!(boundary, vec![(1, 2), (1, 3), (2, 4), (3, 4)]);
    let rings = edges_to_rings(boundary);
    assert_eq!(rings, vec![vec![(3, 4), (4, 2), (2, 1), (1, 3)]]);
    assert_eq!(rings[0].first().unwrap().0, rings[0].last().unwrap().1);
}

#[test]
fn open_chain_is_kept_as_a_partial_ring() {
    let rings = edges_to_rings(vec![(1, 2), (5, 6), (2, 3)]);
    assert_eq!(rings, vec![vec![(1, 2), (2, 3)], vec![(5, 6)]]);
}

#[test]
fn ring_grows_at_its_start_when_its_end_is_free() {
    let rings = edges_to_rings(vec![(1, 2), (2, 3)]);
    assert_eq!(rings, vec![vec![(1, 2), (2, 3)]]);
    let rings = edges_to_rings(vec![(3, 2), (2, 1)]);
    assert_eq!(rings, vec![vec![(3, 2), (2, 1)]]);
    let rings = edges_to_rings(vec![(2, 3), (1, 2)]);
    assert_eq!(rings, vec![vec![(1, 2), (2, 3)]]);
    let rings = edges_to_rings(vec![(9, 1), (1, 2)]);
    assert_eq!(rings, vec![vec![(9, 1), (1, 2)]]);
}

#[test]
fn two_separate_rings_come_out_in_one_pass() {
    let edges = vec![(1, 2), (2, 3), (1, 3), (7, 8), (8, 9), (7, 9)];
    let rings = edges_to_rings(edges);
    assert_eq!(rings.len(), 2);
    assert_eq!(rings[0], vec![(7, 9), (9, 8), (8, 7)]);
    assert_eq!(rings[1], vec![(1, 3), (3, 2), (2, 1)]);
}

#[test]
fn no_edges_give_no_rings() {
    assert!(edges_to_rings(Vec::new()).is_empty());
    assert!(flatten_rings(&Vec::new()).is_empty());
}

#[test]
fn polygon_numbers_nodes_by_first_start() {
    let edges = vec![(1u32, 3u32), (3, 2), (2, 1)];
    let polygon = build_inpoly_arrays(&edges).unwrap();
    assert_eq!(polygon.node_ids, vec![1, 3, 2]);
    let expected = Array2::from_shape_vec((3, 2), vec![0usize, 1, 1, 2, 2, 0]).unwrap();
    assert_eq!(polygon.edges.array, expected);
}

#[test]
fn polygon_of_an_open_chain_numbers_the_free_end_last() {
    let edges = vec![(5u32, 6u32), (6, 7)];
    let polygon = build_inpoly_arrays(&edges).unwrap();
    assert_eq!(polygon.node_ids, vec![5, 6, 7]);
    let expected = Array2::from_shape_vec((2, 2), vec![0usize, 1, 1, 2]).unwrap();
    assert_eq!(polygon.edges.array, expected);
}

#[test]
fn boundary_polygon_of_two_triangles() {
    let hgrid = make_two_triangle_mesh();
    let polygon = hgrid.boundary_polygon().unwrap();
    assert_eq!(polygon.node_ids, vec![3, 4, 2, 1]);
    let expected = Array2::from_shape_vec((4, 2), vec![0usize, 1, 1, 2, 2, 3, 3, 0]).unwrap();
    assert_eq!(polygon.edges.array, expected);
}

#[test]
fn flatten_keeps_ring_order() {
    let rings = vec![vec![(1u32, 2u32), (2, 1)], vec![(5, 6)]];
    assert_eq!(flatten_rings(&rings), vec![(1, 2), (2, 1), (5, 6)]);
}

fn undirected(e: (u32, u32)) -> (u32, u32) {
    if e.0 < e.1 {
        e
    } else {
        (e.1, e.0)
    }
}

#[test]
fn rings_are_connected_keep_every_edge_and_cannot_be_extended() {
    let edges: Vec<(u32, u32)> = vec![
        (1, 2), (7, 8), (3, 1), (20, 21), (2, 3), (8, 9), (22, 21), (9, 10), (30, 31), (10, 7),
        (40, 40), (31, 32), (5, 5), (32, 33),
    ];
    let rings = edges_to_rings(edges.clone());
    for ring in &rings {
        assert!(!ring.is_empty());
        for pair in ring.windows(2) {
            assert_eq!(pair[0].1, pair[1].0);
        }
    }
    let mut before: Vec<(u32, u32)> = edges.iter().map(|e| undirected(*e)).collect();
    let mut after: Vec<(u32, u32)> = flatten_rings(&rings).iter().map(|e| undirected(*e)).collect();
    before.sort();
    after.sort();
    assert_eq!(before, after);
    for (k, ring) in rings.iter().enumerate() {
        let start = ring[0].0;
        let end = ring[ring.len() - 1].1;
        let closed = ring.len() > 1 && start == end;
        if !closed {
            for later in &rings[k + 1..] {
                for e in later {
                    assert!(e.0 != start && e.1 != start && e.0 != end && e.1 != end);
                }
            }
        }
    }
    assert_eq!(rings.len(), 6);
    assert_eq!(rings[0], vec![(30, 31), (31, 32), (32, 33)]);
    assert_eq!(rings[1], vec![(5, 5)]);
    assert_eq!(rings[2], vec![(40, 40)]);
    assert_eq!(rings[3], vec![(10, 7), (7, 8), (8, 9), (9, 10)]);
    assert_eq!(rings[4], vec![(22, 21), (21, 20)]);
    assert_eq!(rings[5], vec![(2, 3), (3, 1), (1, 2)]);
}

#[test]
fn mesh_with_a_hole_has_two_rings_and_excludes_the_hole() {
    let mut nodes_map: LinkedHashMap<u32, NodeRecord> = LinkedHashMap::new();
    let mut id = 1u32;
    for j in 0..4 {
        for i in 0..4 {
            nodes_map.insert(id, node(i as f64, j as f64, 0.0));
            id += 1;
        }
    }
    let mut elements_map = LinkedHashMap::new();
    let mut element = 1u32;
    for j in 0..3u32 {
        for i in 0..3u32 {
            if i == 1 && j == 1 {
                continue;
            }
            let a = j * 4 + i + 1;
            elements_map.insert(element, vec![a, a + 1, a + 5, a + 4]);
            element += 1;
        }
    }
    let hgrid = make_mesh(nodes_map, elements_map);
    let boundary = hgrid.find_boundary_edges();
    assert_eq!(boundary.len(), 16);
    let rings = edges_to_rings(boundary);
    assert_eq!(rings.len(), 2);
    let mut sizes: Vec<usize> = rings.iter().map(|r| r.len()).collect();
    sizes.sort();
    assert_eq!(sizes, vec![4, 12]);
    for ring in &rings {
        assert_eq!(ring[0].0, ring[ring.len() - 1].1);
    }
    assert!(contains_point(&hgrid, 0.5, 0.5));
    assert!(contains_point(&hgrid, 2.5, 1.5));
    assert!(!contains_point(&hgrid, 1.5, 1.5));
    assert!(!contains_point(&hgrid, 3.5, 1.5));
    assert_eq!(
        contains_points(&hgrid, &[(0.5, 0.5), (1.5, 1.5), (2.5, 2.5), (-0.5, 0.5)]),
        vec![true, false, true, false]
    );
}
