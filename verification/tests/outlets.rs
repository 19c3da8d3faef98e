use terrain_erosion::error::TerrainError;
use terrain_erosion::outlets::{boundary_start_index, determine_outlets};
use terrain_graph::edge_attributed_undirected::EdgeAttributedUndirectedGraph;

/// A graph of `order` sites with the given edges, each of length 1.0.
fn graph_of(order: usize, edges: &[(usize, usize)]) -> EdgeAttributedUndirectedGraph<i64> {
    let mut graph = EdgeAttributedUndirectedGraph::new(order);
    for &(a, b) in edges {
        graph.add_edge(a, b, 65536);
    }
    graph
}

/// Five sites in a ring.
fn ring_of_five() -> EdgeAttributedUndirectedGraph<i64> {
    graph_of(5, &[(0, 1), (1, 2), (2, 3), (3, 4), (4, 0)])
}

#[test]
fn ring_marks_the_connected_candidates_and_not_the_isolated_one() {
    // Site 4 lies on the boundary. Sites 3, 0 and 1 are candidates that a chain
    // of candidates joins to it. Site 2 is no candidate.
    let graph = ring_of_five();
    let candidate = vec![true, true, false, true, true];
    let outlets = determine_outlets(5, &candidate, &vec![4], &graph).unwrap();
    assert_eq!(outlets, vec![true, true, false, true, true]);
}

#[test]
fn candidate_behind_a_non_candidate_is_no_outlet() {
    // The ring 0-1-2-3 with the boundary candidate 0; sites 1, 2 and 3 are
    // candidates joined to it. Site 5 is a candidate too, but its only edge goes
    // to site 4, which is none.
    let graph = graph_of(6, &[(0, 1), (1, 2), (2, 3), (3, 0), (1, 4), (4, 5)]);
    let candidate = vec![true, true, true, true, false, true];
    let outlets = determine_outlets(6, &candidate, &vec![0], &graph).unwrap();
    assert_eq!(outlets, vec![true, true, true, true, false, false]);
}

#[test]
fn candidate_without_an_edge_is_no_outlet() {
    // One boundary candidate, three interior candidates joined to it, and one
    // candidate that no edge reaches.
    let graph = graph_of(5, &[(0, 1), (1, 2), (2, 3), (3, 0)]);
    let candidate = vec![true; 5];
    let outlets = determine_outlets(5, &candidate, &vec![0], &graph).unwrap();
    assert_eq!(outlets, vec![true, true, true, true, false]);
}

#[test]
fn boundary_site_that_is_no_candidate_seeds_nothing() {
    let graph = graph_of(4, &[(0, 1), (1, 2), (2, 3)]);
    let candidate = vec![true, true, false, true];
    let outlets = determine_outlets(4, &candidate, &vec![2, 3], &graph).unwrap();
    assert_eq!(outlets, vec![false, false, false, true]);
}

#[test]
fn no_candidate_on_the_boundary_is_an_error() {
    let graph = ring_of_five();
    let candidate = vec![true, true, true, false, false];
    let result = determine_outlets(5, &candidate, &vec![3, 4], &graph);
    assert_eq!(result, Err(TerrainError::NoReachableOutlet));
}

#[test]
fn no_boundary_site_at_all_is_an_error() {
    let graph = ring_of_five();
    let candidate = vec![true; 5];
    assert_eq!(determine_outlets(5, &candidate, &Vec::new(), &graph), Err(TerrainError::NoReachableOutlet));
}

#[test]
fn lists_that_do_not_fit_the_graph_are_refused() {
    let graph = ring_of_five();
    let candidate = vec![true; 5];
    assert_eq!(determine_outlets(4, &candidate, &vec![0], &graph), Err(TerrainError::InvalidRasterDimensions));
    assert_eq!(determine_outlets(5, &vec![true; 4], &vec![0], &graph), Err(TerrainError::InvalidRasterDimensions));
    assert_eq!(determine_outlets(5, &vec![true; 6], &vec![0], &graph), Err(TerrainError::InvalidRasterDimensions));
    assert_eq!(determine_outlets(5, &candidate, &vec![0, 5], &graph), Err(TerrainError::InvalidRasterDimensions));
    assert_eq!(determine_outlets(5, &vec![false; 5], &vec![7], &graph), Err(TerrainError::InvalidRasterDimensions));
}

#[test]
fn a_site_listed_twice_and_a_loop_do_not_matter() {
    let graph = graph_of(3, &[(0, 1), (0, 1), (1, 1), (1, 2)]);
    let candidate = vec![true; 3];
    let outlets = determine_outlets(3, &candidate, &vec![2, 2], &graph).unwrap();
    assert_eq!(outlets, vec![true, true, true]);
}

#[test]
fn search_follows_the_edges_of_the_graph() {
    // A chain of 200 candidates: the search has to walk all of it.
    let mut edges = Vec::new();
    for a in 0..199 {
        edges.push((a, a + 1));
    }
    let graph = graph_of(200, &edges);
    let mut candidate = vec![true; 200];
    let outlets = determine_outlets(200, &candidate, &vec![199], &graph).unwrap();
    assert_eq!(outlets, vec![true; 200]);
    candidate[100] = false;
    let outlets = determine_outlets(200, &candidate, &vec![199], &graph).unwrap();
    let mut expected = vec![false; 200];
    for site in 101..200 {
        expected[site] = true;
    }
    assert_eq!(outlets, expected);
}

#[test]
fn boundary_range_starts_after_the_interior_count() {
    assert_eq!(boundary_start_index(3, 7), vec![4, 5, 6]);
    assert_eq!(boundary_start_index(6, 7), Vec::<usize>::new());
    assert_eq!(boundary_start_index(9, 7), Vec::<usize>::new());
    assert_eq!(boundary_start_index(0, 1), Vec::<usize>::new());
    assert_eq!(boundary_start_index(0, 2), vec![1]);
}
