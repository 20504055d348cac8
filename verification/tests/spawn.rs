use asteroids::spawn::{edge_from_roll, outline_vertex_count, safe_edge_spawn, Edge};

#[test]
fn rolls_map_to_edges() {
    assert_eq!(edge_from_roll(0), Edge::Top);
    assert_eq!(edge_from_roll(1), Edge::Right);
    assert_eq!(edge_from_roll(2), Edge::Bottom);
    assert_eq!(edge_from_roll(3), Edge::Left);
}

#[test]
fn outline_vertex_counts_stay_in_range_and_vary() {
    let counts: Vec<usize> = (0..300).map(|_| outline_vertex_count()).collect();
    assert!(counts.iter().all(|&n| (9..14).contains(&n)));
    for n in 9..14 {
        assert!(counts.contains(&n));
    }
}

#[test]
fn every_edge_gets_used() {
    let edges: Vec<Edge> = (0..300).map(|_| safe_edge_spawn()).collect();
    for e in [Edge::Top, Edge::Right, Edge::Bottom, Edge::Left] {
        assert!(edges.contains(&e));
    }
}
