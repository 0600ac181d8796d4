use graph_bench::generator::{
    draw_edges, generate_graph, generate_graph_seeded, STANDARD_EDGE_COUNT, STANDARD_VERTEX_COUNT,
};
use graph_bench::graph::Graph;
use graph_bench::random::RandomSource;

fn endpoints_below(graph: &Graph, bound: usize) -> bool {
    graph.edges.iter().all(|&(u, v)| u < bound && v < bound)
}

#[test]
fn generated_graph_has_the_requested_size() {
    let graph = generate_graph(10, 10);
    assert_eq!(graph.edges.len(), 10);
    assert_eq!(graph.edge_count(), 10);
    assert_eq!(graph.vertices, 10);
    assert!(endpoints_below(&graph, 10));
}

#[test]
fn generated_endpoints_stay_below_the_vertex_count() {
    for vertices in [1usize, 2, 3, 17, 1000] {
        let graph = generate_graph(500, vertices);
        assert_eq!(graph.edges.len(), 500);
        assert_eq!(graph.vertices, vertices);
        assert!(endpoints_below(&graph, vertices));
        let seeded = generate_graph_seeded(500, vertices, 99);
        assert_eq!(seeded.edges.len(), 500);
        assert_eq!(seeded.vertices, vertices);
        assert!(endpoints_below(&seeded, vertices));
    }
}

#[test]
fn one_vertex_gives_only_self_loops() {
    let graph = generate_graph(25, 1);
    assert_eq!(graph.edges, vec![(0, 0); 25]);
    let seeded = generate_graph_seeded(25, 1, 3);
    assert_eq!(seeded.edges, vec![(0, 0); 25]);
}

#[test]
fn no_edges_need_no_vertices() {
    let graph = generate_graph(0, 0);
    assert_eq!(graph.edges, vec![]);
    assert_eq!(graph.vertices, 0);
    let seeded = generate_graph_seeded(0, 5, 1);
    assert_eq!(seeded.edges, vec![]);
    assert_eq!(seeded.vertices, 5);
}

#[test]
fn the_same_seed_gives_the_same_graph() {
    let first = generate_graph_seeded(300, 1000, 42);
    let second = generate_graph_seeded(300, 1000, 42);
    assert_eq!(first, second);
}

#[test]
fn different_seeds_give_different_graphs() {
    let first = generate_graph_seeded(300, 1000, 1);
    let second = generate_graph_seeded(300, 1000, 2);
    assert_ne!(first.edges, second.edges);
}

#[test]
fn generated_endpoints_vary() {
    let graph = generate_graph(300, 1000);
    let first = graph.edges[0];
    assert!(graph.edges.iter().any(|&edge| edge != first));
    assert!(graph.edges.iter().any(|&(u, v)| u != v));
}

#[test]
fn draws_stay_below_the_bound() {
    let mut seeded = RandomSource::from_seed(7);
    let mut thread = RandomSource::from_thread();
    for bound in [1usize, 2, 5, 1 << 20, usize::MAX] {
        for _ in 0..200 {
            assert!(seeded.index_below(bound) < bound);
            assert!(thread.index_below(bound) < bound);
        }
    }
    assert_eq!(seeded.index_below(1), 0);
    assert_eq!(thread.index_below(1), 0);
}

#[test]
fn a_source_keeps_its_kind() {
    let mut seeded = RandomSource::from_seed(7);
    let mut thread = RandomSource::from_thread();
    assert!(matches!(seeded, RandomSource::Seeded(_)));
    assert!(matches!(thread, RandomSource::Thread(_)));
    seeded.index_below(10);
    thread.index_below(10);
    assert!(matches!(seeded, RandomSource::Seeded(_)));
    assert!(matches!(thread, RandomSource::Thread(_)));
}

#[test]
fn draw_edges_continues_the_source() {
    let mut source = RandomSource::from_seed(11);
    let mut edges = draw_edges(&mut source, 50, 1000);
    edges.extend(draw_edges(&mut source, 50, 1000));
    assert_eq!(edges.len(), 100);
    assert!(edges.iter().all(|&(u, v)| u < 1000 && v < 1000));
    assert_eq!(edges, generate_graph_seeded(100, 1000, 11).edges);
}

#[test]
fn an_edge_takes_its_first_endpoint_first() {
    let mut source = RandomSource::from_seed(5);
    let u = source.index_below(1000);
    let v = source.index_below(1000);
    let graph = generate_graph_seeded(1, 1000, 5);
    assert_eq!(graph.edges, vec![(u, v)]);
}

#[test]
fn the_standard_workload_has_two_hundred_thousand_of_each() {
    assert_eq!(STANDARD_EDGE_COUNT, 200_000);
    assert_eq!(STANDARD_VERTEX_COUNT, 200_000);
}

#[test]
fn equal_seeds_start_equal_generators() {
    let mut first = RandomSource::from_seed(2718);
    let mut second = RandomSource::from_seed(2718);
    let mut other = RandomSource::from_seed(2719);
    let from_first: Vec<usize> = (0..64).map(|_| first.index_below(1 << 30)).collect();
    let from_second: Vec<usize> = (0..64).map(|_| second.index_below(1 << 30)).collect();
    let from_other: Vec<usize> = (0..64).map(|_| other.index_below(1 << 30)).collect();
    assert_eq!(from_first, from_second);
    assert_ne!(from_first, from_other);
}
