//! Random graphs: every endpoint drawn independently from `[0, vertices)`.

use vstd::prelude::*;
use crate::graph::{endpoints_in_range, Graph};
use crate::random::RandomSource;

verus! {

/// Edge count of the benchmark's standard workload.
pub const STANDARD_EDGE_COUNT: usize = 200_000;

/// Vertex count of the benchmark's standard workload.
pub const STANDARD_VERTEX_COUNT: usize = 200_000;

/// Draws `num_edges` edges from `source`, the first endpoint of an edge before
/// its second. Self-loops and repeated edges are kept.
///
/// With no vertex to draw there can be no edge, so a positive `num_edges`
/// needs a positive `num_vertices`.
pub fn draw_edges(source: &mut RandomSource, num_edges: usize, num_vertices: usize) -> (edges: Vec<
    (usize, usize),
>)
    requires
        num_edges > 0 ==> num_vertices > 0,
    ensures
        edges@.len() == num_edges,
        endpoints_in_range(edges@, num_vertices as nat),
        *final(source) is Thread <==> *old(source) is Thread,
{
    let mut edges: Vec<(usize, usize)> = Vec::new();
    let mut drawn: usize = 0;
    while drawn < num_edges
        invariant
            drawn <= num_edges,
            num_edges > 0 ==> num_vertices > 0,
            edges@.len() == drawn,
            endpoints_in_range(edges@, num_vertices as nat),
            *source is Thread <==> *old(source) is Thread,
        decreases num_edges - drawn,
    {
        let u: usize = source.index_below(num_vertices);
        let v: usize = source.index_below(num_vertices);
        edges.push((u, v));
        drawn = drawn + 1;
    }
    edges
}

/// A graph of `num_edges` random edges over `num_vertices` vertices, drawn
/// from the calling thread's generator.
pub fn generate_graph(num_edges: usize, num_vertices: usize) -> (graph: Graph)
    requires
        num_edges > 0 ==> num_vertices > 0,
    ensures
        graph@.edges.len() == num_edges,
        graph@.vertices == num_vertices,
        graph.well_formed(),
{
    let mut source: RandomSource = RandomSource::from_thread();
    let edges: Vec<(usize, usize)> = draw_edges(&mut source, num_edges, num_vertices);
    Graph::new(edges, num_vertices)
}

/// A graph of `num_edges` random edges over `num_vertices` vertices, drawn
/// from a generator started from `seed`.
pub fn generate_graph_seeded(num_edges: usize, num_vertices: usize, seed: u64) -> (graph: Graph)
    requires
        num_edges > 0 ==> num_vertices > 0,
    ensures
        graph@.edges.len() == num_edges,
        graph@.vertices == num_vertices,
        graph.well_formed(),
{
    let mut source: RandomSource = RandomSource::from_seed(seed);
    let edges: Vec<(usize, usize)> = draw_edges(&mut source, num_edges, num_vertices);
    Graph::new(edges, num_vertices)
}

} // verus!
