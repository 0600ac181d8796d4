//! The edge list that the whole benchmark works on.

use vstd::prelude::*;

verus! {

/// An ordered list of edges `(u, v)` over vertex identifiers, with the number
/// of vertices the identifiers were drawn from.
#[derive(Clone, Debug, PartialEq, Eq)]
pub struct Graph {
    pub edges: Vec<(usize, usize)>,
    pub vertices: usize,
}

/// The mathematical value of a [`Graph`].
pub struct GraphView {
    pub edges: Seq<(usize, usize)>,
    pub vertices: nat,
}

impl View for Graph {
    type V = GraphView;

    open spec fn view(&self) -> GraphView {
        GraphView { edges: self.edges@, vertices: self.vertices as nat }
    }
}

/// Every endpoint of every edge is a vertex identifier below `vertices`.
pub open spec fn endpoints_in_range(edges: Seq<(usize, usize)>, vertices: nat) -> bool {
    forall|i: int|
        0 <= i < edges.len() ==> (#[trigger] edges[i]).0 < vertices && edges[i].1 < vertices
}

impl Graph {
    /// The graph's endpoints all name existing vertices.
    pub open spec fn well_formed(&self) -> bool {
        endpoints_in_range(self@.edges, self@.vertices)
    }

    /// A graph with the given edges over `vertices` vertices.
    pub fn new(edges: Vec<(usize, usize)>, vertices: usize) -> (graph: Graph)
        ensures
            graph@.edges == edges@,
            graph@.vertices == vertices,
    {
        Graph { edges, vertices }
    }

    /// The graph a process holds before replication has told it anything:
    /// no edges, no vertices.
    pub fn placeholder() -> (graph: Graph)
        ensures
            graph@.edges == Seq::<(usize, usize)>::empty(),
            graph@.vertices == 0,
    {
        Graph { edges: Vec::new(), vertices: 0 }
    }

    /// Number of edges.
    pub fn edge_count(&self) -> (count: usize)
        ensures
            count == self@.edges.len(),
    {
        self.edges.len()
    }
}

} // verus!
