//! The flat form in which an edge list travels: `u0, v0, u1, v1, ..`.

use vstd::prelude::*;

verus! {

/// `items` cut or padded with `fill` to exactly `len` elements.
pub open spec fn resized<T>(items: Seq<T>, len: nat, fill: T) -> Seq<T> {
    Seq::new(len, |k: int| if k < items.len() { items[k] } else { fill })
}

/// The endpoints of `edges` in one sequence, each edge's first endpoint
/// directly before its second.
pub open spec fn flatten(edges: Seq<(usize, usize)>) -> Seq<usize> {
    Seq::new(
        2 * edges.len(),
        |k: int| if k % 2 == 0 { edges[k / 2].0 } else { edges[k / 2].1 },
    )
}

/// Consecutive elements of `flat` grouped two by two. A last element without a
/// partner is left out.
pub open spec fn pair_up(flat: Seq<usize>) -> Seq<(usize, usize)> {
    Seq::new(flat.len() / 2, |i: int| (flat[2 * i], flat[2 * i + 1]))
}

/// The `edge_count` edges read from `flat`, after `flat` has been cut or padded
/// with zeros to exactly two elements per edge.
pub open spec fn restore(flat: Seq<usize>, edge_count: nat) -> Seq<(usize, usize)> {
    pair_up(resized(flat, 2 * edge_count, 0usize))
}

/// Flattening keeps every endpoint and restoring brings the edges back.
pub proof fn lemma_restore_flatten(edges: Seq<(usize, usize)>)
    ensures
        flatten(edges).len() == 2 * edges.len(),
        restore(flatten(edges), edges.len()) == edges,
{
}

/// The flat form of `edges`.
pub fn flatten_edges(edges: &Vec<(usize, usize)>) -> (flat: Vec<usize>)
    ensures
        flat@ == flatten(edges@),
{
    let mut flat: Vec<usize> = Vec::new();
    let mut i: usize = 0;
    while i < edges.len()
        invariant
            i <= edges.len(),
            flat@.len() == 2 * i,
            forall|k: int| 0 <= k < 2 * i ==> flat@[k] == flatten(edges@)[k],
        decreases edges.len() - i,
    {
        let edge: (usize, usize) = edges[i];
        flat.push(edge.0);
        flat.push(edge.1);
        i = i + 1;
    }
    flat
}

/// The element of `flat` at `position`, or zero where `flat` has none there.
/// `None` stands for a position too large for a machine index.
fn element_or_zero(flat: &Vec<usize>, position: Option<usize>) -> (value: usize)
    ensures
        value == match position {
            Some(k) => if k < flat@.len() { flat@[k as int] } else { 0usize },
            None => 0usize,
        },
{
    match position {
        Some(k) => if k < flat.len() { flat[k] } else { 0 },
        None => 0,
    }
}

/// Reads `edge_count` edges from a flat buffer. A buffer that is too short
/// counts as padded with zeros, and what lies beyond two elements per edge is
/// ignored.
pub fn restore_edges(flat: &Vec<usize>, edge_count: usize) -> (edges: Vec<(usize, usize)>)
    ensures
        edges@ == restore(flat@, edge_count as nat),
{
    let mut edges: Vec<(usize, usize)> = Vec::new();
    let mut i: usize = 0;
    while i < edge_count
        invariant
            i <= edge_count,
            edges@.len() == i,
            forall|j: int| 0 <= j < i ==> edges@[j] == restore(flat@, edge_count as nat)[j],
        decreases edge_count - i,
    {
        let even: Option<usize> = i.checked_mul(2);
        let odd: Option<usize> = match even {
            Some(k) => k.checked_add(1),
            None => None,
        };
        let u: usize = element_or_zero(flat, even);
        let v: usize = element_or_zero(flat, odd);
        proof {
            // A position that no machine index reaches lies beyond the buffer.
            assert(flat@.len() == flat.len());
        }
        edges.push((u, v));
        i = i + 1;
    }
    edges
}

/// Cuts `edges` to `len` entries, or pads it to `len` entries with the
/// placeholder edge `(0, 0)`.
pub fn resize_edges(edges: &mut Vec<(usize, usize)>, len: usize)
    ensures
        final(edges)@ == resized(old(edges)@, len as nat, (0usize, 0usize)),
{
    if len <= edges.len() {
        edges.truncate(len);
    } else {
        while edges.len() < len
            invariant
                old(edges)@.len() <= edges@.len() <= len,
                forall|k: int| 0 <= k < edges@.len() ==> edges@[k] == resized(
                    old(edges)@,
                    len as nat,
                    (0usize, 0usize),
                )[k],
            decreases len - edges.len(),
        {
            edges.push((0, 0));
        }
    }
}

} // verus!
