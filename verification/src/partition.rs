//! Static partitioning of the edge list over the ranks of a process group.

use vstd::prelude::*;
use crate::graph::Graph;

verus! {

/// Edges per rank: the edge count divided by the group size, rounded up.
pub open spec fn chunk_len(edge_count: nat, group_size: nat) -> nat
    recommends
        group_size > 0,
{
    ((edge_count + group_size - 1) / (group_size as int)) as nat
}

/// First index of the slice owned by `rank`, never beyond the edge count.
pub open spec fn partition_start(edge_count: nat, rank: nat, group_size: nat) -> nat {
    let raw = rank * chunk_len(edge_count, group_size);
    if raw >= edge_count { edge_count } else { raw }
}

/// One past the last index of the slice owned by `rank`, never beyond the edge count.
pub open spec fn partition_end(edge_count: nat, rank: nat, group_size: nat) -> nat {
    let raw = rank * chunk_len(edge_count, group_size) + chunk_len(edge_count, group_size);
    if raw >= edge_count { edge_count } else { raw }
}

/// The edges that `rank` works on: those at the indices from
/// [`partition_start`] up to, and not including, [`partition_end`].
pub open spec fn slice_of(edges: Seq<(usize, usize)>, rank: nat, group_size: nat) -> Seq<
    (usize, usize),
> {
    edges.subrange(
        partition_start(edges.len(), rank, group_size) as int,
        partition_end(edges.len(), rank, group_size) as int,
    )
}

/// The slices of the ranks below `ranks`, one after the other in rank order.
pub open spec fn slices_joined(edges: Seq<(usize, usize)>, ranks: nat, group_size: nat) -> Seq<
    (usize, usize),
>
    decreases ranks,
{
    if ranks == 0 {
        Seq::empty()
    } else {
        slices_joined(edges, (ranks - 1) as nat, group_size) + slice_of(
            edges,
            (ranks - 1) as nat,
            group_size,
        )
    }
}

/// A contiguous half-open range `[start, end)` of indices into the edge list.
#[derive(Clone, Copy, Debug, PartialEq, Eq, Structural)]
pub struct Partition {
    pub start: usize,
    pub end: usize,
}

impl Partition {
    /// Number of indices in the range.
    pub open spec fn spec_len(&self) -> nat {
        if self.end >= self.start { (self.end - self.start) as nat } else { 0 }
    }

    /// Number of indices in the range.
    pub fn len(&self) -> (n: usize)
        ensures
            n == self.spec_len(),
    {
        if self.end >= self.start { self.end - self.start } else { 0 }
    }

    /// Whether the range holds no index.
    pub fn is_empty(&self) -> (empty: bool)
        ensures
            empty <==> self.spec_len() == 0,
    {
        self.end <= self.start
    }
}

/// Rounded-up quotient, computed without an intermediate sum that could overflow.
pub fn chunk_size(edge_count: usize, group_size: usize) -> (chunk: usize)
    requires
        group_size > 0,
    ensures
        chunk == chunk_len(edge_count as nat, group_size as nat),
{
    let quotient: usize = edge_count / group_size;
    let remainder: usize = edge_count % group_size;
    proof {
        lemma_rounded_up_quotient(edge_count as int, group_size as int);
    }
    if remainder == 0 { quotient } else { quotient + 1 }
}

/// The index range that `rank` owns among `edge_count` edges split over
/// `group_size` ranks. A rank whose share would begin at or beyond the last
/// edge gets the empty range `[edge_count, edge_count)`.
pub fn partition_range(edge_count: usize, rank: usize, group_size: usize) -> (range: Partition)
    requires
        group_size > 0,
    ensures
        range.start == partition_start(edge_count as nat, rank as nat, group_size as nat),
        range.end == partition_end(edge_count as nat, rank as nat, group_size as nat),
        range.start <= range.end <= edge_count,
{
    let chunk: usize = chunk_size(edge_count, group_size);
    let start: usize = match rank.checked_mul(chunk) {
        Some(raw) => if raw >= edge_count { edge_count } else { raw },
        None => edge_count,
    };
    let end: usize = if chunk >= edge_count - start { edge_count } else { start + chunk };
    Partition { start, end }
}

/// The edges that `rank` works on: the slice of the graph's edge list given by
/// [`partition_range`], in the graph's order.
pub fn parallel_partition(graph: &Graph, rank: usize, size: usize) -> (local: Vec<(usize, usize)>)
    requires
        size > 0,
    ensures
        local@ == slice_of(graph@.edges, rank as nat, size as nat),
{
    let range: Partition = partition_range(graph.edges.len(), rank, size);
    let mut local: Vec<(usize, usize)> = Vec::new();
    let mut i: usize = range.start;
    while i < range.end
        invariant
            range.start <= i <= range.end <= graph.edges.len(),
            local@ == graph.edges@.subrange(range.start as int, i as int),
        decreases range.end - i,
    {
        local.push(graph.edges[i]);
        i = i + 1;
    }
    local
}

/// `(e + n - 1) / n` is `e / n` when `n` divides `e`, and one more otherwise.
pub proof fn lemma_rounded_up_quotient(e: int, n: int)
    requires
        0 <= e,
        0 < n,
    ensures
        (e + n - 1) / n == if e % n == 0 { e / n } else { e / n + 1 },
        e / n <= e,
        e % n != 0 ==> e / n < e,
{
    let q = e / n;
    let r = e % n;
    assert(e == q * n + r && 0 <= r < n) by {
        vstd::arithmetic::div_mod::lemma_fundamental_div_mod(e, n);
        vstd::arithmetic::div_mod::lemma_mod_bound(e, n);
        vstd::arithmetic::mul::lemma_mul_is_commutative(q, n);
    }
    assert(0 <= q <= e) by (nonlinear_arith)
        requires e == q * n + r, 0 <= r < n, 0 < n, 0 <= e;
    if r == 0 {
        vstd::arithmetic::div_mod::lemma_fundamental_div_mod_converse(e + n - 1, n, q, n - 1);
    } else {
        assert((q + 1) * n == q * n + n) by (nonlinear_arith);
        vstd::arithmetic::div_mod::lemma_fundamental_div_mod_converse(e + n - 1, n, q + 1, r - 1);
        assert(q < e) by (nonlinear_arith)
            requires e == q * n + r, 0 < r, 0 < n, 0 <= q;
    }
}

/// Whether `index` lies in the range owned by `rank`.
pub open spec fn owns(edge_count: nat, rank: nat, group_size: nat, index: nat) -> bool {
    partition_start(edge_count, rank, group_size) <= index < partition_end(
        edge_count,
        rank,
        group_size,
    )
}

/// The rank that works on the edge at `index`.
pub open spec fn owner_of(edge_count: nat, group_size: nat, index: nat) -> nat {
    index / chunk_len(edge_count, group_size)
}

/// The chunk length times the group size reaches the edge count, and a
/// non-empty edge list gives a positive chunk length.
pub proof fn lemma_chunks_reach_the_end(edge_count: nat, group_size: nat)
    requires
        group_size >= 1,
    ensures
        chunk_len(edge_count, group_size) * group_size >= edge_count,
        edge_count > 0 ==> chunk_len(edge_count, group_size) >= 1,
        edge_count == 0 ==> chunk_len(edge_count, group_size) == 0,
{
    let e = edge_count as int;
    let n = group_size as int;
    let q = e / n;
    let r = e % n;
    lemma_rounded_up_quotient(e, n);
    assert(e == q * n + r && 0 <= r < n) by {
        vstd::arithmetic::div_mod::lemma_fundamental_div_mod(e, n);
        vstd::arithmetic::div_mod::lemma_mod_bound(e, n);
        vstd::arithmetic::mul::lemma_mul_is_commutative(q, n);
    }
    assert((q + 1) * n == q * n + n) by (nonlinear_arith);
    if e > 0 && r == 0 {
        assert(q >= 1) by (nonlinear_arith)
            requires e == q * n, e > 0, n > 0;
    }
    if e == 0 {
        assert(q == 0) by (nonlinear_arith)
            requires 0 == q * n + r, 0 <= r, n > 0, 0 <= q;
    }
}

/// The ranges of the ranks `0, 1, .., group_size - 1` lie side by side: the
/// first begins at 0, each ends where the next begins, and the last ends at
/// the edge count. A rank whose share would begin at or beyond the last edge
/// owns an empty range.
pub proof fn lemma_partitions_adjacent(edge_count: nat, group_size: nat)
    requires
        group_size >= 1,
    ensures
        partition_start(edge_count, 0, group_size) == 0,
        forall|rank: nat|
            partition_start(edge_count, rank, group_size) <= #[trigger] partition_end(
                edge_count,
                rank,
                group_size,
            ) <= edge_count,
        forall|rank: nat|
            #[trigger] partition_end(edge_count, rank, group_size) == partition_start(
                edge_count,
                rank + 1,
                group_size,
            ),
        forall|rank: nat|
            rank + 1 >= group_size ==> #[trigger] partition_end(edge_count, rank, group_size)
                == edge_count,
        forall|rank: nat|
            rank * chunk_len(edge_count, group_size) >= edge_count ==> partition_start(
                edge_count,
                rank,
                group_size,
            ) == #[trigger] partition_end(edge_count, rank, group_size),
{
    lemma_range_of_rank(edge_count, 0, group_size);
    assert forall|rank: nat|
        partition_start(edge_count, rank, group_size) <= #[trigger] partition_end(
            edge_count,
            rank,
            group_size,
        ) <= edge_count by {
        lemma_range_of_rank(edge_count, rank, group_size);
    }
    assert forall|rank: nat|
        #[trigger] partition_end(edge_count, rank, group_size) == partition_start(
            edge_count,
            rank + 1,
            group_size,
        ) by {
        lemma_range_of_rank(edge_count, rank, group_size);
    }
    assert forall|rank: nat| rank + 1 >= group_size implies #[trigger] partition_end(
        edge_count,
        rank,
        group_size,
    ) == edge_count by {
        lemma_range_of_rank(edge_count, rank, group_size);
    }
    assert forall|rank: nat|
        rank * chunk_len(edge_count, group_size) >= edge_count implies partition_start(
        edge_count,
        rank,
        group_size,
    ) == #[trigger] partition_end(edge_count, rank, group_size) by {
        lemma_range_of_rank(edge_count, rank, group_size);
    }
}

/// The range of one rank: it is well-formed, ends where the next rank's range
/// begins, reaches the edge count from the last rank of the group on, and is
/// empty when the rank's share would begin at or beyond the last edge.
pub proof fn lemma_range_of_rank(edge_count: nat, rank: nat, group_size: nat)
    requires
        group_size >= 1,
    ensures
        rank == 0 ==> partition_start(edge_count, rank, group_size) == 0,
        partition_start(edge_count, rank, group_size) <= partition_end(
            edge_count,
            rank,
            group_size,
        ) <= edge_count,
        partition_end(edge_count, rank, group_size) == partition_start(
            edge_count,
            rank + 1,
            group_size,
        ),
        rank + 1 >= group_size ==> partition_end(edge_count, rank, group_size) == edge_count,
        rank * chunk_len(edge_count, group_size) >= edge_count ==> partition_start(
            edge_count,
            rank,
            group_size,
        ) == partition_end(edge_count, rank, group_size),
{
    let c = chunk_len(edge_count, group_size);
    lemma_chunks_reach_the_end(edge_count, group_size);
    assert((rank + 1) * c == rank * c + c && rank * c >= 0) by (nonlinear_arith);
    if rank == 0 {
        assert(rank * c == 0) by (nonlinear_arith)
            requires rank == 0;
    }
    if rank + 1 >= group_size {
        assert((rank + 1) * c >= c * group_size) by (nonlinear_arith)
            requires rank + 1 >= group_size, c >= 0;
    }
}

/// Every index below the edge count is owned by exactly one rank of the group,
/// the one that [`owner_of`] names, and no rank owns an index at or beyond the
/// edge count.
pub proof fn lemma_partition_coverage(edge_count: nat, group_size: nat)
    requires
        group_size >= 1,
    ensures
        forall|index: nat|
            #![trigger owner_of(edge_count, group_size, index)]
            index < edge_count ==> {
                &&& owner_of(edge_count, group_size, index) < group_size
                &&& owns(edge_count, owner_of(edge_count, group_size, index), group_size, index)
            },
        forall|rank: nat, index: nat| #[trigger]
            owns(edge_count, rank, group_size, index) ==> index < edge_count && rank == owner_of(
                edge_count,
                group_size,
                index,
            ),
{
    assert forall|index: nat|
        #![trigger owner_of(edge_count, group_size, index)]
        index < edge_count implies {
        &&& owner_of(edge_count, group_size, index) < group_size
        &&& owns(edge_count, owner_of(edge_count, group_size, index), group_size, index)
    } by {
        lemma_owner_owns(edge_count, group_size, index);
    }
    assert forall|rank: nat, index: nat| #[trigger]
        owns(edge_count, rank, group_size, index) implies index < edge_count && rank == owner_of(
        edge_count,
        group_size,
        index,
    ) by {
        lemma_only_owner_owns(edge_count, rank, group_size, index);
    }
}

/// The rank that [`owner_of`] names belongs to the group and owns the index.
pub proof fn lemma_owner_owns(edge_count: nat, group_size: nat, index: nat)
    requires
        group_size >= 1,
        index < edge_count,
    ensures
        owner_of(edge_count, group_size, index) < group_size,
        owns(edge_count, owner_of(edge_count, group_size, index), group_size, index),
{
    let c = chunk_len(edge_count, group_size) as int;
    let i = index as int;
    let q = i / c;
    lemma_chunks_reach_the_end(edge_count, group_size);
    assert(i == q * c + i % c && 0 <= i % c < c) by {
        vstd::arithmetic::div_mod::lemma_fundamental_div_mod(i, c);
        vstd::arithmetic::div_mod::lemma_mod_bound(i, c);
        vstd::arithmetic::mul::lemma_mul_is_commutative(q, c);
    }
    assert(0 <= q < group_size) by (nonlinear_arith)
        requires
            i == q * c + i % c,
            0 <= i % c < c,
            0 <= i < edge_count,
            c * group_size >= edge_count,
    ;
}

/// A rank that owns an index is the one that [`owner_of`] names, and the index
/// lies below the edge count.
pub proof fn lemma_only_owner_owns(edge_count: nat, rank: nat, group_size: nat, index: nat)
    requires
        group_size >= 1,
        owns(edge_count, rank, group_size, index),
    ensures
        index < edge_count,
        rank == owner_of(edge_count, group_size, index),
{
    let c = chunk_len(edge_count, group_size) as int;
    let i = index as int;
    let r = rank as int;
    lemma_chunks_reach_the_end(edge_count, group_size);
    assert(r * c >= 0) by (nonlinear_arith)
        requires r >= 0, c >= 0;
    vstd::arithmetic::div_mod::lemma_fundamental_div_mod_converse(i, c, r, i - r * c);
}

/// The slices of the ranks below `ranks` make up the edge list as far as the
/// first index of rank `ranks`.
pub proof fn lemma_slices_joined_prefix(edges: Seq<(usize, usize)>, ranks: nat, group_size: nat)
    requires
        group_size >= 1,
    ensures
        slices_joined(edges, ranks, group_size) == edges.subrange(
            0,
            partition_start(edges.len(), ranks, group_size) as int,
        ),
    decreases ranks,
{
    if ranks == 0 {
        lemma_range_of_rank(edges.len(), 0, group_size);
    } else {
        let before = (ranks - 1) as nat;
        lemma_slices_joined_prefix(edges, before, group_size);
        lemma_range_of_rank(edges.len(), before, group_size);
        assert(slices_joined(edges, ranks, group_size) =~= edges.subrange(
            0,
            partition_start(edges.len(), ranks, group_size) as int,
        ));
    }
}

/// The slices of all ranks of the group, joined in rank order, are the edge
/// list: no edge is lost, none is taken twice, and the order is kept.
pub proof fn lemma_slices_rebuild_edges(edges: Seq<(usize, usize)>, group_size: nat)
    requires
        group_size >= 1,
    ensures
        slices_joined(edges, group_size, group_size) == edges,
{
    let last = (group_size - 1) as nat;
    lemma_slices_joined_prefix(edges, group_size, group_size);
    lemma_range_of_rank(edges.len(), last, group_size);
}

} // verus!
