//! Local results and what the two collective exchanges make of them.
//!
//! A member computes one result per edge of its slice and sizes the buffer in
//! which it receives the group's answer as if every rank contributed as many
//! results as it does itself. Both exchanges therefore need contributions of
//! one length, while the slices of a group differ in length as soon as the
//! group size does not divide the edge count. [`pad_results`] closes the gap:
//! a rank pads its results with zeros up to the chunk length, which no slice
//! exceeds, so that all ranks contribute equally long vectors.
//!
//! What the answer of an exchange must be is stated here for a whole group at
//! once: [`gather_all`] and [`reduce_all`] take the contributions of all
//! ranks, rank 0 first, and give what every member holds after the exchange.
//! The sum-reduce adds up the ranks' own contributions, entry by entry, not
//! the gathered vector. These two functions describe the exchanges; they do
//! not move data between processes.

use vstd::prelude::*;
use crate::partition::{chunk_len, lemma_range_of_rank, partition_end, partition_start, slice_of};

verus! {

/// The result computed for one edge. Every edge counts once.
pub const EDGE_RESULT: u64 = 1;

/// Why a collective exchange has no outcome.
#[derive(Clone, Copy, Debug, PartialEq, Eq, Structural)]
pub enum CollectiveError {
    /// The contributions are not all of the same length.
    LengthMismatch,
    /// A sum across ranks does not fit the result type.
    SumOverflow,
}

/// One result per edge of the slice, each [`EDGE_RESULT`].
pub fn local_compute(partition: &Vec<(usize, usize)>) -> (results: Vec<u64>)
    ensures
        results@ == Seq::new(partition@.len(), |i: int| EDGE_RESULT),
{
    let mut results: Vec<u64> = Vec::new();
    let mut i: usize = 0;
    while i < partition.len()
        invariant
            i <= partition.len(),
            results@ == Seq::new(i as nat, |k: int| EDGE_RESULT),
        decreases partition.len() - i,
    {
        results.push(EDGE_RESULT);
        i = i + 1;
    }
    results
}

/// `results` followed by zeros up to `len` entries. Results that already have
/// `len` entries or more stay as they are.
pub open spec fn padded(results: Seq<u64>, len: nat) -> Seq<u64> {
    Seq::new(
        if results.len() >= len { results.len() } else { len },
        |i: int| if i < results.len() { results[i] } else { 0u64 },
    )
}

/// What a rank hands to the exchanges: its results, padded with zeros to
/// `len` entries.
pub fn pad_results(results: Vec<u64>, len: usize) -> (contribution: Vec<u64>)
    ensures
        contribution@ == padded(results@, len as nat),
{
    let ghost given = results@;
    let mut contribution: Vec<u64> = results;
    while contribution.len() < len
        invariant
            given.len() <= contribution@.len(),
            contribution@.len() <= len || contribution@.len() == given.len(),
            forall|i: int|
                0 <= i < contribution@.len() ==> contribution@[i] == padded(given, len as nat)[i],
        decreases len - contribution.len(),
    {
        contribution.push(0);
    }
    contribution
}

/// Length of the buffer in which a member receives the outcome of a
/// collective exchange: its own contribution's length for every rank.
pub open spec fn receive_len(local_len: nat, group_size: nat) -> nat {
    local_len * group_size
}

/// A zeroed receive buffer of [`receive_len`] entries.
///
/// A gather fills all of it when every rank contributes `local_len` results.
/// A reduce writes the first `local_len` entries only; the rest stay zero and
/// mean nothing.
pub fn receive_buffer(local_len: usize, group_size: usize) -> (buffer: Vec<u64>)
    requires
        local_len * group_size <= usize::MAX,
    ensures
        buffer@ == Seq::new(receive_len(local_len as nat, group_size as nat), |i: int| 0u64),
{
    let len: usize = local_len * group_size;
    let mut buffer: Vec<u64> = Vec::new();
    let mut i: usize = 0;
    while i < len
        invariant
            i <= len,
            buffer@ == Seq::new(i as nat, |k: int| 0u64),
        decreases len - i,
    {
        buffer.push(0);
        i = i + 1;
    }
    buffer
}

/// The contributions of a group as sequences, rank 0 first.
pub open spec fn rows(locals: Seq<Vec<u64>>) -> Seq<Seq<u64>> {
    Seq::new(locals.len(), |r: int| locals[r]@)
}

/// Every contribution has `len` entries.
pub open spec fn all_of_length(locals: Seq<Seq<u64>>, len: nat) -> bool {
    forall|r: int| 0 <= r < locals.len() ==> (#[trigger] locals[r]).len() == len
}

/// Every contribution is as long as that of rank 0.
pub open spec fn same_lengths(locals: Seq<Seq<u64>>) -> bool {
    locals.len() > 0 ==> all_of_length(locals, locals[0].len())
}

/// The contributions one after the other, in rank order.
pub open spec fn concatenation(locals: Seq<Seq<u64>>) -> Seq<u64>
    decreases locals.len(),
{
    if locals.len() == 0 {
        Seq::empty()
    } else {
        concatenation(locals.drop_last()) + locals.last()
    }
}

/// The sum over all ranks of the entry at `index`.
pub open spec fn column_sum(locals: Seq<Seq<u64>>, index: int) -> nat
    decreases locals.len(),
{
    if locals.len() == 0 {
        0
    } else {
        column_sum(locals.drop_last(), index) + locals.last()[index] as nat
    }
}

/// Whether all contributions have the same length.
pub fn have_same_lengths(locals: &Vec<Vec<u64>>) -> (same: bool)
    ensures
        same == same_lengths(rows(locals@)),
{
    let mut r: usize = 1;
    while r < locals.len()
        invariant
            1 <= r,
            forall|q: int|
                0 <= q < r && q < locals@.len() ==> (#[trigger] rows(locals@)[q]).len() == rows(
                    locals@,
                )[0].len(),
        decreases locals.len() - r,
    {
        if locals[r].len() != locals[0].len() {
            assert(rows(locals@)[r as int].len() != rows(locals@)[0].len());
            return false;
        }
        r = r + 1;
    }
    true
}

/// Gather-concatenate: what every member holds after all ranks have
/// contributed equally long results. Contributions of unequal length have no
/// gathered outcome.
pub fn gather_all(locals: &Vec<Vec<u64>>) -> (result: Result<Vec<u64>, CollectiveError>)
    ensures
        match result {
            Ok(gathered) => same_lengths(rows(locals@)) && gathered@ == concatenation(
                rows(locals@),
            ),
            Err(error) => !same_lengths(rows(locals@)) && error == CollectiveError::LengthMismatch,
        },
{
    if !have_same_lengths(locals) {
        return Err(CollectiveError::LengthMismatch);
    }
    let mut gathered: Vec<u64> = Vec::new();
    let mut r: usize = 0;
    while r < locals.len()
        invariant
            r <= locals.len(),
            gathered@ == concatenation(rows(locals@).take(r as int)),
        decreases locals.len() - r,
    {
        let local: &Vec<u64> = &locals[r];
        let mut i: usize = 0;
        while i < local.len()
            invariant
                i <= local.len(),
                gathered@ == concatenation(rows(locals@).take(r as int)) + local@.take(i as int),
            decreases local.len() - i,
        {
            gathered.push(local[i]);
            i = i + 1;
        }
        assert(rows(locals@).take(r + 1).drop_last() =~= rows(locals@).take(r as int));
        r = r + 1;
    }
    assert(rows(locals@).take(locals@.len() as int) =~= rows(locals@));
    Ok(gathered)
}

/// The number of entries that a sum-reduce over `locals` yields: the length of
/// rank 0's contribution, or none for an empty group.
pub open spec fn width(locals: Seq<Seq<u64>>) -> nat {
    if locals.len() == 0 { 0 } else { locals[0].len() }
}

/// Some sum across ranks is too large for a `u64`.
pub open spec fn overflows(locals: Seq<Seq<u64>>) -> bool {
    exists|i: int| 0 <= i < width(locals) && #[trigger] column_sum(locals, i) > u64::MAX
}

/// Adding ranks never makes a column's sum smaller.
pub proof fn lemma_column_sum_grows(locals: Seq<Seq<u64>>, ranks: int, index: int)
    requires
        0 <= ranks <= locals.len(),
    ensures
        column_sum(locals.take(ranks), index) <= column_sum(locals, index),
    decreases locals.len() - ranks,
{
    if ranks == locals.len() {
        assert(locals.take(ranks) =~= locals);
    } else {
        assert(locals.drop_last().take(ranks) =~= locals.take(ranks));
        lemma_column_sum_grows(locals.drop_last(), ranks, index);
    }
}

/// Sum-reduce: what every member holds after all ranks have contributed
/// equally long results, namely for each index the sum of the ranks' entries
/// there. Contributions of unequal length have no reduced outcome, nor have
/// contributions whose sum at some index exceeds `u64::MAX`.
pub fn reduce_all(locals: &Vec<Vec<u64>>) -> (result: Result<Vec<u64>, CollectiveError>)
    ensures
        match result {
            Ok(reduced) => {
                &&& same_lengths(rows(locals@))
                &&& !overflows(rows(locals@))
                &&& reduced@.len() == width(rows(locals@))
                &&& forall|i: int|
                    0 <= i < reduced@.len() ==> #[trigger] reduced@[i] == column_sum(
                        rows(locals@),
                        i,
                    )
            },
            Err(CollectiveError::LengthMismatch) => !same_lengths(rows(locals@)),
            Err(CollectiveError::SumOverflow) => same_lengths(rows(locals@)) && overflows(
                rows(locals@),
            ),
        },
{
    if !have_same_lengths(locals) {
        return Err(CollectiveError::LengthMismatch);
    }
    let ghost all = rows(locals@);
    let entries: usize = if locals.len() == 0 { 0 } else { locals[0].len() };
    let mut sums: Vec<u64> = Vec::new();
    while sums.len() < entries
        invariant
            sums@.len() <= entries,
            forall|i: int| 0 <= i < sums@.len() ==> sums@[i] == 0,
        decreases entries - sums.len(),
    {
        sums.push(0);
    }
    let mut r: usize = 0;
    while r < locals.len()
        invariant
            r <= locals.len(),
            all == rows(locals@),
            same_lengths(all),
            entries == width(all),
            sums@.len() == entries,
            forall|i: int|
                0 <= i < entries ==> #[trigger] sums@[i] == column_sum(all.take(r as int), i),
        decreases locals.len() - r,
    {
        let local: &Vec<u64> = &locals[r];
        assert(all.take(r + 1).last() == local@);
        let mut i: usize = 0;
        while i < entries
            invariant
                i <= entries,
                r < locals.len(),
                all == rows(locals@),
                same_lengths(all),
                local@ == all[r as int],
                local@.len() == entries,
                entries == width(all),
                sums@.len() == entries,
                all.take(r + 1).drop_last() == all.take(r as int),
                all.take(r + 1).last() == local@,
                forall|k: int|
                    0 <= k < i ==> #[trigger] sums@[k] == column_sum(all.take(r + 1), k),
                forall|k: int|
                    i <= k < entries ==> #[trigger] sums@[k] == column_sum(all.take(r as int), k),
            decreases entries - i,
        {
            match sums[i].checked_add(local[i]) {
                Some(sum) => {
                    sums.set(i, sum);
                },
                None => {
                    proof {
                        lemma_column_sum_grows(all, r + 1, i as int);
                    }
                    return Err(CollectiveError::SumOverflow);
                },
            }
            i = i + 1;
        }
        r = r + 1;
    }
    assert(all.take(locals@.len() as int) =~= all);
    assert(!overflows(all)) by {
        assert forall|i: int| 0 <= i < width(all) implies column_sum(all, i) <= u64::MAX by {
            assert(sums@[i] == column_sum(all, i));
        }
    }
    Ok(sums)
}

/// Gather correctness: when each of the ranks contributes `len` results, the
/// gathered sequence has `len` entries per rank, and the entry at
/// `rank * len + index` is the entry at `index` of what `rank` contributed.
pub proof fn lemma_gathered_entry(locals: Seq<Seq<u64>>, len: nat, rank: int, index: int)
    requires
        all_of_length(locals, len),
        0 <= rank < locals.len(),
        0 <= index < len,
    ensures
        concatenation(locals).len() == receive_len(len, locals.len()),
        0 <= rank * len + index < concatenation(locals).len(),
        concatenation(locals)[rank * len + index] == locals[rank][index],
    decreases locals.len(),
{
    let front = locals.drop_last();
    let ranks = locals.len() as int;
    lemma_gathered_len(front, len);
    lemma_gathered_len(locals, len);
    assert((ranks - 1) * len + len == ranks * len) by (nonlinear_arith);
    if rank == ranks - 1 {
        assert(rank * len + index >= 0) by (nonlinear_arith)
            requires rank >= 0, index >= 0, len >= 0;
    } else {
        lemma_gathered_entry(front, len, rank, index);
    }
}

/// When each of the ranks contributes `len` results, the gathered sequence
/// has as many entries as a receive buffer.
pub proof fn lemma_gathered_len(locals: Seq<Seq<u64>>, len: nat)
    requires
        all_of_length(locals, len),
    ensures
        concatenation(locals).len() == receive_len(len, locals.len()),
    decreases locals.len(),
{
    if locals.len() == 0 {
        assert(len * 0 == 0) by (nonlinear_arith);
    } else {
        let front = locals.drop_last();
        let ranks = locals.len() as int;
        lemma_gathered_len(front, len);
        assert(len * (ranks - 1) + len == len * ranks) by (nonlinear_arith);
    }
}

/// When each of `ranks` ranks contributes `len` results that are all
/// [`EDGE_RESULT`], every sum across ranks is the number of ranks.
pub proof fn lemma_unit_results_sum(locals: Seq<Seq<u64>>, len: nat, index: int)
    requires
        forall|r: int|
            0 <= r < locals.len() ==> #[trigger] locals[r] == Seq::new(len, |i: int| EDGE_RESULT),
        0 <= index < len,
    ensures
        column_sum(locals, index) == locals.len(),
    decreases locals.len(),
{
    if locals.len() > 0 {
        lemma_unit_results_sum(locals.drop_last(), len, index);
    }
}

/// The results of `rank` for its slice of `edges`, padded to the chunk length.
pub open spec fn contribution_of(edges: Seq<(usize, usize)>, rank: nat, group_size: nat) -> Seq<
    u64,
> {
    padded(
        Seq::new(slice_of(edges, rank, group_size).len(), |i: int| EDGE_RESULT),
        chunk_len(edges.len(), group_size),
    )
}

/// Padding balances the group: whatever its rank, a member's padded
/// contribution has exactly as many entries as the chunk length, because no
/// slice is longer than that.
pub proof fn lemma_contributions_balanced(edges: Seq<(usize, usize)>, rank: nat, group_size: nat)
    requires
        group_size >= 1,
    ensures
        slice_of(edges, rank, group_size).len() <= chunk_len(edges.len(), group_size),
        contribution_of(edges, rank, group_size).len() == chunk_len(edges.len(), group_size),
{
    let c = chunk_len(edges.len(), group_size);
    lemma_range_of_rank(edges.len(), rank, group_size);
    assert(rank * c >= 0) by (nonlinear_arith)
        requires rank >= 0, c >= 0;
    assert(partition_end(edges.len(), rank, group_size) - partition_start(
        edges.len(),
        rank,
        group_size,
    ) <= c);
}

/// The padded contributions of all ranks of a group, rank 0 first.
pub open spec fn group_contributions(edges: Seq<(usize, usize)>, group_size: nat) -> Seq<Seq<u64>> {
    Seq::new(group_size, |r: int| contribution_of(edges, r as nat, group_size))
}

/// With padded contributions both exchanges are defined for every edge count
/// and every group size: the contributions have one length, the chunk length,
/// and what is gathered fills a receive buffer exactly.
pub proof fn lemma_group_is_balanced(edges: Seq<(usize, usize)>, group_size: nat)
    requires
        group_size >= 1,
    ensures
        all_of_length(group_contributions(edges, group_size), chunk_len(edges.len(), group_size)),
        same_lengths(group_contributions(edges, group_size)),
        concatenation(group_contributions(edges, group_size)).len() == receive_len(
            chunk_len(edges.len(), group_size),
            group_size,
        ),
{
    let group = group_contributions(edges, group_size);
    assert forall|r: int| 0 <= r < group.len() implies (#[trigger] group[r]).len() == chunk_len(
        edges.len(),
        group_size,
    ) by {
        lemma_contributions_balanced(edges, r as nat, group_size);
    }
    lemma_gathered_len(group, chunk_len(edges.len(), group_size));
}

} // verus!
