//! Replication of the origin's graph to every member of the group.
//!
//! The group runs three broadcast rounds, all led by the origin: the vertex
//! count, the edge count, and the edges in flat form. In each round every
//! member hands the transport a buffer ([`Replica::offer`]), the transport
//! overwrites it with the origin's, and the member takes the result in
//! ([`Replica::accept`]). The transport itself is not part of this library.

use vstd::prelude::*;
use crate::graph::{Graph, GraphView};
use crate::wire::{flatten, flatten_edges, lemma_restore_flatten, resize_edges, resized, restore,
    restore_edges};

verus! {

/// The rank that leads every broadcast.
pub const ORIGIN_RANK: usize = 0;

/// The broadcast a member takes part in next.
#[derive(Clone, Copy, Debug, PartialEq, Eq, Structural)]
pub enum Round {
    /// The vertex count is about to be broadcast.
    VertexCount,
    /// The edge count is about to be broadcast.
    EdgeCount,
    /// The flat edge list is about to be broadcast.
    Edges,
    /// All three rounds are over.
    Complete,
}

/// What one broadcast carries.
#[derive(Clone, Debug, PartialEq, Eq)]
pub enum Buffer {
    /// A single count.
    Count(usize),
    /// Endpoints, two per edge.
    Flat(Vec<usize>),
}

/// The mathematical value of a [`Buffer`].
pub enum BufferView {
    Count(nat),
    Flat(Seq<usize>),
}

impl View for Buffer {
    type V = BufferView;

    open spec fn view(&self) -> BufferView {
        match *self {
            Buffer::Count(n) => BufferView::Count(n as nat),
            Buffer::Flat(flat) => BufferView::Flat(flat@),
        }
    }
}

/// Why a delivered buffer was not taken in.
#[derive(Clone, Copy, Debug, PartialEq, Eq, Structural)]
pub enum ReplicationError {
    /// The buffer is not of the kind that the current round carries.
    UnexpectedBuffer,
    /// The three rounds are over; nothing more is expected.
    AlreadyComplete,
}

/// One member's side of the replication.
#[derive(Debug, PartialEq, Eq)]
pub struct Replica {
    /// Whether this member leads the broadcasts.
    pub origin: bool,
    /// The round this member takes part in next.
    pub round: Round,
    /// The graph as far as this member knows it.
    pub graph: Graph,
    /// The edge count that the second round delivered; zero before.
    pub edge_count: usize,
}

/// The mathematical value of a [`Replica`].
pub struct ReplicaView {
    pub origin: bool,
    pub round: Round,
    pub graph: GraphView,
    pub edge_count: nat,
}

impl View for Replica {
    type V = ReplicaView;

    open spec fn view(&self) -> ReplicaView {
        ReplicaView {
            origin: self.origin,
            round: self.round,
            graph: self.graph@,
            edge_count: self.edge_count as nat,
        }
    }
}

/// The buffer a member hands to the transport in its current round, `None`
/// once the rounds are over. A follower's buffer has the size of the origin's
/// and holds placeholders.
pub open spec fn offered(state: ReplicaView) -> Option<BufferView> {
    match state.round {
        Round::VertexCount => Some(BufferView::Count(state.graph.vertices)),
        Round::EdgeCount => Some(BufferView::Count(state.graph.edges.len())),
        Round::Edges => Some(BufferView::Flat(flatten(state.graph.edges))),
        Round::Complete => None,
    }
}

/// Whether `delivered` is of the kind that `round` carries.
pub open spec fn fits(round: Round, delivered: BufferView) -> bool {
    match round {
        Round::VertexCount | Round::EdgeCount => delivered is Count,
        Round::Edges => delivered is Flat,
        Round::Complete => false,
    }
}

/// The state of a member after the transport has delivered `delivered` in the
/// member's current round. A buffer that does not fit the round changes
/// nothing.
///
/// The first round sets the vertex count. The second fixes the edge count, and
/// a follower cuts or pads its edge list to that many placeholder edges. In
/// the third a follower replaces its edges by those read from the flat
/// buffer; the origin keeps its own.
pub open spec fn accepted(state: ReplicaView, delivered: BufferView) -> ReplicaView {
    match (state.round, delivered) {
        (Round::VertexCount, BufferView::Count(n)) => ReplicaView {
            round: Round::EdgeCount,
            graph: GraphView { vertices: n, ..state.graph },
            ..state
        },
        (Round::EdgeCount, BufferView::Count(n)) => ReplicaView {
            round: Round::Edges,
            edge_count: n,
            graph: if state.origin {
                state.graph
            } else {
                GraphView { edges: resized(state.graph.edges, n, (0usize, 0usize)), ..state.graph }
            },
            ..state
        },
        (Round::Edges, BufferView::Flat(flat)) => ReplicaView {
            round: Round::Complete,
            graph: if state.origin {
                state.graph
            } else {
                GraphView { edges: restore(flat, state.edge_count), ..state.graph }
            },
            ..state
        },
        _ => state,
    }
}

/// The state of `member` after one round led by `leader`: the member is
/// delivered what the leader offers.
pub open spec fn after_round(leader: ReplicaView, member: ReplicaView) -> ReplicaView {
    match offered(leader) {
        Some(buffer) => accepted(member, buffer),
        None => member,
    }
}

/// The state of `member` after the three rounds led by `leader`. The leader
/// takes part in each round like any other member.
pub open spec fn after_replication(leader: ReplicaView, member: ReplicaView) -> ReplicaView {
    let leader_1 = after_round(leader, leader);
    let member_1 = after_round(leader, member);
    let leader_2 = after_round(leader_1, leader_1);
    let member_2 = after_round(leader_1, member_1);
    after_round(leader_2, member_2)
}

/// Replication equality: after the three rounds every follower, whatever
/// graph it began with, holds the graph that the origin began with; the origin
/// still holds it too; and no member has anything left to offer.
pub proof fn lemma_replication_equality(leader: ReplicaView, follower: ReplicaView)
    requires
        leader.origin,
        leader.round == Round::VertexCount,
        !follower.origin,
        follower.round == Round::VertexCount,
    ensures
        after_replication(leader, follower).graph == leader.graph,
        after_replication(leader, leader).graph == leader.graph,
        after_replication(leader, follower).round == Round::Complete,
        after_replication(leader, leader).round == Round::Complete,
        offered(after_replication(leader, follower)) is None,
        offered(after_replication(leader, leader)) is None,
{
    lemma_restore_flatten(leader.graph.edges);
}

/// The states of a whole group, rank 0 first, after the three rounds led by
/// rank 0.
pub open spec fn group_after_replication(group: Seq<ReplicaView>) -> Seq<ReplicaView> {
    Seq::new(group.len(), |rank: int| after_replication(group[0], group[rank]))
}

/// Replication equality for a group of any size: when rank 0 is the origin,
/// no other rank is, and all stand before the first round, every rank ends
/// with the graph that rank 0 began with.
pub proof fn lemma_group_replication(group: Seq<ReplicaView>)
    requires
        group.len() >= 1,
        forall|rank: int|
            0 <= rank < group.len() ==> (#[trigger] group[rank]).origin == (rank == 0),
        forall|rank: int|
            0 <= rank < group.len() ==> (#[trigger] group[rank]).round == Round::VertexCount,
    ensures
        group_after_replication(group).len() == group.len(),
        forall|rank: int|
            0 <= rank < group.len() ==> {
                &&& (#[trigger] group_after_replication(group)[rank]).graph == group[0].graph
                &&& group_after_replication(group)[rank].round == Round::Complete
            },
{
    assert forall|rank: int| 0 <= rank < group.len() implies {
        &&& (#[trigger] group_after_replication(group)[rank]).graph == group[0].graph
        &&& group_after_replication(group)[rank].round == Round::Complete
    } by {
        if rank == 0 {
            lemma_replication_equality(group[0], ReplicaView { origin: false, ..group[0] });
        } else {
            lemma_replication_equality(group[0], group[rank]);
        }
    }
}

/// In every round a follower offers a buffer of the kind and size of the
/// origin's, so the transport can overwrite the one with the other. The flat
/// buffers of the third round hold two entries per edge of the origin's graph.
pub proof fn lemma_offers_match(leader: ReplicaView, follower: ReplicaView)
    requires
        leader.origin,
        leader.round == Round::VertexCount,
        !follower.origin,
        follower.round == Round::VertexCount,
    ensures
        offered(leader) is Some && offered(leader)->0 is Count,
        offered(follower) is Some && offered(follower)->0 is Count,
        ({
            let leader_1 = after_round(leader, leader);
            let follower_1 = after_round(leader, follower);
            &&& offered(leader_1) is Some && offered(leader_1)->0 is Count
            &&& offered(follower_1) is Some && offered(follower_1)->0 is Count
        }),
        ({
            let leader_1 = after_round(leader, leader);
            let follower_1 = after_round(leader, follower);
            let leader_2 = after_round(leader_1, leader_1);
            let follower_2 = after_round(leader_1, follower_1);
            &&& offered(leader_2) matches Some(BufferView::Flat(sent))
            &&& offered(follower_2) matches Some(BufferView::Flat(placeholders))
            &&& sent.len() == 2 * leader.graph.edges.len()
            &&& placeholders.len() == sent.len()
        }),
{
}

impl Replica {
    /// The state in which the member of rank `rank` enters the first round,
    /// holding `graph`: the origin its generated graph, a follower whatever
    /// placeholder it has.
    pub fn start(rank: usize, graph: Graph) -> (replica: Replica)
        ensures
            replica@.origin == (rank == ORIGIN_RANK),
            replica@.round == Round::VertexCount,
            replica@.graph == graph@,
            replica@.edge_count == 0,
    {
        Replica { origin: rank == ORIGIN_RANK, round: Round::VertexCount, graph, edge_count: 0 }
    }

    /// Whether the three rounds are over.
    pub fn is_complete(&self) -> (done: bool)
        ensures
            done == (self@.round == Round::Complete),
    {
        match self.round {
            Round::Complete => true,
            _ => false,
        }
    }

    /// The buffer to hand to the transport in the current round.
    pub fn offer(&self) -> (buffer: Option<Buffer>)
        ensures
            match buffer {
                Some(b) => offered(self@) == Some(b@),
                None => offered(self@) is None,
            },
    {
        match self.round {
            Round::VertexCount => Some(Buffer::Count(self.graph.vertices)),
            Round::EdgeCount => Some(Buffer::Count(self.graph.edges.len())),
            Round::Edges => Some(Buffer::Flat(flatten_edges(&self.graph.edges))),
            Round::Complete => None,
        }
    }

    /// Takes in the buffer that the transport delivered in the current round
    /// and moves on to the next.
    pub fn accept(&mut self, delivered: Buffer) -> (result: Result<(), ReplicationError>)
        ensures
            final(self)@ == accepted(old(self)@, delivered@),
            match result {
                Ok(_) => fits(old(self)@.round, delivered@),
                Err(ReplicationError::UnexpectedBuffer) => !fits(old(self)@.round, delivered@)
                    && old(self)@.round != Round::Complete,
                Err(ReplicationError::AlreadyComplete) => old(self)@.round == Round::Complete,
            },
    {
        match self.round {
            Round::VertexCount => match delivered {
                Buffer::Count(n) => {
                    self.graph.vertices = n;
                    self.round = Round::EdgeCount;
                    Ok(())
                },
                Buffer::Flat(_) => Err(ReplicationError::UnexpectedBuffer),
            },
            Round::EdgeCount => match delivered {
                Buffer::Count(n) => {
                    self.edge_count = n;
                    if !self.origin {
                        resize_edges(&mut self.graph.edges, n);
                    }
                    self.round = Round::Edges;
                    Ok(())
                },
                Buffer::Flat(_) => Err(ReplicationError::UnexpectedBuffer),
            },
            Round::Edges => match delivered {
                Buffer::Flat(flat) => {
                    if !self.origin {
                        self.graph.edges = restore_edges(&flat, self.edge_count);
                    }
                    self.round = Round::Complete;
                    Ok(())
                },
                Buffer::Count(_) => Err(ReplicationError::UnexpectedBuffer),
            },
            Round::Complete => Err(ReplicationError::AlreadyComplete),
        }
    }

    /// The graph this member holds.
    pub fn into_graph(self) -> (graph: Graph)
        ensures
            graph@ == self@.graph,
    {
        self.graph
    }
}

} // verus!
