//! Bootstrap election decisions: which node leads before the consensus layer
//! takes over, what counts as a quorum of discovery responses, and the
//! synthetic snapshot a fresh leader starts from.

use vstd::prelude::*;

use crate::state::ConfState;
use crate::state::Snapshot;
use crate::state::SnapshotMetadata;

verus! {

/// A cluster member: its ID and its address.
#[derive(Clone, Debug, PartialEq, Eq)]
pub struct Node {
    pub node_id: u64,
    pub node_ip: String,
}

/// Mathematical image of a [`Node`].
pub ghost struct NodeV {
    pub node_id: u64,
    pub node_ip: Seq<char>,
}

impl View for Node {
    type V = NodeV;

    open spec fn view(&self) -> NodeV {
        NodeV { node_id: self.node_id, node_ip: self.node_ip@ }
    }
}

impl Node {
    /// Build a node from its address and ID.
    pub fn new(node_ip: String, node_id: u64) -> (r: Node)
        ensures
            r@ == (NodeV { node_id, node_ip: node_ip@ }),
    {
        Node { node_ip, node_id }
    }
}

/// Choose the initial leader. A single-member cluster leads itself; with
/// peers, a leader discovered from them wins; when discovery yields nothing,
/// the local node leads provisionally and the consensus term mechanism
/// resolves any split brain on first contact.
pub fn choose_leader(local_id: u64, local_ip: String, member_count: usize, discovered: Option<
    Node,
>) -> (r: Node)
    ensures
        member_count <= 1 ==> r@ == (NodeV { node_id: local_id, node_ip: local_ip@ }),
        member_count > 1 ==> match discovered {
            Some(n) => r@ == n@,
            None => r@ == (NodeV { node_id: local_id, node_ip: local_ip@ }),
        },
{
    if member_count <= 1 {
        return Node::new(local_ip, local_id);
    }
    match discovered {
        Some(n) => n,
        None => Node::new(local_ip, local_id),
    }
}

/// How many discovery responses form a quorum of `total` members.
pub fn quorum(total: usize) -> (r: usize)
    ensures
        r == total / 2 + 1,
{
    total / 2 + 1
}

/// Whether `responses` responses out of `total` members reach a quorum.
pub fn has_quorum(responses: usize, total: usize) -> (r: bool)
    ensures
        r == (responses >= total / 2 + 1),
{
    responses >= total / 2 + 1
}

/// The synthetic snapshot a fresh leader applies before its first ready
/// cycle: index one, term one, the local node as the only voter. A non-zero
/// index forces new followers to catch up by snapshot first, which brings
/// every node to the same initial state.
pub fn initial_leader_snapshot(node_id: u64) -> (r: Snapshot)
    ensures
        r@.metadata.index == 1,
        r@.metadata.term == 1,
        r@.metadata.conf_state.voters == seq![node_id],
        r@.metadata.conf_state.learners == Seq::<u64>::empty(),
        r@.data == Seq::<u8>::empty(),
{
    let mut voters: Vec<u64> = Vec::new();
    voters.push(node_id);
    proof {
        assert(voters@ =~= seq![node_id]);
    }
    Snapshot {
        metadata: SnapshotMetadata {
            index: 1,
            term: 1,
            conf_state: ConfState { voters, learners: Vec::new() },
        },
        data: Vec::new(),
    }
}

} // verus!
