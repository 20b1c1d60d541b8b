//! Health and cluster-state types shared by the API and the coordinator.

use vstd::prelude::*;
use vstd::string::*;

verus! {

/// Fewest trusted peers with which a node considers bootstrapping.
pub const MIN_PEERS_FOR_BOOTSTRAP: usize = 2;

/// Node lifecycle state in the RAFT cluster.
#[derive(Debug, Clone, Copy, PartialEq, Eq, Hash)]
pub enum NodeStatus {
    /// Not yet in a cluster, waiting for mutual attestation.
    Bootstrapping,
    /// Added to the cluster, not yet voting.
    Learner,
    /// Voting member following the leader.
    Follower,
    /// Voting member running for leader.
    Candidate,
    /// Current leader.
    Leader,
}

impl NodeStatus {
    /// Whether the node leads.
    pub fn is_leader(self) -> (r: bool)
        ensures
            r == (self is Leader),
    {
        matches!(self, NodeStatus::Leader)
    }

    /// Whether the node is bootstrapping.
    pub fn is_bootstrapping(self) -> (r: bool)
        ensures
            r == (self is Bootstrapping),
    {
        matches!(self, NodeStatus::Bootstrapping)
    }

    /// Whether the node is in an active cluster: every state but bootstrapping.
    pub fn in_cluster(self) -> (r: bool)
        ensures
            r == (self is Learner || self is Follower || self is Candidate || self is Leader),
    {
        matches!(self, NodeStatus::Learner | NodeStatus::Follower | NodeStatus::Candidate | NodeStatus::Leader)
    }

    /// The upper-case wire name, such as `BOOTSTRAPPING`.
    pub fn to_string(&self) -> (s: String)
        ensures
            s@ == match self {
                NodeStatus::Bootstrapping => "BOOTSTRAPPING"@,
                NodeStatus::Learner => "LEARNER"@,
                NodeStatus::Follower => "FOLLOWER"@,
                NodeStatus::Candidate => "CANDIDATE"@,
                NodeStatus::Leader => "LEADER"@,
            },
    {
        match self {
            NodeStatus::Bootstrapping => String::from_str("BOOTSTRAPPING"),
            NodeStatus::Learner => String::from_str("LEARNER"),
            NodeStatus::Follower => String::from_str("FOLLOWER"),
            NodeStatus::Candidate => String::from_str("CANDIDATE"),
            NodeStatus::Leader => String::from_str("LEADER"),
        }
    }
}

impl Default for NodeStatus {
    fn default() -> (r: Self)
        ensures
            r == NodeStatus::Bootstrapping,
    {
        NodeStatus::Bootstrapping
    }
}

/// Health check answer with the node's cluster state.
#[derive(Debug, Clone, PartialEq, Eq)]
pub struct HealthResponse {
    /// This node's identifier.
    pub node_id: u64,
    /// Lifecycle state.
    pub status: NodeStatus,
    /// Current RAFT term (0 while bootstrapping).
    pub term: u64,
    /// Number of voters in the cluster membership.
    pub cluster_size: usize,
    /// Nodes this node has attested and trusts.
    pub trusted_peers: Vec<u64>,
}

/// A node is ready to bootstrap when it is in no cluster, has enough trusted
/// peers and is bootstrapping.
pub open spec fn ready_for_bootstrap_spec(h: HealthResponse, min_peers: usize) -> bool {
    h.cluster_size == 0 && h.trusted_peers@.len() >= min_peers && h.status is Bootstrapping
}

/// A node is mutually ready with `our_node_id` when it is ready and trusts it.
pub open spec fn mutually_ready_spec(h: HealthResponse, our_node_id: u64, min_peers: usize) -> bool {
    ready_for_bootstrap_spec(h, min_peers) && h.trusted_peers@.contains(our_node_id)
}

/// Whether `v` holds `x`.
pub fn vec_contains_u64(v: &Vec<u64>, x: u64) -> (r: bool)
    ensures
        r == v@.contains(x),
{
    let mut i: usize = 0;
    while i < v.len()
        invariant
            i <= v.len(),
            forall|j: int| 0 <= j < i ==> v@[j] != x,
        decreases v.len() - i,
    {
        if v[i] == x {
            assert(v@[i as int] == x);
            return true;
        }
        i = i + 1;
    }
    false
}

impl HealthResponse {
    /// Whether the node leads.
    pub fn is_leader(&self) -> (r: bool)
        ensures
            r == (self.status is Leader),
    {
        self.status.is_leader()
    }

    /// Whether the node is bootstrapping.
    pub fn is_bootstrapping(&self) -> (r: bool)
        ensures
            r == (self.status is Bootstrapping),
    {
        self.status.is_bootstrapping()
    }

    /// Whether the node is in an active cluster: a non-empty membership.
    pub fn in_cluster(&self) -> (r: bool)
        ensures
            r == (self.cluster_size > 0),
    {
        self.cluster_size > 0
    }

    /// Whether the node is ready to take part in bootstrap.
    pub fn ready_for_bootstrap(&self, min_peers: usize) -> (r: bool)
        ensures
            r == ready_for_bootstrap_spec(*self, min_peers),
    {
        self.cluster_size == 0 && self.trusted_peers.len() >= min_peers && self.status.is_bootstrapping()
    }

    /// Whether the node is ready and trusts `our_node_id`.
    pub fn is_mutually_ready(&self, our_node_id: u64, min_peers: usize) -> (r: bool)
        ensures
            r == mutually_ready_spec(*self, our_node_id, min_peers),
    {
        self.ready_for_bootstrap(min_peers) && vec_contains_u64(&self.trusted_peers, our_node_id)
    }
}

} // verus!
