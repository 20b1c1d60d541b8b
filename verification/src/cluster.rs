//! The node's view of its Raft cluster: its status from the membership, the
//! voter lists of membership changes, the initial member set, the health
//! answer, the state machine's bookkeeping, and the trust gate on Raft RPCs.

use vstd::prelude::*;
use vstd::string::*;
use crate::api::{HealthResponse, NodeStatus, vec_contains_u64};
use crate::log_store::LogId;
use crate::node::{NodeId, Ipv4Addr, SocketAddrV4};
use crate::trusted_peers::{TrustedPeerRegistry, PeerInfo};

verus! {

/// The node's Raft status and term.
#[derive(Clone, Copy, Debug)]
pub struct NodeState {
    pub status: NodeStatus,
    pub term: u64,
}

/// Settings of a cluster node.
#[derive(Clone, Debug)]
pub struct ClusterConfig {
    pub node_id: NodeId,
    pub raft_address: SocketAddrV4,
    pub api_address: SocketAddrV4,
    pub measurement_registry_url: String,
    pub measurement_namespace: String,
}

impl ClusterConfig {
    /// Node 1 listening on all interfaces (Raft on 8444, API on 8443), the
    /// default registry, namespace `guardian-cluster`.
    pub fn default_config() -> (r: Self)
        ensures
            r.node_id == 1,
            r.raft_address.ip.octets@ == seq![0u8, 0u8, 0u8, 0u8] && r.raft_address.port == 8444,
            r.api_address.ip.octets@ == seq![0u8, 0u8, 0u8, 0u8] && r.api_address.port == 8443,
            r.measurement_registry_url@ == "http://measurement-registry:9000"@,
            r.measurement_namespace@ == "guardian-cluster"@,
    {
        let any = Ipv4Addr::new(0, 0, 0, 0);
        ClusterConfig {
            node_id: 1,
            raft_address: SocketAddrV4 { ip: any, port: 8444 },
            api_address: SocketAddrV4 { ip: any, port: 8443 },
            measurement_registry_url: String::from_str("http://measurement-registry:9000"),
            measurement_namespace: String::from_str("guardian-cluster"),
        }
    }
}

/// The status of node `self_id` from the membership and the known leader:
/// a learner; bootstrapping without any member; the leader; a follower of
/// a known leader; otherwise a candidate.
pub open spec fn status_of(self_id: NodeId, leader: Option<NodeId>, voters: Seq<NodeId>, learners: Seq<NodeId>) -> NodeStatus {
    if learners.contains(self_id) {
        NodeStatus::Learner
    } else if voters.len() == 0 && learners.len() == 0 {
        NodeStatus::Bootstrapping
    } else if leader == Some(self_id) {
        NodeStatus::Leader
    } else if leader is Some {
        NodeStatus::Follower
    } else {
        NodeStatus::Candidate
    }
}

/// The node's status (see `status_of`).
pub fn node_status(self_id: NodeId, leader: Option<NodeId>, voters: &Vec<NodeId>, learners: &Vec<NodeId>) -> (r: NodeStatus)
    ensures
        r == status_of(self_id, leader, voters@, learners@),
{
    if vec_contains_u64(learners, self_id) {
        NodeStatus::Learner
    } else if voters.len() == 0 && learners.len() == 0 {
        NodeStatus::Bootstrapping
    } else if leader == Some(self_id) {
        NodeStatus::Leader
    } else if leader.is_some() {
        NodeStatus::Follower
    } else {
        NodeStatus::Candidate
    }
}

/// Whether node `self_id` leads.
pub fn is_leader(self_id: NodeId, leader: Option<NodeId>) -> (r: bool)
    ensures
        r == (leader == Some(self_id)),
{
    leader == Some(self_id)
}

/// The voters after promoting `peer`: the current voters, with `peer`
/// appended when it is not among them.
pub fn voters_with(voters: &Vec<NodeId>, peer: NodeId) -> (r: Vec<NodeId>)
    ensures
        r@ == if voters@.contains(peer) { voters@ } else { voters@.push(peer) },
{
    let mut out = voters.clone();
    if !vec_contains_u64(voters, peer) {
        out.push(peer);
    }
    out
}

/// The voters after removing `peer`, in order, and whether that changed
/// the voter list (only then is the membership changed).
pub fn voters_without(voters: &Vec<NodeId>, peer: NodeId) -> (r: (Vec<NodeId>, bool))
    ensures
        r.0@ == voters@.filter(|v: NodeId| v != peer),
        r.1 == (r.0@.len() < voters@.len()),
{
    let mut out: Vec<NodeId> = Vec::new();
    let mut i: usize = 0;
    while i < voters.len()
        invariant
            i <= voters@.len(),
            out@ == voters@.subrange(0, i as int).filter(|v: NodeId| v != peer),
            out@.len() <= i,
        decreases voters.len() - i,
    {
        let v = voters[i];
        proof {
            assert(voters@.subrange(0, i + 1) =~= voters@.subrange(0, i as int).push(v));
            voters@.subrange(0, i as int).lemma_filter_push(v, |v: NodeId| v != peer);
        }
        if v != peer {
            out.push(v);
        }
        i = i + 1;
    }
    assert(voters@.subrange(0, i as int) =~= voters@);
    let changed = out.len() < voters.len();
    (out, changed)
}

/// The initial members of a new cluster: the given peers and this node
/// (whose own address wins), ascending by identifier, each once.
pub fn initial_members(self_id: NodeId, self_addr: SocketAddrV4, peers: &Vec<(NodeId, SocketAddrV4)>) -> (r: Vec<(NodeId, SocketAddrV4)>)
    ensures
        forall|i: int, j: int| 0 <= i < j < r@.len() ==> (#[trigger] r@[i]).0 < (#[trigger] r@[j]).0,
        forall|k: NodeId| peer_addresses(peers@).insert(self_id, self_addr).dom().contains(k)
            <==> exists|i: int| 0 <= i < r@.len() && (#[trigger] r@[i]).0 == k,
        forall|i: int| 0 <= i < r@.len() ==> peer_addresses(peers@).insert(self_id, self_addr)[(#[trigger] r@[i]).0] == r@[i].1,
{
    let mut book = TrustedPeerRegistry::new();
    let mut i: usize = 0;
    while i < peers.len()
        invariant
            book.wf(),
            i <= peers@.len(),
            book.peers().map_values(|p: PeerInfo| p.raft_addr) == peer_addresses(peers@.subrange(0, i as int)),
            forall|k: NodeId| #[trigger] book.peers().dom().contains(k) ==> book.peers()[k].raft_addr == book.peers()[k].api_addr,
        decreases peers.len() - i,
    {
        let (id, addr) = peers[i];
        book.mark_trusted(id, addr, addr);
        proof {
            assert(peers@.subrange(0, i + 1).drop_last() =~= peers@.subrange(0, i as int));
            assert(book.peers().map_values(|p: PeerInfo| p.raft_addr) =~= peer_addresses(peers@.subrange(0, i + 1)));
        }
        i = i + 1;
    }
    book.mark_trusted(self_id, self_addr, self_addr);
    let r = book.get_raft_addresses();
    proof {
        assert(peers@.subrange(0, i as int) =~= peers@);
        book.lemma_order();
        let m = peer_addresses(peers@).insert(self_id, self_addr);
        assert(book.peers().map_values(|p: PeerInfo| p.raft_addr) =~= m);
        assert forall|a: int, b: int| 0 <= a < b < r@.len() implies (#[trigger] r@[a]).0 < (#[trigger] r@[b]).0 by {
            assert(book.node_order()[a] < book.node_order()[b]);
        }
        assert forall|k: NodeId| m.dom().contains(k) <==> exists|a: int| 0 <= a < r@.len() && (#[trigger] r@[a]).0 == k by {
            if m.dom().contains(k) {
                assert(book.node_order().contains(k));
                let a = choose|a: int| 0 <= a < book.node_order().len() && book.node_order()[a] == k;
                assert(r@[a].0 == k);
            }
            if exists|a: int| 0 <= a < r@.len() && (#[trigger] r@[a]).0 == k {
                let a = choose|a: int| 0 <= a < r@.len() && (#[trigger] r@[a]).0 == k;
                assert(book.node_order().contains(book.node_order()[a]));
            }
        }
        assert forall|a: int| 0 <= a < r@.len() implies m[(#[trigger] r@[a]).0] == r@[a].1 by {
            assert(book.node_order().contains(book.node_order()[a]));
        }
    }
    r
}

/// The addresses of a list of (node, address) pairs; a later pair of a
/// node replaces an earlier one.
pub open spec fn peer_addresses(peers: Seq<(NodeId, SocketAddrV4)>) -> Map<NodeId, SocketAddrV4>
    decreases peers.len(),
{
    if peers.len() == 0 {
        Map::empty()
    } else {
        peer_addresses(peers.drop_last()).insert(peers.last().0, peers.last().1)
    }
}

/// The health answer of the node: its Raft status, term and number of
/// voters when Raft runs, otherwise bootstrapping with term and size 0.
pub fn health_response(node_id: NodeId, raft: Option<(NodeState, usize)>, trusted_peers: Vec<NodeId>) -> (r: HealthResponse)
    ensures
        r.node_id == node_id,
        r.trusted_peers@ == trusted_peers@,
        match raft {
            Some((st, size)) => r.status == st.status && r.term == st.term && r.cluster_size == size,
            None => r.status == NodeStatus::Bootstrapping && r.term == 0 && r.cluster_size == 0,
        },
{
    match raft {
        Some((st, size)) => HealthResponse { node_id, status: st.status, term: st.term, cluster_size: size, trusted_peers },
        None => HealthResponse { node_id, status: NodeStatus::Bootstrapping, term: 0, cluster_size: 0, trusted_peers },
    }
}

/// The kind of a log entry's payload.
#[derive(Clone, Debug)]
pub enum Payload<M> {
    Blank,
    Normal,
    Membership(M),
}

/// What the state machine records of the applied log: the last applied
/// position and the last membership with the position it took effect.
#[derive(Clone, Debug)]
pub struct AppliedState<M> {
    pub last_applied: Option<LogId>,
    pub last_membership: Option<(Option<LogId>, M)>,
}

/// The state after applying `entries` in order.
pub open spec fn applied_after<M>(st: AppliedState<M>, entries: Seq<(LogId, Payload<M>)>) -> AppliedState<M>
    decreases entries.len(),
{
    if entries.len() == 0 {
        st
    } else {
        let pre = applied_after(st, entries.drop_last());
        let (id, p) = entries.last();
        AppliedState {
            last_applied: Some(id),
            last_membership: match p {
                Payload::Membership(m) => Some((Some(id), m)),
                _ => pre.last_membership,
            },
        }
    }
}

/// Applying a batch of committed entries moves the last applied position
/// to the position of the batch's last entry, whatever its payload (a
/// blank entry included); an empty batch changes nothing. The membership
/// becomes that of the last membership entry of the batch, at its position,
/// and stays as it was when the batch holds none.
pub proof fn law_applied_after<M>(st: AppliedState<M>, entries: Seq<(LogId, Payload<M>)>)
    ensures
        entries.len() == 0 ==> applied_after(st, entries) == st,
        entries.len() > 0 ==> applied_after(st, entries).last_applied == Some(entries.last().0),
        (forall|i: int| 0 <= i < entries.len() ==> !(#[trigger] entries[i].1 is Membership))
            ==> applied_after(st, entries).last_membership == st.last_membership,
        forall|k: int| 0 <= k < entries.len() && (#[trigger] entries[k].1 is Membership)
            && (forall|j: int| k < j < entries.len() ==> !(#[trigger] entries[j].1 is Membership))
            ==> applied_after(st, entries).last_membership == Some((Some(entries[k].0), entries[k].1->Membership_0)),
    decreases entries.len(),
{
    if entries.len() > 0 {
        let pre = entries.drop_last();
        law_applied_after(st, pre);
        assert forall|i: int| 0 <= i < pre.len() implies pre[i] == entries[i] by {}
        assert forall|k: int| 0 <= k < entries.len() && (#[trigger] entries[k].1 is Membership)
            && (forall|j: int| k < j < entries.len() ==> !(#[trigger] entries[j].1 is Membership))
            implies applied_after(st, entries).last_membership == Some((Some(entries[k].0), entries[k].1->Membership_0)) by {
            if k < entries.len() - 1 {
                assert(!(entries[entries.len() - 1].1 is Membership));
                assert(pre[k] == entries[k]);
                assert forall|j: int| k < j < pre.len() implies !(#[trigger] pre[j].1 is Membership) by {
                    assert(pre[j] == entries[j]);
                }
            }
        }
        if forall|i: int| 0 <= i < entries.len() ==> !(#[trigger] entries[i].1 is Membership) {
            assert forall|i: int| 0 <= i < pre.len() implies !(#[trigger] pre[i].1 is Membership) by {
                assert(pre[i] == entries[i]);
            }
            assert(!(entries[entries.len() - 1].1 is Membership));
        }
    }
}

/// Applies entries in order: each becomes the last applied position, and
/// a membership entry becomes the last membership. One empty response per
/// entry is returned (as their count).
pub fn apply_entries<M>(st: &mut AppliedState<M>, entries: Vec<(LogId, Payload<M>)>) -> (r: usize)
    ensures
        *final(st) == applied_after(*old(st), entries@),
        r == entries@.len(),
{
    let ghost start = *st;
    let ghost all = entries@;
    let mut rest = entries;
    let ghost mut done: Seq<(LogId, Payload<M>)> = Seq::empty();
    let mut count: usize = 0;
    let total = rest.len();
    assert(all =~= done + rest@);
    assert(all.len() == total);
    while rest.len() > 0
        invariant
            all == done + rest@,
            *st == applied_after(start, done),
            count == done.len(),
            all.len() <= usize::MAX,
        decreases rest.len(),
    {
        let ghost head = rest@[0];
        let (id, p) = rest.remove(0);
        st.last_applied = Some(id);
        match p {
            Payload::Membership(m) => {
                st.last_membership = Some((Some(id), m));
            },
            _ => {},
        }
        proof {
            let d2 = done.push(head);
            assert(d2.drop_last() =~= done);
            assert(all =~= d2 + rest@);
            done = d2;
        }
        count = count + 1;
    }
    assert(done =~= all);
    count
}

} // verus!
