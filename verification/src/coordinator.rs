//! The cluster-formation state machine of a guardian node.
//!
//! A node waits for trusted peers, looks for a running cluster to join,
//! and otherwise agrees with its mutually-ready peers that the lowest of
//! them bootstraps the cluster once at least three are ready. Each step
//! here is a decision from what the node observed (peer health, its own
//! Raft status, the clock in milliseconds) to the next state; the caller
//! makes the observations and carries out the actions.

use vstd::prelude::*;
use vstd::string::*;
use crate::api::{HealthResponse, NodeStatus, MIN_PEERS_FOR_BOOTSTRAP, mutually_ready_spec, vec_contains_u64};
use crate::node::{NodeId, SocketAddrV4};

verus! {

/// Number of mutually-ready nodes needed to bootstrap.
pub const BOOTSTRAP_QUORUM: usize = 3;
/// Pause between discovery rounds, in milliseconds.
pub const DISCOVERY_INTERVAL_MS: u64 = 2000;
/// How long to wait for another node to bootstrap, in milliseconds.
pub const BOOTSTRAP_WAIT_TIMEOUT_MS: u64 = 60_000;
/// How long to wait to be added to a cluster, in milliseconds.
pub const MEMBERSHIP_WAIT_TIMEOUT_MS: u64 = 300_000;
/// Pause between membership checks of an active cluster, in milliseconds.
pub const PEER_MONITOR_INTERVAL_MS: u64 = 5000;
/// Timeout of a health query, in milliseconds.
pub const HEALTH_QUERY_TIMEOUT_MS: u64 = 5000;

/// The coordinator's state; deadlines are milliseconds on the caller's clock.
#[derive(Clone, Copy, Debug, PartialEq, Eq, Structural)]
pub enum CoordinatorState {
    WaitingForPeers,
    CheckingCluster,
    CoordinatingBootstrap,
    Bootstrapping,
    WaitingForBootstrap { deadline: u64 },
    Joining { deadline: u64 },
    ClusterActive,
}

impl CoordinatorState {
    /// The upper-case name of the state, such as `WAITING_FOR_PEERS`.
    pub fn to_string(&self) -> (s: String)
        ensures
            s@ == match self {
                CoordinatorState::WaitingForPeers => "WAITING_FOR_PEERS"@,
                CoordinatorState::CheckingCluster => "CHECKING_CLUSTER"@,
                CoordinatorState::CoordinatingBootstrap => "COORDINATING_BOOTSTRAP"@,
                CoordinatorState::Bootstrapping => "BOOTSTRAPPING"@,
                CoordinatorState::WaitingForBootstrap { .. } => "WAITING_FOR_BOOTSTRAP"@,
                CoordinatorState::Joining { .. } => "JOINING"@,
                CoordinatorState::ClusterActive => "CLUSTER_ACTIVE"@,
            },
    {
        match self {
            CoordinatorState::WaitingForPeers => String::from_str("WAITING_FOR_PEERS"),
            CoordinatorState::CheckingCluster => String::from_str("CHECKING_CLUSTER"),
            CoordinatorState::CoordinatingBootstrap => String::from_str("COORDINATING_BOOTSTRAP"),
            CoordinatorState::Bootstrapping => String::from_str("BOOTSTRAPPING"),
            CoordinatorState::WaitingForBootstrap { .. } => String::from_str("WAITING_FOR_BOOTSTRAP"),
            CoordinatorState::Joining { .. } => String::from_str("JOINING"),
            CoordinatorState::ClusterActive => String::from_str("CLUSTER_ACTIVE"),
        }
    }
}

/// `now + wait`, saturating at the end of the clock's range.
pub open spec fn after(now: u64, wait: u64) -> u64 {
    if now + wait <= u64::MAX { (now + wait) as u64 } else { u64::MAX }
}

/// What the node learned of one trusted peer: its health answer (`None`
/// when it has no API address or did not answer) and its Raft address.
#[derive(Clone, Debug)]
pub struct PeerObservation {
    pub node_id: NodeId,
    pub health: Option<HealthResponse>,
    pub raft_addr: Option<SocketAddrV4>,
}

/// Whether an observed peer is in a cluster (and leads it, when
/// `leader_required`) and has a known Raft address.
pub open spec fn cluster_peer(o: PeerObservation, leader_required: bool) -> bool {
    &&& o.health matches Some(h) && h.cluster_size > 0 && (!leader_required || h.status is Leader)
    &&& o.raft_addr is Some
}

/// The first observed peer that is in a cluster (and leads it, when
/// `leader_required`), with its Raft address.
pub open spec fn first_cluster_peer(obs: Seq<PeerObservation>, leader_required: bool) -> Option<(NodeId, SocketAddrV4)>
    decreases obs.len(),
{
    if obs.len() == 0 {
        None
    } else if cluster_peer(obs[0], leader_required) {
        Some((obs[0].node_id, obs[0].raft_addr->0))
    } else {
        first_cluster_peer(obs.drop_first(), leader_required)
    }
}

/// The peer the cluster search finds is an observed peer with a known Raft
/// address that is in a cluster (cluster size above zero) and, when a
/// leader is required, reports itself as the leader; no earlier observed
/// peer is such a peer. The search finds nothing exactly when no observed
/// peer is one: in particular, when a leader is required, a list whose
/// in-cluster peers are all followers gives nothing.
pub proof fn law_cluster_peer_search(obs: Seq<PeerObservation>, leader_required: bool)
    ensures
        first_cluster_peer(obs, leader_required) matches Some((id, addr)) ==> exists|i: int| {
            &&& 0 <= i < obs.len()
            &&& #[trigger] obs[i].node_id == id
            &&& obs[i].raft_addr == Some(addr)
            &&& obs[i].health matches Some(h) && h.cluster_size > 0 && (leader_required ==> h.status == NodeStatus::Leader)
            &&& forall|j: int| 0 <= j < i ==> !(obs[j].raft_addr is Some && (obs[j].health matches Some(h)
                && h.cluster_size > 0 && (leader_required ==> h.status == NodeStatus::Leader)))
        },
        first_cluster_peer(obs, leader_required) is None <==> forall|i: int| 0 <= i < obs.len() ==> !(obs[i].raft_addr is Some
            && (obs[i].health matches Some(h) && h.cluster_size > 0 && (leader_required ==> h.status == NodeStatus::Leader))),
    decreases obs.len(),
{
    if obs.len() > 0 {
        let rest = obs.drop_first();
        law_cluster_peer_search(rest, leader_required);
        assert forall|i: int| 1 <= i < obs.len() implies obs[i] == rest[i - 1] by {}
        if !cluster_peer(obs[0], leader_required) {
            if let Some((id, addr)) = first_cluster_peer(rest, leader_required) {
                let i = choose|i: int| {
                    &&& 0 <= i < rest.len()
                    &&& #[trigger] rest[i].node_id == id
                    &&& rest[i].raft_addr == Some(addr)
                    &&& rest[i].health matches Some(h) && h.cluster_size > 0 && (leader_required ==> h.status == NodeStatus::Leader)
                    &&& forall|j: int| 0 <= j < i ==> !(rest[j].raft_addr is Some && (rest[j].health matches Some(h)
                        && h.cluster_size > 0 && (leader_required ==> h.status == NodeStatus::Leader)))
                };
                assert(obs[i + 1] == rest[i]);
                assert forall|j: int| 0 <= j < i + 1 implies !(obs[j].raft_addr is Some && (obs[j].health matches Some(h)
                    && h.cluster_size > 0 && (leader_required ==> h.status == NodeStatus::Leader))) by {
                    if j > 0 {
                        assert(obs[j] == rest[j - 1]);
                    }
                }
            }
        }
    }
}

/// Looks through the observations, in order, for a peer in a cluster (a
/// leader, when `leader_required`) with a known Raft address.
pub fn find_cluster_peer(obs: &Vec<PeerObservation>, leader_required: bool) -> (r: Option<(NodeId, SocketAddrV4)>)
    ensures
        r == first_cluster_peer(obs@, leader_required),
{
    let mut i: usize = 0;
    assert(obs@.subrange(0, obs@.len() as int) =~= obs@);
    while i < obs.len()
        invariant
            i <= obs@.len(),
            first_cluster_peer(obs@, leader_required) == first_cluster_peer(obs@.subrange(i as int, obs@.len() as int), leader_required),
        decreases obs.len() - i,
    {
        let ghost rest = obs@.subrange(i as int, obs@.len() as int);
        assert(rest[0] == obs@[i as int]);
        assert(rest.drop_first() =~= obs@.subrange(i + 1, obs@.len() as int));
        let o = &obs[i];
        if let Some(h) = &o.health {
            if h.cluster_size > 0 && (!leader_required || h.status.is_leader()) {
                if let Some(a) = o.raft_addr {
                    return Some((o.node_id, a));
                }
            }
        }
        i = i + 1;
    }
    None
}

/// The mutually-ready set: this node when it has enough trusted peers, and
/// every observed peer that is ready to bootstrap and trusts this node.
pub open spec fn ready_set_spec(self_id: NodeId, trusted_count: nat, obs: Seq<PeerObservation>) -> Set<NodeId> {
    Set::new(|n: NodeId|
        (n == self_id && trusted_count >= MIN_PEERS_FOR_BOOTSTRAP)
            || exists|i: int| 0 <= i < obs.len() && (#[trigger] obs[i]).node_id == n
                && (obs[i].health matches Some(h) && mutually_ready_spec(h, self_id, MIN_PEERS_FOR_BOOTSTRAP)))
}

/// Builds the mutually-ready set, each node once.
pub fn mutual_ready_set(self_id: NodeId, trusted_count: usize, obs: &Vec<PeerObservation>) -> (r: Vec<NodeId>)
    ensures
        r@.no_duplicates(),
        r@.to_set() == ready_set_spec(self_id, trusted_count as nat, obs@),
{
    let mut out: Vec<NodeId> = Vec::new();
    if trusted_count >= MIN_PEERS_FOR_BOOTSTRAP {
        out.push(self_id);
    }
    let mut i: usize = 0;
    assert forall|n: NodeId| out@.contains(n) <==> (n == self_id && trusted_count >= MIN_PEERS_FOR_BOOTSTRAP) by {
        if n == self_id && trusted_count >= MIN_PEERS_FOR_BOOTSTRAP {
            assert(out@[0] == n);
        }
    }
    while i < obs.len()
        invariant
            i <= obs@.len(),
            out@.no_duplicates(),
            forall|n: NodeId| out@.contains(n) <==> ((n == self_id && trusted_count >= MIN_PEERS_FOR_BOOTSTRAP)
                || exists|j: int| 0 <= j < i && (#[trigger] obs@[j]).node_id == n
                    && (obs@[j].health matches Some(h) && mutually_ready_spec(h, self_id, MIN_PEERS_FOR_BOOTSTRAP))),
        decreases obs.len() - i,
    {
        let o = &obs[i];
        let ready = match &o.health {
            Some(h) => h.is_mutually_ready(self_id, MIN_PEERS_FOR_BOOTSTRAP),
            None => false,
        };
        let ghost out0 = out@;
        let ghost i0 = i as int;
        assert(ready == (obs@[i0].health matches Some(h) && mutually_ready_spec(h, self_id, MIN_PEERS_FOR_BOOTSTRAP)));
        let node = o.node_id;
        let present = vec_contains_u64(&out, node);
        if ready && !present {
            out.push(node);
        }
        i = i + 1;
        proof {
            assert forall|n: NodeId| out@.contains(n) <==> (out0.contains(n) || (ready && n == node)) by {
                if out0.contains(n) {
                    let k = choose|k: int| 0 <= k < out0.len() && out0[k] == n;
                    assert(out@[k] == n);
                }
                if ready && n == node && !present {
                    assert(out@[out@.len() - 1] == n);
                }
                if out@.contains(n) {
                    let k = choose|k: int| 0 <= k < out@.len() && out@[k] == n;
                    if k < out0.len() {
                        assert(out0[k] == n);
                    }
                }
            }
            assert forall|n: NodeId| out@.contains(n) <==> ((n == self_id && trusted_count >= MIN_PEERS_FOR_BOOTSTRAP)
                || exists|j: int| 0 <= j < i && (#[trigger] obs@[j]).node_id == n
                    && (obs@[j].health matches Some(h) && mutually_ready_spec(h, self_id, MIN_PEERS_FOR_BOOTSTRAP))) by {
                if ready && n == node {
                    assert(obs@[i0].node_id == n);
                }
                if out0.contains(n) && !(n == self_id && trusted_count >= MIN_PEERS_FOR_BOOTSTRAP) {
                    let j = choose|j: int| 0 <= j < i0 && (#[trigger] obs@[j]).node_id == n
                        && (obs@[j].health matches Some(h) && mutually_ready_spec(h, self_id, MIN_PEERS_FOR_BOOTSTRAP));
                    assert(0 <= j < i);
                }
                if exists|j: int| 0 <= j < i && (#[trigger] obs@[j]).node_id == n
                    && (obs@[j].health matches Some(h) && mutually_ready_spec(h, self_id, MIN_PEERS_FOR_BOOTSTRAP)) {
                    let j = choose|j: int| 0 <= j < i && (#[trigger] obs@[j]).node_id == n
                        && (obs@[j].health matches Some(h) && mutually_ready_spec(h, self_id, MIN_PEERS_FOR_BOOTSTRAP));
                    if j < i0 {
                        assert(out0.contains(n));
                    } else {
                        assert(j == i0);
                        assert(ready && n == node);
                    }
                }
            }
            if ready && !present {
                assert forall|a: int, b: int| 0 <= a < out@.len() && 0 <= b < out@.len() && a != b implies out@[a] != out@[b] by {
                    if a < out0.len() && b < out0.len() {
                        assert(out0[a] != out0[b]);
                    } else if a < out0.len() {
                        assert(out0.contains(out@[a]));
                    } else {
                        assert(out0.contains(out@[b]));
                    }
                }
            }
        }
    }
    assert(out@.to_set() =~= ready_set_spec(self_id, trusted_count as nat, obs@));
    out
}

/// `x` is the smallest member of `s`.
pub open spec fn is_lowest(s: Seq<NodeId>, x: NodeId) -> bool {
    s.contains(x) && forall|i: int| 0 <= i < s.len() ==> x <= #[trigger] s[i]
}

/// The smallest identifier of a non-empty list.
pub fn lowest(v: &Vec<NodeId>) -> (r: NodeId)
    requires
        v@.len() > 0,
    ensures
        is_lowest(v@, r),
{
    let mut m = v[0];
    let mut i: usize = 1;
    assert(v@.subrange(0, 1)[0] == m);
    while i < v.len()
        invariant
            1 <= i <= v@.len(),
            v@.subrange(0, i as int).contains(m),
            forall|j: int| 0 <= j < i ==> m <= #[trigger] v@[j],
        decreases v.len() - i,
    {
        if v[i] < m {
            m = v[i];
            assert(v@.subrange(0, i + 1)[i as int] == m);
        } else {
            proof {
                assert(v@.subrange(0, i as int).contains(m));
                let k = choose|k: int| 0 <= k < i && v@.subrange(0, i as int)[k] == m;
                assert(v@.subrange(0, i + 1)[k] == m);
            }
        }
        i = i + 1;
    }
    assert(v@.subrange(0, i as int) =~= v@);
    m
}

/// Whether this node bootstraps, given the ready set: at least a quorum is
/// ready and this node is the lowest of them.
pub open spec fn bootstraps(ready: Seq<NodeId>, self_id: NodeId) -> bool {
    ready.len() >= BOOTSTRAP_QUORUM && is_lowest(ready, self_id)
}

/// Waiting for peers: check for a cluster once enough peers are trusted.
pub fn decide_waiting_for_peers(trusted_count: usize) -> (r: CoordinatorState)
    ensures
        r == if trusted_count >= MIN_PEERS_FOR_BOOTSTRAP {
            CoordinatorState::CheckingCluster
        } else {
            CoordinatorState::WaitingForPeers
        },
{
    if trusted_count >= MIN_PEERS_FOR_BOOTSTRAP {
        CoordinatorState::CheckingCluster
    } else {
        CoordinatorState::WaitingForPeers
    }
}

/// Checking for a cluster: join the leader that was found (the caller adds
/// it to the Raft network), or coordinate a bootstrap.
pub fn decide_checking_cluster(leader: Option<(NodeId, SocketAddrV4)>, now: u64) -> (r: CoordinatorState)
    ensures
        r == match leader {
            Some(_) => CoordinatorState::Joining { deadline: after(now, MEMBERSHIP_WAIT_TIMEOUT_MS) },
            None => CoordinatorState::CoordinatingBootstrap,
        },
{
    match leader {
        Some(_) => CoordinatorState::Joining { deadline: now.saturating_add(MEMBERSHIP_WAIT_TIMEOUT_MS) },
        None => CoordinatorState::CoordinatingBootstrap,
    }
}

/// Coordinating a bootstrap: with a quorum, the lowest ready node
/// bootstraps and the others wait for it.
pub fn decide_coordinating(ready: &Vec<NodeId>, self_id: NodeId, now: u64) -> (r: CoordinatorState)
    ensures
        r == if ready@.len() < BOOTSTRAP_QUORUM {
            CoordinatorState::CoordinatingBootstrap
        } else if bootstraps(ready@, self_id) {
            CoordinatorState::Bootstrapping
        } else {
            CoordinatorState::WaitingForBootstrap { deadline: after(now, BOOTSTRAP_WAIT_TIMEOUT_MS) }
        },
{
    if ready.len() < BOOTSTRAP_QUORUM {
        return CoordinatorState::CoordinatingBootstrap;
    }
    let low = lowest(ready);
    if low == self_id {
        CoordinatorState::Bootstrapping
    } else {
        CoordinatorState::WaitingForBootstrap { deadline: now.saturating_add(BOOTSTRAP_WAIT_TIMEOUT_MS) }
    }
}

/// The pause before a bootstrap attempt, in milliseconds: 100 plus the
/// node identifier modulo 500.
pub fn bootstrap_jitter_ms(node_id: NodeId) -> (r: u64)
    ensures
        r == 100 + node_id % 500,
{
    100 + node_id % 500
}

/// The outcome of the bootstrapping step.
#[derive(Clone, Debug)]
pub enum BootstrapStep {
    /// Do not bootstrap; go to this state.
    Retreat(CoordinatorState),
    /// Initialize the cluster with these peers (identifier and Raft address).
    Initialize(Vec<(NodeId, SocketAddrV4)>),
}

/// Bootstrapping, with the ready set seen again: retreat if it lost its
/// quorum or this node is no longer the lowest; otherwise initialize the
/// cluster with the Raft addresses of the ready peers.
pub fn decide_bootstrapping(
    ready: &Vec<NodeId>,
    self_id: NodeId,
    now: u64,
    addresses: &Vec<(NodeId, SocketAddrV4)>,
) -> (r: BootstrapStep)
    ensures
        ready@.len() < BOOTSTRAP_QUORUM ==> r == BootstrapStep::Retreat(CoordinatorState::CoordinatingBootstrap),
        ready@.len() >= BOOTSTRAP_QUORUM && !is_lowest(ready@, self_id) ==> r == BootstrapStep::Retreat(
            CoordinatorState::WaitingForBootstrap { deadline: after(now, BOOTSTRAP_WAIT_TIMEOUT_MS) },
        ),
        bootstraps(ready@, self_id) ==> (r matches BootstrapStep::Initialize(peers)
            && peers@ == addresses@.filter(|e: (NodeId, SocketAddrV4)| ready@.contains(e.0))),
{
    if ready.len() < BOOTSTRAP_QUORUM {
        return BootstrapStep::Retreat(CoordinatorState::CoordinatingBootstrap);
    }
    let low = lowest(ready);
    if low != self_id {
        return BootstrapStep::Retreat(
            CoordinatorState::WaitingForBootstrap { deadline: now.saturating_add(BOOTSTRAP_WAIT_TIMEOUT_MS) },
        );
    }
    let mut peers: Vec<(NodeId, SocketAddrV4)> = Vec::new();
    let mut i: usize = 0;
    while i < addresses.len()
        invariant
            i <= addresses@.len(),
            peers@ == addresses@.subrange(0, i as int).filter(|e: (NodeId, SocketAddrV4)| ready@.contains(e.0)),
        decreases addresses.len() - i,
    {
        let e = addresses[i];
        proof {
            assert(addresses@.subrange(0, i + 1) =~= addresses@.subrange(0, i as int).push(e));
            addresses@.subrange(0, i as int).lemma_filter_push(e, |e: (NodeId, SocketAddrV4)| ready@.contains(e.0));
        }
        if vec_contains_u64(ready, e.0) {
            peers.push(e);
        }
        i = i + 1;
    }
    assert(addresses@.subrange(0, i as int) =~= addresses@);
    BootstrapStep::Initialize(peers)
}

/// After the attempt to initialize the cluster.
pub fn after_initialize(succeeded: bool) -> (r: CoordinatorState)
    ensures
        r == if succeeded { CoordinatorState::ClusterActive } else { CoordinatorState::CoordinatingBootstrap },
{
    if succeeded {
        CoordinatorState::ClusterActive
    } else {
        CoordinatorState::CoordinatingBootstrap
    }
}

/// Waiting for another node to bootstrap: give up at the deadline; join
/// a peer found in a cluster (the caller adds it to the Raft network); take
/// over if this node became the lowest of a quorum; otherwise keep waiting.
pub fn decide_waiting_for_bootstrap(
    deadline: u64,
    now: u64,
    cluster_peer: Option<(NodeId, SocketAddrV4)>,
    ready: &Vec<NodeId>,
    self_id: NodeId,
) -> (r: CoordinatorState)
    ensures
        r == if now >= deadline {
            CoordinatorState::CoordinatingBootstrap
        } else if cluster_peer is Some {
            CoordinatorState::Joining { deadline: after(now, MEMBERSHIP_WAIT_TIMEOUT_MS) }
        } else if bootstraps(ready@, self_id) {
            CoordinatorState::Bootstrapping
        } else {
            CoordinatorState::WaitingForBootstrap { deadline }
        },
{
    if now >= deadline {
        return CoordinatorState::CoordinatingBootstrap;
    }
    if cluster_peer.is_some() {
        return CoordinatorState::Joining { deadline: now.saturating_add(MEMBERSHIP_WAIT_TIMEOUT_MS) };
    }
    if ready.len() >= BOOTSTRAP_QUORUM {
        let low = lowest(ready);
        if low == self_id {
            return CoordinatorState::Bootstrapping;
        }
        assert(!bootstraps(ready@, self_id)) by {
            if is_lowest(ready@, self_id) {
                assert(low <= self_id && self_id <= low);
            }
        }
    }
    CoordinatorState::WaitingForBootstrap { deadline }
}

/// Joining a cluster: give up at the deadline; done once this node is a
/// voting member; otherwise keep waiting (also while it is a learner).
pub fn decide_joining(deadline: u64, now: u64, status: Option<NodeStatus>) -> (r: CoordinatorState)
    ensures
        r == if now >= deadline {
            CoordinatorState::WaitingForPeers
        } else if status matches Some(s) && (s is Follower || s is Candidate || s is Leader) {
            CoordinatorState::ClusterActive
        } else {
            CoordinatorState::Joining { deadline }
        },
{
    if now >= deadline {
        return CoordinatorState::WaitingForPeers;
    }
    if let Some(s) = status {
        if s.in_cluster() && !matches!(s, NodeStatus::Learner) {
            return CoordinatorState::ClusterActive;
        }
    }
    CoordinatorState::Joining { deadline }
}

/// The trusted peers that the leader adds to the cluster, in order: those
/// not yet members, not added before, and with a known Raft address.
pub open spec fn peers_to_add_spec(
    trusted: Seq<NodeId>,
    members: Seq<NodeId>,
    added: Seq<NodeId>,
    addresses: Seq<(NodeId, SocketAddrV4)>,
) -> Seq<(NodeId, SocketAddrV4)>
    decreases trusted.len(),
{
    if trusted.len() == 0 {
        Seq::empty()
    } else {
        let rest = peers_to_add_spec(trusted.drop_last(), members, added, addresses);
        let p = trusted.last();
        if members.contains(p) || added.contains(p) || !(exists|i: int| 0 <= i < addresses.len() && (#[trigger] addresses[i]).0 == p) {
            rest
        } else {
            rest.push((p, addresses[choose|i: int| 0 <= i < addresses.len() && (#[trigger] addresses[i]).0 == p].1))
        }
    }
}

fn address_of(addresses: &Vec<(NodeId, SocketAddrV4)>, id: NodeId) -> (r: Option<SocketAddrV4>)
    requires
        forall|i: int, j: int| 0 <= i < j < addresses@.len() ==> (#[trigger] addresses@[i]).0 != (#[trigger] addresses@[j]).0,
    ensures
        match r {
            Some(a) => exists|i: int| 0 <= i < addresses@.len() && (#[trigger] addresses@[i]).0 == id
                && a == addresses@[choose|i: int| 0 <= i < addresses@.len() && (#[trigger] addresses@[i]).0 == id].1,
            None => !(exists|i: int| 0 <= i < addresses@.len() && (#[trigger] addresses@[i]).0 == id),
        },
{
    let mut i: usize = 0;
    while i < addresses.len()
        invariant
            forall|a: int, b: int| 0 <= a < b < addresses@.len() ==> (#[trigger] addresses@[a]).0 != (#[trigger] addresses@[b]).0,
            i <= addresses@.len(),
            forall|j: int| 0 <= j < i ==> (#[trigger] addresses@[j]).0 != id,
        decreases addresses.len() - i,
    {
        if addresses[i].0 == id {
            proof {
                let k = choose|k: int| 0 <= k < addresses@.len() && (#[trigger] addresses@[k]).0 == id;
                if k != i {
                    if k < i {
                        assert(addresses@[k].0 != addresses@[i as int].0);
                    } else {
                        assert(addresses@[i as int].0 != addresses@[k].0);
                    }
                }
            }
            return Some(addresses[i].1);
        }
        i = i + 1;
    }
    None
}

/// The peers the leader adds to the cluster (see `peers_to_add_spec`);
/// addresses are listed once per node.
pub fn peers_to_add(
    trusted: &Vec<NodeId>,
    members: &Vec<NodeId>,
    added: &Vec<NodeId>,
    addresses: &Vec<(NodeId, SocketAddrV4)>,
) -> (r: Vec<(NodeId, SocketAddrV4)>)
    requires
        forall|i: int, j: int| 0 <= i < j < addresses@.len() ==> (#[trigger] addresses@[i]).0 != (#[trigger] addresses@[j]).0,
    ensures
        r@ == peers_to_add_spec(trusted@, members@, added@, addresses@),
{
    let mut out: Vec<(NodeId, SocketAddrV4)> = Vec::new();
    let mut i: usize = 0;
    while i < trusted.len()
        invariant
            forall|a: int, b: int| 0 <= a < b < addresses@.len() ==> (#[trigger] addresses@[a]).0 != (#[trigger] addresses@[b]).0,
            i <= trusted@.len(),
            out@ == peers_to_add_spec(trusted@.subrange(0, i as int), members@, added@, addresses@),
        decreases trusted.len() - i,
    {
        let p = trusted[i];
        proof {
            assert(trusted@.subrange(0, i + 1).drop_last() =~= trusted@.subrange(0, i as int));
        }
        if !vec_contains_u64(members, p) && !vec_contains_u64(added, p) {
            if let Some(a) = address_of(addresses, p) {
                out.push((p, a));
            }
        }
        i = i + 1;
    }
    assert(trusted@.subrange(0, i as int) =~= trusted@);
    out
}

/// Among nodes that see the same ready set, at most one bootstraps: the
/// lowest.
pub proof fn law_single_bootstrapper(ready: Seq<NodeId>, a: NodeId, b: NodeId)
    requires
        bootstraps(ready, a),
        bootstraps(ready, b),
    ensures
        a == b,
{
    let i = choose|i: int| 0 <= i < ready.len() && ready[i] == a;
    let j = choose|j: int| 0 <= j < ready.len() && ready[j] == b;
    assert(a <= ready[j]);
    assert(b <= ready[i]);
}

} // verus!
