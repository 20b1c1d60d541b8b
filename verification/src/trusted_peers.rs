//! The trusted peers of a node: nodes that passed attestation and may take
//! part in consensus, with their Raft and API addresses.
//!
//! One entry per node, in a `BTreeMap` by node identifier, listed in
//! ascending order; marking a node trusted again replaces its addresses.

use vstd::prelude::*;
use std::collections::BTreeMap;
use crate::btree_keys::{ascending_keys, keys_in_order, lemma_key_order};
use crate::node::{NodeId, SocketAddrV4};

verus! {

/// The addresses of a trusted peer.
#[derive(Clone, Copy, Debug, PartialEq, Eq)]
pub struct PeerInfo {
    pub raft_addr: SocketAddrV4,
    pub api_addr: SocketAddrV4,
}

/// The trusted peers of this node.
pub struct TrustedPeerRegistry {
    trusted_nodes: BTreeMap<NodeId, PeerInfo>,
}

impl TrustedPeerRegistry {
    /// The trusted peers by node identifier.
    pub closed spec fn peers(&self) -> Map<NodeId, PeerInfo> {
        self.trusted_nodes@
    }

    /// The trusted node identifiers in ascending order.
    pub closed spec fn node_order(&self) -> Seq<NodeId> {
        ascending_keys(self.trusted_nodes@.dom())
    }

    /// Well-formedness: finitely many trusted nodes.
    pub closed spec fn wf(&self) -> bool {
        self.trusted_nodes@.dom().finite()
    }

    /// The order lists exactly the trusted nodes, each once, ascending.
    pub proof fn lemma_order(&self)
        requires
            self.wf(),
        ensures
            forall|i: int, j: int| 0 <= i < j < self.node_order().len() ==> self.node_order()[i] < self.node_order()[j],
            forall|k: NodeId| self.peers().dom().contains(k) <==> self.node_order().contains(k),
            self.peers().dom().finite(),
            self.peers().dom().len() == self.node_order().len(),
    {
        lemma_key_order(&self.trusted_nodes);
        let o = self.node_order();
        assert forall|i: int, j: int| 0 <= i < j < o.len() implies o[i] < o[j] by {}
        assert forall|k: NodeId| self.peers().dom().contains(k) <==> o.contains(k) by {}
    }

    /// An empty set of trusted peers.
    pub fn new() -> (r: Self)
        ensures
            r.wf(),
            r.peers() == Map::<NodeId, PeerInfo>::empty(),
    {
        let r = TrustedPeerRegistry { trusted_nodes: BTreeMap::new() };
        proof {
            lemma_key_order(&r.trusted_nodes);
        }
        r
    }

    /// Trusts a node with its addresses, replacing the addresses of a node
    /// already trusted.
    pub fn mark_trusted(&mut self, node_id: NodeId, raft_addr: SocketAddrV4, api_addr: SocketAddrV4)
        requires
            old(self).wf(),
        ensures
            final(self).wf(),
            final(self).peers() == old(self).peers().insert(node_id, PeerInfo { raft_addr, api_addr }),
    {
        broadcast use vstd::std_specs::btree::group_btree_axioms, vstd::laws_cmp::group_laws_cmp;
        self.trusted_nodes.insert(node_id, PeerInfo { raft_addr, api_addr });
        proof {
            lemma_key_order(&self.trusted_nodes);
        }
    }

    /// Whether the node is trusted.
    pub fn is_trusted(&self, node_id: NodeId) -> (r: bool)
        requires
            self.wf(),
        ensures
            r == self.peers().dom().contains(node_id),
    {
        broadcast use vstd::std_specs::btree::group_btree_axioms, vstd::laws_cmp::group_laws_cmp;
        self.trusted_nodes.contains_key(&node_id)
    }

    /// Number of trusted nodes.
    pub fn trusted_count(&self) -> (r: usize)
        requires
            self.wf(),
        ensures
            r == self.peers().len(),
    {
        broadcast use vstd::std_specs::btree::group_btree_axioms, vstd::laws_cmp::group_laws_cmp;
        self.trusted_nodes.len()
    }

    /// The trusted node identifiers, ascending.
    pub fn get_trusted_nodes(&self) -> (r: Vec<NodeId>)
        requires
            self.wf(),
        ensures
            r@ == self.node_order(),
    {
        keys_in_order(&self.trusted_nodes)
    }

    /// The Raft addresses of the trusted nodes, in ascending node order.
    pub fn get_raft_addresses(&self) -> (r: Vec<(NodeId, SocketAddrV4)>)
        requires
            self.wf(),
        ensures
            r@.len() == self.node_order().len(),
            forall|i: int| 0 <= i < r@.len() ==> (#[trigger] r@[i]).0 == self.node_order()[i]
                && r@[i].1 == self.peers()[self.node_order()[i]].raft_addr,
    {
        broadcast use vstd::std_specs::btree::group_btree_axioms, vstd::laws_cmp::group_laws_cmp;
        let ids = keys_in_order(&self.trusted_nodes);
        proof {
            self.lemma_order();
        }
        let mut out: Vec<(NodeId, SocketAddrV4)> = Vec::new();
        let mut i: usize = 0;
        while i < ids.len()
            invariant
                ids@ == self.node_order(),
                forall|k: NodeId| self.peers().dom().contains(k) <==> self.node_order().contains(k),
                i <= ids@.len(),
                out@.len() == i,
                forall|j: int| 0 <= j < i ==> (#[trigger] out@[j]).0 == ids@[j]
                    && out@[j].1 == self.peers()[ids@[j]].raft_addr,
            decreases ids.len() - i,
        {
            let id = ids[i];
            assert(self.node_order().contains(id));
            match self.trusted_nodes.get(&id) {
                Some(info) => {
                    out.push((id, info.raft_addr));
                },
                None => {
                    assert(false);
                },
            }
            i = i + 1;
        }
        out
    }

    /// The API address of a trusted node.
    pub fn get_api_addr(&self, node_id: NodeId) -> (r: Option<SocketAddrV4>)
        requires
            self.wf(),
        ensures
            r == if self.peers().dom().contains(node_id) { Some(self.peers()[node_id].api_addr) } else { None },
    {
        broadcast use vstd::std_specs::btree::group_btree_axioms, vstd::laws_cmp::group_laws_cmp;
        match self.trusted_nodes.get(&node_id) {
            Some(info) => Some(info.api_addr),
            None => None,
        }
    }

    /// The Raft address of a trusted node.
    pub fn get_raft_addr(&self, node_id: NodeId) -> (r: Option<SocketAddrV4>)
        requires
            self.wf(),
        ensures
            r == if self.peers().dom().contains(node_id) { Some(self.peers()[node_id].raft_addr) } else { None },
    {
        broadcast use vstd::std_specs::btree::group_btree_axioms, vstd::laws_cmp::group_laws_cmp;
        match self.trusted_nodes.get(&node_id) {
            Some(info) => Some(info.raft_addr),
            None => None,
        }
    }

    /// Withdraws the trust of a node (nothing happens for an untrusted one).
    pub fn revoke_trust(&mut self, node_id: NodeId)
        requires
            old(self).wf(),
        ensures
            final(self).wf(),
            final(self).peers() == old(self).peers().remove(node_id),
    {
        broadcast use vstd::std_specs::btree::group_btree_axioms, vstd::laws_cmp::group_laws_cmp;
        self.trusted_nodes.remove(&node_id);
        proof {
            lemma_key_order(&self.trusted_nodes);
        }
    }

    /// Forgets every trusted node.
    pub fn clear(&mut self)
        requires
            old(self).wf(),
        ensures
            final(self).wf(),
            final(self).peers() == Map::<NodeId, PeerInfo>::empty(),
    {
        self.trusted_nodes.clear();
        proof {
            lemma_key_order(&self.trusted_nodes);
        }
    }
}

} // verus!
