//! The Raft RPC router: the addresses of the cluster's nodes, and the trust
//! gate that every outbound RPC passes. An RPC to a node that is not
//! trusted is refused as unreachable, so that heartbeats, votes and log
//! entries never reach an unattested peer.

use vstd::prelude::*;
use vstd::string::*;
use std::collections::BTreeMap;
use crate::node::{NodeId, SocketAddrV4};
use crate::trusted_peers::TrustedPeerRegistry;

verus! {

/// The addresses of the cluster's nodes, by node identifier.
#[derive(Clone, Debug)]
pub struct Router {
    nodes: BTreeMap<NodeId, SocketAddrV4>,
}

impl View for Router {
    type V = Map<NodeId, SocketAddrV4>;

    closed spec fn view(&self) -> Map<NodeId, SocketAddrV4> {
        self.nodes@
    }
}

impl Router {
    /// A router that knows no node.
    pub fn new() -> (r: Self)
        ensures
            r@ == Map::<NodeId, SocketAddrV4>::empty(),
    {
        Router { nodes: BTreeMap::new() }
    }

    /// Records the address of a node, replacing the one it had.
    pub fn add_node(&mut self, node_id: NodeId, address: SocketAddrV4)
        ensures
            final(self)@ == old(self)@.insert(node_id, address),
    {
        proof {
            broadcast use vstd::laws_cmp::group_laws_cmp;
        }
        self.nodes.insert(node_id, address);
    }

    /// Forgets a node; nothing changes for a node it does not know.
    pub fn remove_node(&mut self, node_id: NodeId)
        ensures
            final(self)@ == old(self)@.remove(node_id),
    {
        proof {
            broadcast use vstd::laws_cmp::group_laws_cmp, vstd::std_specs::btree::group_btree_axioms;
        }
        self.nodes.remove(&node_id);
    }

    /// The address of a node.
    pub fn get(&self, node_id: NodeId) -> (r: Option<SocketAddrV4>)
        ensures
            match r {
                Some(a) => self@.dom().contains(node_id) && self@[node_id] == a,
                None => !self@.dom().contains(node_id),
            },
    {
        proof {
            broadcast use vstd::laws_cmp::group_laws_cmp, vstd::std_specs::btree::group_btree_axioms;
        }
        match self.nodes.get(&node_id) {
            Some(a) => Some(*a),
            None => None,
        }
    }

    /// The number of known nodes.
    pub fn len(&self) -> (r: usize)
        ensures
            r == self@.dom().len(),
    {
        proof {
            broadcast use vstd::laws_cmp::group_laws_cmp, vstd::std_specs::btree::group_btree_axioms;
        }
        self.nodes.len()
    }
}

/// Why an RPC was not sent: the peer is not trusted.
#[derive(Clone, Debug, PartialEq, Eq)]
pub enum RpcRefusal {
    /// The target is not an attested peer (`Peer not trusted`).
    Untrusted,
}

/// The URL of an RPC: `http://{address}/{uri}`.
pub open spec fn rpc_url_text(address: Seq<char>, uri: Seq<char>) -> Seq<char> {
    "http://"@ + address + "/"@ + uri
}

/// The trust gate of an outbound RPC: the URL to post to when the target
/// is a trusted peer, else a refusal.
pub fn rpc_target(trusted: &TrustedPeerRegistry, target: NodeId, address: &str, uri: &str) -> (r: Result<String, RpcRefusal>)
    requires
        trusted.wf(),
    ensures
        r is Ok <==> trusted.peers().dom().contains(target),
        r matches Ok(url) ==> url@ == rpc_url_text(address@, uri@),
{
    if !trusted.is_trusted(target) {
        return Err(RpcRefusal::Untrusted);
    }
    let mut url = String::from_str("http://");
    url.append(address);
    url.append("/");
    url.append(uri);
    Ok(url)
}

} // verus!
