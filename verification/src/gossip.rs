//! Peer gossip: signed advertisements of a node's addresses, the cache of
//! advertisements that passed verification, and the decisions of the gossip
//! manager.
//!
//! An advertisement binds the node's Raft and API addresses into the
//! attestation evidence: REPORTDATA[0:32] is SHA-256 of the two addresses'
//! text, and REPORTDATA[32:64] is the instance identity.

use vstd::prelude::*;
use vstd::string::*;
use vstd::utf8::encode_utf8;
use crate::bytes::{Bytes32, append_bytes};
use crate::clock::{unix_timestamp_secs};
use crate::config::{GOSSIP_PULL_INTERVAL_SECS, GOSSIP_MAX_PEERS_PER_MESSAGE, GOSSIP_MAX_ADVERTISEMENT_AGE_HOURS};
use crate::crypto::{sha256, spec_sha256, base64_decode, spec_base64_decode, base64_error_text};
use crate::errors::{concat_str, VerificationError, verification_error_text};
use crate::hex::{self, hex_decode_str, hex_error_text, hex_encode_spec};
use crate::json::JsonValue;
use crate::node::{NodeId, Ipv4Addr, SocketAddrV4, BootstrapNode, socket_text, ipv4_text, node_id_of, ip_to_node_id};
use crate::text::{dec_spec, push_decimal, push_char};
use crate::evidence::{detect_tee_type, evidence_tee};
use crate::protocol::{ParsedEvidence, VerifiedEvidence, parse_evidence, verified_binding, verified_identity, binding_mismatch_text};
use crate::snp::snp_parse_outcome;
use crate::tdx::tdx_evidence_outcome;
use crate::tee::Tee;
use std::collections::HashMap;
use vstd::std_specs::hash::spec_hash_map_iter;
use vstd::std_specs::iter::IteratorSpec;

verus! {

/// Gossip settings.
#[derive(Clone, Copy, Debug)]
pub struct GossipConfig {
    /// Interval between pulls of a peer's list, in seconds.
    pub pull_interval_secs: u64,
    /// Largest number of peers in one message.
    pub max_peers_per_message: usize,
    /// Oldest advertisement accepted, in hours.
    pub max_advertisement_age_hours: u64,
}

impl Default for GossipConfig {
    fn default() -> (r: Self)
        ensures
            r.pull_interval_secs == 300,
            r.max_peers_per_message == 50,
            r.max_advertisement_age_hours == 24,
    {
        GossipConfig {
            pull_interval_secs: GOSSIP_PULL_INTERVAL_SECS,
            max_peers_per_message: GOSSIP_MAX_PEERS_PER_MESSAGE,
            max_advertisement_age_hours: GOSSIP_MAX_ADVERTISEMENT_AGE_HOURS,
        }
    }
}

/// A node's advertisement of its addresses, with attestation evidence that
/// binds them.
#[derive(Clone, Debug)]
pub struct PeerAdvertisement {
    pub node_id: NodeId,
    pub raft_address: SocketAddrV4,
    pub api_address: SocketAddrV4,
    /// Hex measurement hash (64 characters).
    pub measurement_hash: String,
    /// Hex instance identity (64 characters).
    pub instance_id: String,
    /// Unix time of creation, in seconds.
    pub timestamp: u64,
    /// Base64 attestation evidence; empty when there is none.
    pub evidence: String,
}

/// The list of advertisements a node hands out.
#[derive(Clone, Debug)]
pub struct PeerListResponse {
    pub peers: Vec<PeerAdvertisement>,
}

/// The answer to an advertisement.
#[derive(Clone, Debug)]
pub struct AdvertiseResponse {
    pub accepted: bool,
    pub reason: Option<String>,
}

/// The bytes that the address binding hashes: the text of the Raft address,
/// then that of the API address.
pub open spec fn binding_input(raft: SocketAddrV4, api: SocketAddrV4) -> Seq<u8> {
    encode_utf8(socket_text(raft.ip.octets@, raft.port)) + encode_utf8(socket_text(api.ip.octets@, api.port))
}

/// The first format problem of an advertisement at Unix time `now`, as its
/// message: the lengths (in bytes) and hex of the instance identity and of
/// the measurement hash, then a timestamp more than 300 s ahead.
pub open spec fn format_error(ad: PeerAdvertisement, now: u64) -> Option<Seq<char>> {
    let il = encode_utf8(ad.instance_id@).len() as usize;
    let ml = encode_utf8(ad.measurement_hash@).len() as usize;
    if il != 64 {
        Some("Invalid "@ + "instance_id"@ + " length: "@ + dec_spec(il as nat) + " (expected 64 hex chars)"@)
    } else if hex_decode_str(ad.instance_id@) is Err {
        Some("Invalid instance_id hex: "@ + hex_error_text(hex_decode_str(ad.instance_id@)->Err_0))
    } else if ml != 64 {
        Some("Invalid "@ + "measurement_hash"@ + " length: "@ + dec_spec(ml as nat) + " (expected 64 hex chars)"@)
    } else if hex_decode_str(ad.measurement_hash@) is Err {
        Some("Invalid measurement_hash hex: "@ + hex_error_text(hex_decode_str(ad.measurement_hash@)->Err_0))
    } else if ad.timestamp > (if now + 300 <= u64::MAX { now + 300 } else { u64::MAX as int }) {
        Some("Advertisement timestamp is in the future"@)
    } else {
        None
    }
}

fn length_message(field: &str, n: usize) -> (m: String)
    ensures
        m@ == "Invalid "@ + field@ + " length: "@ + dec_spec(n as nat) + " (expected 64 hex chars)"@,
{
    let mut m = String::from_str("Invalid ");
    m.append(field);
    m.append(" length: ");
    push_decimal(&mut m, n as u64);
    m.append(" (expected 64 hex chars)");
    m
}

impl PeerAdvertisement {
    /// An advertisement made at Unix time `timestamp`.
    pub fn new_at(
        node_id: NodeId,
        raft_address: SocketAddrV4,
        api_address: SocketAddrV4,
        measurement_hash: String,
        instance_id: String,
        evidence: String,
        timestamp: u64,
    ) -> (r: Self)
        ensures
            r == (PeerAdvertisement { node_id, raft_address, api_address, measurement_hash, instance_id, timestamp, evidence }),
    {
        PeerAdvertisement { node_id, raft_address, api_address, measurement_hash, instance_id, timestamp, evidence }
    }

    /// An advertisement made now.
    pub fn new(
        node_id: NodeId,
        raft_address: SocketAddrV4,
        api_address: SocketAddrV4,
        measurement_hash: String,
        instance_id: String,
        evidence: String,
    ) -> (r: Self)
        ensures
            exists|t: u64| r == (PeerAdvertisement { node_id, raft_address, api_address, measurement_hash, instance_id, timestamp: t, evidence }),
    {
        Self::new_at(node_id, raft_address, api_address, measurement_hash, instance_id, evidence, unix_timestamp_secs())
    }

    /// A copy of the advertisement.
    pub fn duplicate(&self) -> (r: Self)
        ensures
            r == *self,
    {
        PeerAdvertisement {
            node_id: self.node_id,
            raft_address: self.raft_address,
            api_address: self.api_address,
            measurement_hash: self.measurement_hash.clone(),
            instance_id: self.instance_id.clone(),
            timestamp: self.timestamp,
            evidence: self.evidence.clone(),
        }
    }

    /// The address binding: SHA-256 of the Raft address's text followed by
    /// the API address's text.
    pub fn compute_address_binding(raft: &SocketAddrV4, api: &SocketAddrV4) -> (r: [u8; 32])
        ensures
            r@ == spec_sha256(binding_input(*raft, *api)),
    {
        let mut data: Vec<u8> = Vec::new();
        let a = raft.to_string();
        let b = api.to_string();
        append_bytes(&mut data, a.as_str().as_bytes());
        append_bytes(&mut data, b.as_str().as_bytes());
        sha256(data.as_slice())
    }

    /// Checks the format at Unix time `now`.
    pub fn validate_format_at(&self, now: u64) -> (r: Result<(), String>)
        ensures
            match format_error(*self, now) {
                None => r is Ok,
                Some(m) => r matches Err(t) && t@ == m,
            },
    {
        let il = self.instance_id.as_str().len();
        if il != 64 {
            return Err(length_message("instance_id", il));
        }
        if let Err(e) = hex::decode(self.instance_id.as_str()) {
            let t = e.to_string();
            return Err(concat_str("Invalid instance_id hex: ", t.as_str()));
        }
        let ml = self.measurement_hash.as_str().len();
        if ml != 64 {
            return Err(length_message("measurement_hash", ml));
        }
        if let Err(e) = hex::decode(self.measurement_hash.as_str()) {
            let t = e.to_string();
            return Err(concat_str("Invalid measurement_hash hex: ", t.as_str()));
        }
        if self.timestamp > now.saturating_add(300) {
            return Err(String::from_str("Advertisement timestamp is in the future"));
        }
        Ok(())
    }

    /// Checks the format now.
    pub fn validate_format(&self) -> (r: Result<(), String>)
        ensures
            exists|now: u64| match #[trigger] format_error(*self, now) {
                None => r is Ok,
                Some(m) => r matches Err(t) && t@ == m,
            },
    {
        self.validate_format_at(unix_timestamp_secs())
    }
}

/// The bootstrap node an advertisement describes: the Raft address's IP and
/// port, and the API port.
pub open spec fn as_bootstrap(ad: PeerAdvertisement) -> BootstrapNode {
    BootstrapNode { ip_address: ad.raft_address.ip, raft_port: ad.raft_address.port, api_port: ad.api_address.port }
}

/// Whether `b` describes one of the cached advertisements.
pub open spec fn describes_cached(m: Map<NodeId, (PeerAdvertisement, u64)>, b: BootstrapNode) -> bool {
    exists|k: NodeId| m.dom().contains(k) && b == as_bootstrap(#[trigger] m[k].0)
}

/// Advertisements of other nodes that passed verification, newest per node.
pub struct GossipedPeerCache {
    peers: HashMap<NodeId, (PeerAdvertisement, u64)>,
}

/// What adding advertisement `ad` at time `now` does: it replaces an entry
/// of the same node only when it is strictly newer.
pub open spec fn add_step(pre: Map<NodeId, (PeerAdvertisement, u64)>, ad: PeerAdvertisement, now: u64) -> Map<NodeId, (PeerAdvertisement, u64)> {
    if pre.dom().contains(ad.node_id) && pre[ad.node_id].0.timestamp >= ad.timestamp {
        pre
    } else {
        pre.insert(ad.node_id, (ad, now))
    }
}

impl GossipedPeerCache {
    /// The cached advertisements by node, with the time each was added.
    pub closed spec fn entries(&self) -> Map<NodeId, (PeerAdvertisement, u64)> {
        self.peers@
    }

    /// Well-formedness: each advertisement is filed under the node that it
    /// advertises.
    pub closed spec fn wf(&self) -> bool {
        forall|k: NodeId| #[trigger] self.peers@.dom().contains(k) ==> self.peers@[k].0.node_id == k
    }

    /// The cache files each advertisement under the node that it advertises.
    pub proof fn law_entries_filed_by_node(&self)
        requires
            self.wf(),
        ensures
            forall|k: NodeId| #[trigger] self.entries().dom().contains(k) ==> self.entries()[k].0.node_id == k,
    {
    }

    /// An empty cache.
    pub fn new() -> (r: Self)
        ensures
            r.wf(),
            r.entries() == Map::<NodeId, (PeerAdvertisement, u64)>::empty(),
    {
        GossipedPeerCache { peers: HashMap::new() }
    }

    /// Adds a verified advertisement at time `now`, unless the cache holds
    /// one of the same node that is as new or newer.
    pub fn add_verified_at(&mut self, ad: PeerAdvertisement, now: u64)
        requires
            old(self).wf(),
        ensures
            final(self).wf(),
            final(self).entries() == add_step(old(self).entries(), ad, now),
    {
        broadcast use vstd::std_specs::hash::group_hash_axioms;
        let newer_cached = match self.peers.get(&ad.node_id) {
            Some(e) => e.0.timestamp >= ad.timestamp,
            None => false,
        };
        if newer_cached {
            return;
        }
        let id = ad.node_id;
        self.peers.insert(id, (ad, now));
    }

    /// Adds a verified advertisement now (see `add_verified_at`).
    pub fn add_verified(&mut self, ad: PeerAdvertisement)
        requires
            old(self).wf(),
        ensures
            final(self).wf(),
            exists|now: u64| final(self).entries() == #[trigger] add_step(old(self).entries(), ad, now),
    {
        self.add_verified_at(ad, unix_timestamp_secs());
    }

    /// Whether the cache holds an advertisement of the node.
    pub fn contains(&self, node_id: NodeId) -> (r: bool)
        requires
            self.wf(),
        ensures
            r == self.entries().dom().contains(node_id),
    {
        broadcast use vstd::std_specs::hash::group_hash_axioms;
        self.peers.contains_key(&node_id)
    }

    /// The cached advertisement of the node.
    pub fn get(&self, node_id: NodeId) -> (r: Option<PeerAdvertisement>)
        requires
            self.wf(),
        ensures
            r == if self.entries().dom().contains(node_id) { Some(self.entries()[node_id].0) } else { None },
    {
        broadcast use vstd::std_specs::hash::group_hash_axioms;
        match self.peers.get(&node_id) {
            Some(e) => Some(e.0.duplicate()),
            None => None,
        }
    }

    /// All cached advertisements, one per node.
    pub fn get_all_advertisements(&self) -> (r: Vec<PeerAdvertisement>)
        requires
            self.wf(),
        ensures
            r@.len() == self.entries().len(),
            forall|a: int| 0 <= a < r@.len() ==> self.entries().dom().contains((#[trigger] r@[a]).node_id)
                && self.entries()[r@[a].node_id].0 == r@[a],
            forall|k: NodeId| #[trigger] self.entries().dom().contains(k) ==> exists|a: int| 0 <= a < r@.len() && r@[a].node_id == k,
    {
        broadcast use vstd::std_specs::hash::group_hash_axioms;
        let ghost v = spec_hash_map_iter(&self.peers).remaining();
        let mut out: Vec<PeerAdvertisement> = Vec::new();
        for kv in it: self.peers.iter()
            invariant
                v == spec_hash_map_iter(&self.peers).remaining(),
                out@.len() == it.index(),
                forall|a: int| 0 <= a < it.index() ==> #[trigger] out@[a] == (*v[a].1).0,
        {
            out.push(kv.1.0.duplicate());
        }
        proof {
            assert forall|a: int| 0 <= a < out@.len() implies self.entries().dom().contains((#[trigger] out@[a]).node_id)
                && self.entries()[out@[a].node_id].0 == out@[a] by {
                assert(self.peers@.contains_key(*v[a].0));
                assert(self.peers@[*v[a].0] == *v[a].1);
            }
            assert forall|k: NodeId| #[trigger] self.entries().dom().contains(k) implies exists|a: int| 0 <= a < out@.len() && out@[a].node_id == k by {
                assert(self.peers@.contains_key(k));
                assert(v.contains((&k, &self.peers@[k])));
                let a = choose|a: int| 0 <= a < v.len() && v[a] == (&k, &self.peers@[k]);
                assert(out@[a] == self.peers@[k].0);
            }
        }
        out
    }

    /// The cached peers as bootstrap nodes: the Raft address's IP and port,
    /// and the API port; one per cached node.
    pub fn get_all(&self) -> (r: Vec<BootstrapNode>)
        requires
            self.wf(),
        ensures
            r@.len() == self.entries().len(),
            forall|a: int| 0 <= a < r@.len() ==> describes_cached(self.entries(), #[trigger] r@[a]),
    {
        broadcast use vstd::std_specs::hash::group_hash_axioms;
        let ghost v = spec_hash_map_iter(&self.peers).remaining();
        let mut out: Vec<BootstrapNode> = Vec::new();
        for kv in it: self.peers.iter()
            invariant
                v == spec_hash_map_iter(&self.peers).remaining(),
                out@.len() == it.index(),
                forall|a: int| 0 <= a < it.index() ==> #[trigger] out@[a] == as_bootstrap((*v[a].1).0),
        {
            let ad = &kv.1.0;
            out.push(BootstrapNode { ip_address: ad.raft_address.ip, raft_port: ad.raft_address.port, api_port: ad.api_address.port });
        }
        proof {
            assert forall|a: int| 0 <= a < out@.len() implies describes_cached(self.entries(), #[trigger] out@[a]) by {
                let k = *v[a].0;
                assert(self.peers@.contains_key(k));
                assert(self.peers@[k] == *v[a].1);
                assert(out@[a] == as_bootstrap(self.entries()[k].0));
            }
        }
        out
    }
}

/// A newer advertisement of a node replaces the cached one; one that is
/// not newer leaves the cache as it was.
pub proof fn law_newer_advertisement_replaces(pre: Map<NodeId, (PeerAdvertisement, u64)>, ad: PeerAdvertisement, now: u64)
    ensures
        pre.dom().contains(ad.node_id) && pre[ad.node_id].0.timestamp >= ad.timestamp ==> add_step(pre, ad, now) == pre,
        !(pre.dom().contains(ad.node_id) && pre[ad.node_id].0.timestamp >= ad.timestamp) ==> add_step(pre, ad, now)[ad.node_id].0 == ad,
{
}

/// Adding never makes a cached advertisement older, and never drops a node.
pub proof fn law_cache_timestamps_never_decrease(pre: Map<NodeId, (PeerAdvertisement, u64)>, ad: PeerAdvertisement, now: u64, k: NodeId)
    requires
        pre.dom().contains(k),
    ensures
        add_step(pre, ad, now).dom().contains(k),
        add_step(pre, ad, now)[k].0.timestamp >= pre[k].0.timestamp,
{
}

/// What to do with a received advertisement.
#[derive(Debug, Clone)]
pub enum Admission {
    /// Refuse it, for this reason.
    Reject(String),
    /// Accept it without change: it is this node's own, or the cache has
    /// one as new.
    Skip,
    /// Verify its evidence, then add it to the cache.
    Verify,
}

/// The age of an advertisement in whole hours at Unix time `now` (0 for
/// one from the future).
pub open spec fn age_hours(now: u64, timestamp: u64) -> int {
    if now >= timestamp { (now - timestamp) / 3600 } else { 0 }
}

/// The age of an advertisement is the number of whole hours from its
/// timestamp to `now` (for a timestamp not after `now`): an advertisement
/// stamped exactly `h` hours ago is `h` hours old, and it only grows older
/// as time goes on.
pub proof fn law_age_hours(now: u64, later: u64, timestamp: u64, h: u64)
    ensures
        timestamp <= now ==> age_hours(now, timestamp) == (now - timestamp) / 3600,
        timestamp <= now ==> age_hours(now, timestamp) * 3600 <= now - timestamp < (age_hours(now, timestamp) + 1) * 3600,
        now <= later ==> age_hours(now, timestamp) <= age_hours(later, timestamp),
        timestamp + 3600 * h <= u64::MAX ==> age_hours((timestamp + 3600 * h) as u64, timestamp) == h,
        age_hours(now, timestamp) >= 0,
{
    if now <= later && timestamp <= now {
        assert((now - timestamp) / 3600 <= (later - timestamp) / 3600) by (nonlinear_arith)
            requires
                timestamp <= now <= later,
        ;
    }
    if timestamp + 3600 * h <= u64::MAX {
        assert((3600 * h) / 3600 == h) by (nonlinear_arith);
    }
    if timestamp <= now {
        let d: int = now - timestamp;
        assert((d / 3600) * 3600 <= d < (d / 3600 + 1) * 3600) by (nonlinear_arith)
            requires
                d >= 0,
        ;
    }
}

/// A well-formed advertisement that is more than `max_age_hours` whole
/// hours old is refused as too old, with its age in hours; one that is not
/// too old, from another node and newer than anything cached for that node,
/// goes on to verification.
pub proof fn law_admission_by_age(
    cache: Map<NodeId, (PeerAdvertisement, u64)>,
    ad: PeerAdvertisement,
    self_node_id: NodeId,
    max_age_hours: u64,
    now: u64,
    r: Admission,
)
    requires
        admission_outcome(cache, ad, self_node_id, max_age_hours, now, r),
        format_error(ad, now) is None,
    ensures
        ad.timestamp <= now && (now - ad.timestamp) / 3600 > max_age_hours ==> (r matches Admission::Reject(t)
            && t@ == "Advertisement too old: "@ + dec_spec(((now - ad.timestamp) / 3600) as nat) + " hours"@),
        (ad.timestamp > now || (now - ad.timestamp) / 3600 <= max_age_hours) && ad.node_id != self_node_id
            && !cache.dom().contains(ad.node_id) ==> r is Verify,
{
    law_age_hours(now, now, ad.timestamp, 0);
}

/// The admission policy: format, then age, then own node, then freshness
/// against the cache.
pub open spec fn admission_outcome(
    cache: Map<NodeId, (PeerAdvertisement, u64)>,
    ad: PeerAdvertisement,
    self_node_id: NodeId,
    max_age_hours: u64,
    now: u64,
    r: Admission,
) -> bool {
    match format_error(ad, now) {
        Some(m) => r matches Admission::Reject(t) && t@ == m,
        None => if age_hours(now, ad.timestamp) > max_age_hours {
            r matches Admission::Reject(t)
                && t@ == "Advertisement too old: "@ + dec_spec(age_hours(now, ad.timestamp) as nat) + " hours"@
        } else if ad.node_id == self_node_id {
            r is Skip
        } else if cache.dom().contains(ad.node_id) && cache[ad.node_id].0.timestamp >= ad.timestamp {
            r is Skip
        } else {
            r is Verify
        },
    }
}

/// Decides what to do with a received advertisement at Unix time `now`.
pub fn admission_at(
    cache: &GossipedPeerCache,
    ad: &PeerAdvertisement,
    self_node_id: NodeId,
    max_age_hours: u64,
    now: u64,
) -> (r: Admission)
    requires
        cache.wf(),
    ensures
        admission_outcome(cache.entries(), *ad, self_node_id, max_age_hours, now, r),
{
    if let Err(e) = ad.validate_format_at(now) {
        return Admission::Reject(e);
    }
    let age = now.saturating_sub(ad.timestamp) / 3600;
    if age > max_age_hours {
        let mut m = String::from_str("Advertisement too old: ");
        push_decimal(&mut m, age);
        m.append(" hours");
        return Admission::Reject(m);
    }
    if ad.node_id == self_node_id {
        return Admission::Skip;
    }
    if let Some(existing) = cache.get(ad.node_id) {
        if existing.timestamp >= ad.timestamp {
            return Admission::Skip;
        }
    }
    Admission::Verify
}

/// The JSON bytes of an advertisement's evidence, before its signature is
/// checked: evidence must be present and base64.
pub fn advertised_evidence_bytes(ad: &PeerAdvertisement) -> (r: Result<Vec<u8>, String>)
    ensures
        ad.evidence@.len() == 0 ==> (r matches Err(m) && m@ == "TEE evidence required"@),
        ad.evidence@.len() > 0 ==> match spec_base64_decode(encode_utf8(ad.evidence@)) {
            Err(e) => r matches Err(m) && m@ == "Invalid evidence base64: "@ + base64_error_text(e),
            Ok(b) => r matches Ok(v) && v@ == b,
        },
{
    if ad.evidence.as_str().is_empty() {
        return Err(String::from_str("TEE evidence required"));
    }
    match base64_decode(ad.evidence.as_str().as_bytes()) {
        Ok(v) => Ok(v),
        Err(e) => {
            let t = e.to_string();
            Err(concat_str("Invalid evidence base64: ", t.as_str()))
        },
    }
}

/// What an advertisement's evidence must show: the address binding and the
/// instance identity, with the evidence parsed for its signature check.
pub struct EvidenceExpectation {
    pub parsed: ParsedEvidence,
    pub binding: Bytes32,
    pub instance_id: [u8; 32],
}

/// Reads decoded evidence for an advertisement: its platform, the binding
/// the addresses call for, the identity the advertisement claims (hex of 32
/// bytes), and the parsed quote or report.
pub fn expect_evidence(ad: &PeerAdvertisement, evidence: &JsonValue) -> (r: Result<EvidenceExpectation, String>)
    ensures
        evidence_tee(*evidence) is None ==> (r matches Err(m) && m@ == "Cannot detect TEE type from evidence"@),
        evidence_tee(*evidence) is Some ==> match hex_decode_str(ad.instance_id@) {
            Err(e) => r matches Err(m) && m@ == "Invalid instance_id hex: "@ + hex_error_text(e),
            Ok(id) => if id.len() != 32 {
                r matches Err(m) && m@ == "Instance ID must be 32 bytes"@
            } else {
                match r {
                    Ok(x) => x.binding@ == spec_sha256(binding_input(ad.raft_address, ad.api_address))
                        && x.instance_id@ == id
                        && match x.parsed {
                            ParsedEvidence::Tdx(q) => evidence_tee(*evidence) == Some(Tee::Tdx) && tdx_evidence_outcome(*evidence, Ok(q)),
                            ParsedEvidence::Snp(p) => evidence_tee(*evidence) == Some(Tee::Snp) && snp_parse_outcome(*evidence, Ok(p)),
                        },
                    Err(m) => (evidence_tee(*evidence) == Some(Tee::Tdx) && exists|e: VerificationError|
                        tdx_evidence_outcome(*evidence, Err(e)) && m@ == "Failed to parse TDX quote: "@ + verification_error_text(e))
                        || (evidence_tee(*evidence) == Some(Tee::Snp) && exists|e: VerificationError|
                        snp_parse_outcome(*evidence, Err(e)) && m@ == "Failed to parse SEV-SNP report: "@ + verification_error_text(e)),
                }
            },
        },
{
    let tee = match detect_tee_type(evidence) {
        Some(t) => t,
        None => {
            return Err(String::from_str("Cannot detect TEE type from evidence"));
        },
    };
    let binding = Bytes32(PeerAdvertisement::compute_address_binding(&ad.raft_address, &ad.api_address));
    let id_bytes = match hex::decode(ad.instance_id.as_str()) {
        Ok(b) => b,
        Err(e) => {
            let t = e.to_string();
            return Err(concat_str("Invalid instance_id hex: ", t.as_str()));
        },
    };
    if id_bytes.len() != 32 {
        return Err(String::from_str("Instance ID must be 32 bytes"));
    }
    let instance_id = crate::bytes::array32_from_slice(id_bytes.as_slice());
    match parse_evidence(tee, evidence) {
        Ok(parsed) => Ok(EvidenceExpectation { parsed, binding, instance_id }),
        Err(e) => {
            let t = e.to_string();
            if tee == Tee::Tdx {
                Err(concat_str("Failed to parse TDX quote: ", t.as_str()))
            } else {
                Err(concat_str("Failed to parse SEV-SNP report: ", t.as_str()))
            }
        },
    }
}

/// Checks verified evidence against what the advertisement calls for: the
/// address binding in REPORTDATA[0:32], then the instance identity.
pub fn check_advertised_evidence(
    ad: &PeerAdvertisement,
    verified: &VerifiedEvidence,
    binding: &Bytes32,
    instance_id: &[u8; 32],
) -> (r: Result<(), String>)
    ensures
        verified_binding(*verified) != binding@ ==> (r matches Err(m)
            && m@ == "Address binding mismatch: "@ + "Nonce verification failed: "@ + binding_mismatch_text(*verified, binding@)),
        verified_binding(*verified) == binding@ && verified_identity(*verified) != instance_id@ ==> (r matches Err(m)
            && m@ == "Instance ID mismatch: expected "@ + ad.instance_id@ + ", got "@ + hex_encode_spec(verified_identity(*verified))),
        verified_binding(*verified) == binding@ && verified_identity(*verified) == instance_id@ ==> r is Ok,
{
    let (check, actual) = match verified {
        VerifiedEvidence::Tdx(q) => (q.verify_report_data(binding), q.quote.instance_id()),
        VerifiedEvidence::Snp(p) => (p.verify_report_data(binding), p.report.instance_id()),
    };
    if let Err(e) = check {
        let t = e.to_string();
        return Err(concat_str("Address binding mismatch: ", t.as_str()));
    }
    if !crate::bytes::bytes_eq(actual.0.0.as_slice(), instance_id.as_slice()) {
        let mut m = String::from_str("Instance ID mismatch: expected ");
        m.append(ad.instance_id.as_str());
        m.append(", got ");
        let h = actual.to_hex();
        m.append(h.as_str());
        return Err(m);
    }
    Ok(())
}

/// The nodes of the registry's listing to advertise to: all but this node.
pub fn advertise_targets(nodes: &Vec<BootstrapNode>, self_node_id: NodeId) -> (r: Vec<BootstrapNode>)
    ensures
        r@ == nodes@.filter(|n: BootstrapNode| node_id_of(n.ip_address.octets@) != self_node_id),
{
    let mut out: Vec<BootstrapNode> = Vec::new();
    let mut i: usize = 0;
    while i < nodes.len()
        invariant
            i <= nodes@.len(),
            out@ == nodes@.subrange(0, i as int).filter(|n: BootstrapNode| node_id_of(n.ip_address.octets@) != self_node_id),
        decreases nodes.len() - i,
    {
        let n = nodes[i];
        let id = ip_to_node_id(&n.ip_address);
        proof {
            assert(nodes@.subrange(0, i + 1) =~= nodes@.subrange(0, i as int).push(n));
            nodes@.subrange(0, i as int).lemma_filter_push(n, |n: BootstrapNode| node_id_of(n.ip_address.octets@) != self_node_id);
        }
        if id != self_node_id {
            out.push(n);
        }
        i = i + 1;
    }
    assert(nodes@.subrange(0, i as int) =~= nodes@);
    out
}

/// The peer to pull the list from: the trusted node at the randomly chosen
/// index, unless it is this node; `None` without trusted nodes.
pub fn pull_target(trusted: &Vec<NodeId>, index: usize, self_node_id: NodeId) -> (r: Option<NodeId>)
    requires
        trusted@.len() > 0 ==> index < trusted@.len(),
    ensures
        r == if trusted@.len() == 0 || trusted@[index as int] == self_node_id { None } else { Some(trusted@[index as int]) },
{
    if trusted.len() == 0 {
        return None;
    }
    let peer = trusted[index];
    if peer == self_node_id {
        None
    } else {
        Some(peer)
    }
}

fn node_url(ip: &Ipv4Addr, port: u16, path: &str) -> (s: String)
    ensures
        s@ == "http://"@ + ipv4_text(ip.octets@) + ":"@ + dec_spec(port as nat) + path@,
{
    let mut s = String::from_str("http://");
    let t = ip.to_string();
    s.append(t.as_str());
    s.append(":");
    push_decimal(&mut s, port as u64);
    s.append(path);
    s
}

/// `http://{ip}:{port}/guardian_node/peers`.
pub fn peers_url(ip: &Ipv4Addr, port: u16) -> (s: String)
    ensures
        s@ == "http://"@ + ipv4_text(ip.octets@) + ":"@ + dec_spec(port as nat) + "/guardian_node/peers"@,
{
    node_url(ip, port, "/guardian_node/peers")
}

/// `http://{ip}:{port}/guardian_node/advertise`.
pub fn advertise_url(ip: &Ipv4Addr, port: u16) -> (s: String)
    ensures
        s@ == "http://"@ + ipv4_text(ip.octets@) + ":"@ + dec_spec(port as nat) + "/guardian_node/advertise"@,
{
    node_url(ip, port, "/guardian_node/advertise")
}

/// The REPORTDATA for gossip evidence: the address binding, then the
/// instance identity (hex of 32 bytes).
pub fn gossip_report_data(raft_address: &SocketAddrV4, api_address: &SocketAddrV4, instance_id: &str) -> (r: Result<[u8; 64], String>)
    ensures
        match hex_decode_str(instance_id@) {
            Err(e) => r matches Err(m) && m@ == "Invalid instance_id hex: "@ + hex_error_text(e),
            Ok(id) => if id.len() != 32 {
                r matches Err(m) && m@ == "Instance ID must be 32 bytes"@
            } else {
                r matches Ok(d) && d@ == spec_sha256(binding_input(*raft_address, *api_address)) + id
            },
        },
{
    let binding = PeerAdvertisement::compute_address_binding(raft_address, api_address);
    let id = match hex::decode(instance_id) {
        Ok(b) => b,
        Err(e) => {
            let t = e.to_string();
            return Err(concat_str("Invalid instance_id hex: ", t.as_str()));
        },
    };
    if id.len() != 32 {
        return Err(String::from_str("Instance ID must be 32 bytes"));
    }
    let mut data: Vec<u8> = Vec::new();
    append_bytes(&mut data, binding.as_slice());
    append_bytes(&mut data, id.as_slice());
    Ok(crate::bytes::array64_from_slice(data.as_slice()))
}

} // verus!
