//! How attestation results become cluster membership, and the decisions of
//! the guardian node API (quotes, peer lists, advertisements).

use vstd::prelude::*;
use vstd::string::*;
use crate::config::CONSENSUS_API_PORT;
use crate::errors::{concat_str, ApiError};
use crate::gossip::{AdvertiseResponse, GossipedPeerCache, PeerAdvertisement, format_error, age_hours, add_step};
use crate::hex::{self, hex_decode_str, hex_error_text};
use crate::node::{NodeId, SocketAddrV4, node_id_of, ip_to_node_id};
use crate::tee::{PeerRegistryEvent, event_namespace};
use crate::text::{dec_spec, push_decimal};
use crate::trusted_peers::{TrustedPeerRegistry, PeerInfo};

verus! {

/// Interval between cleanups of expired challenges, in seconds.
pub const CLEANUP_INTERVAL_SECS: u64 = 30;

/// Whether the handler for `namespace` can act on the event: a verified
/// record must carry its address and API port, a revoked one its address.
pub open spec fn event_actionable(namespace: Seq<char>, event: PeerRegistryEvent) -> bool {
    event_namespace(event)@ == namespace ==> match event {
        PeerRegistryEvent::Verified { record, .. } => record.ip_address is Some && record.api_port is Some,
        PeerRegistryEvent::Revoked { record, .. } => record.ip_address is Some,
        _ => true,
    }
}

/// What an event of the namespace does to the trusted peers: a verified
/// instance is trusted with its Raft address (the consensus port) and API
/// address; a revoked one loses its trust; other events, and events of
/// other namespaces, change nothing.
pub open spec fn membership_after(namespace: Seq<char>, event: PeerRegistryEvent, pre: Map<NodeId, PeerInfo>) -> Map<NodeId, PeerInfo> {
    if event_namespace(event)@ != namespace {
        pre
    } else {
        match event {
            PeerRegistryEvent::Verified { record, .. } => {
                let ip = record.ip_address->0;
                pre.insert(
                    node_id_of(ip.octets@) as u64,
                    PeerInfo {
                        raft_addr: SocketAddrV4 { ip, port: 8444 },
                        api_addr: SocketAddrV4 { ip, port: record.api_port->0 },
                    },
                )
            },
            PeerRegistryEvent::Revoked { record, .. } => pre.remove(node_id_of((record.ip_address->0).octets@) as u64),
            _ => pre,
        }
    }
}

/// A TEE verified in the handler's namespace becomes a trusted peer, with
/// the consensus port as its Raft address and its own API port.
pub proof fn law_verified_peer_is_trusted(namespace: Seq<char>, event: PeerRegistryEvent, pre: Map<NodeId, PeerInfo>)
    requires
        event_namespace(event)@ == namespace,
        event matches PeerRegistryEvent::Verified { record, .. } && record.ip_address is Some && record.api_port is Some,
    ensures
        ({
            let record = event->Verified_record;
            let ip = record.ip_address->0;
            let node = node_id_of(ip.octets@) as u64;
            &&& membership_after(namespace, event, pre).dom().contains(node)
            &&& membership_after(namespace, event, pre)[node].raft_addr == (SocketAddrV4 { ip, port: CONSENSUS_API_PORT })
            &&& membership_after(namespace, event, pre)[node].api_addr == (SocketAddrV4 { ip, port: record.api_port->0 })
        }),
{
}

/// A TEE revoked in the handler's namespace is no longer a trusted peer.
pub proof fn law_revoked_peer_is_untrusted(namespace: Seq<char>, event: PeerRegistryEvent, pre: Map<NodeId, PeerInfo>)
    requires
        event_namespace(event)@ == namespace,
        event matches PeerRegistryEvent::Revoked { record, .. } && record.ip_address is Some,
    ensures
        !membership_after(namespace, event, pre).dom().contains(
            node_id_of((event->Revoked_record.ip_address->0).octets@) as u64,
        ),
{
}

/// Events of other namespaces, and registrations and rejections, leave the
/// trusted peers as they were.
pub proof fn law_other_events_change_nothing(namespace: Seq<char>, event: PeerRegistryEvent, pre: Map<NodeId, PeerInfo>)
    requires
        event_namespace(event)@ != namespace || event is Registered || event is Rejected,
    ensures
        membership_after(namespace, event, pre) == pre,
{
}

/// Applies a registry event of the handler's namespace to the trusted peers.
pub fn handle_event(trusted: &mut TrustedPeerRegistry, namespace: &str, event: &PeerRegistryEvent)
    requires
        old(trusted).wf(),
        event_actionable(namespace@, *event),
    ensures
        final(trusted).wf(),
        final(trusted).peers() == membership_after(namespace@, *event, old(trusted).peers()),
{
    if !crate::json::str_eq(event.namespace(), namespace) {
        return;
    }
    match event {
        PeerRegistryEvent::Verified { record, .. } => {
            let ip = match record.ip_address {
                Some(ip) => ip,
                None => {
                    return;
                },
            };
            let api_port = match record.api_port {
                Some(p) => p,
                None => {
                    return;
                },
            };
            let node_id = ip_to_node_id(&ip);
            let raft_addr = SocketAddrV4 { ip, port: CONSENSUS_API_PORT };
            let api_addr = SocketAddrV4 { ip, port: api_port };
            trusted.mark_trusted(node_id, raft_addr, api_addr);
        },
        PeerRegistryEvent::Revoked { record, .. } => {
            let ip = match record.ip_address {
                Some(ip) => ip,
                None => {
                    return;
                },
            };
            let node_id = ip_to_node_id(&ip);
            trusted.revoke_trust(node_id);
        },
        _ => {},
    }
}

/// The 64 bytes of REPORTDATA for a quote request: the hex nonce, zero
/// padded; at most 64 bytes.
pub fn quote_report_data(nonce: &str) -> (r: Result<Vec<u8>, ApiError>)
    ensures
        match hex_decode_str(nonce@) {
            Err(e) => r matches Err(ApiError::BadRequest(m)) && m@ == "Invalid hex nonce: "@ + hex_error_text(e),
            Ok(b) => if b.len() > 64 {
                r matches Err(ApiError::BadRequest(m)) && m@ == "Nonce must be 64 bytes or less"@
            } else {
                r matches Ok(v) && v@ == b + Seq::new((64 - b.len()) as nat, |i: int| 0u8)
            },
        },
{
    let bytes = match hex::decode(nonce) {
        Ok(b) => b,
        Err(e) => {
            let t = e.to_string();
            return Err(ApiError::BadRequest(concat_str("Invalid hex nonce: ", t.as_str())));
        },
    };
    if bytes.len() > 64 {
        return Err(ApiError::BadRequest(String::from_str("Nonce must be 64 bytes or less")));
    }
    let mut data: Vec<u8> = Vec::new();
    crate::bytes::append_bytes(&mut data, bytes.as_slice());
    while data.len() < 64
        invariant
            bytes@.len() <= 64,
            bytes@.len() <= data@.len() <= 64,
            data@.subrange(0, bytes@.len() as int) == bytes@,
            forall|j: int| bytes@.len() <= j < data@.len() ==> data@[j] == 0,
        decreases 64 - data.len(),
    {
        data.push(0);
    }
    assert(data@ =~= bytes@ + Seq::new((64 - bytes@.len()) as nat, |i: int| 0u8));
    Ok(data)
}

/// The advertisements a node hands out: at most `max_peers` of them.
pub fn limit_peer_list(peers: Vec<PeerAdvertisement>, max_peers: usize) -> (r: Vec<PeerAdvertisement>)
    ensures
        r@ == if peers@.len() <= max_peers { peers@ } else { peers@.subrange(0, max_peers as int) },
{
    let mut peers = peers;
    if peers.len() > max_peers {
        peers.truncate(max_peers);
    }
    peers
}

/// The first check of a received advertisement at Unix time `now`: its
/// format, then its age; `Some` is the refusal.
pub fn advertisement_precheck(ad: &PeerAdvertisement, max_age_hours: u64, now: u64) -> (r: Option<AdvertiseResponse>)
    ensures
        match format_error(*ad, now) {
            Some(m) => r matches Some(resp) && !resp.accepted
                && (resp.reason matches Some(t) && t@ == "Invalid format: "@ + m),
            None => if age_hours(now, ad.timestamp) > max_age_hours {
                r matches Some(resp) && !resp.accepted && (resp.reason matches Some(t)
                    && t@ == "Advertisement too old: "@ + dec_spec(age_hours(now, ad.timestamp) as nat) + " hours"@)
            } else {
                r is None
            },
        },
{
    if let Err(e) = ad.validate_format_at(now) {
        return Some(AdvertiseResponse { accepted: false, reason: Some(concat_str("Invalid format: ", e.as_str())) });
    }
    let age = now.saturating_sub(ad.timestamp) / 3600;
    if age > max_age_hours {
        let mut m = String::from_str("Advertisement too old: ");
        push_decimal(&mut m, age);
        m.append(" hours");
        return Some(AdvertiseResponse { accepted: false, reason: Some(m) });
    }
    None
}

/// The last step of a received advertisement, after its evidence was
/// checked: failed evidence and this node's own identifier are refused;
/// otherwise the advertisement is cached (at time `now`) and accepted.
pub fn advertisement_finish(
    cache: &mut GossipedPeerCache,
    ad: PeerAdvertisement,
    self_node_id: NodeId,
    evidence_check: Result<(), String>,
    now: u64,
) -> (r: AdvertiseResponse)
    requires
        old(cache).wf(),
    ensures
        final(cache).wf(),
        evidence_check matches Err(e) ==> !r.accepted && (r.reason matches Some(t)
            && t@ == "Evidence verification failed: "@ + e@) && final(cache).entries() == old(cache).entries(),
        evidence_check is Ok && ad.node_id == self_node_id ==> !r.accepted && (r.reason matches Some(t)
            && t@ == "Cannot advertise as this node"@) && final(cache).entries() == old(cache).entries(),
        evidence_check is Ok && ad.node_id != self_node_id ==> r.accepted && r.reason is None
            && final(cache).entries() == add_step(old(cache).entries(), ad, now),
{
    if let Err(e) = evidence_check {
        return AdvertiseResponse { accepted: false, reason: Some(concat_str("Evidence verification failed: ", e.as_str())) };
    }
    if ad.node_id == self_node_id {
        return AdvertiseResponse { accepted: false, reason: Some(String::from_str("Cannot advertise as this node")) };
    }
    cache.add_verified_at(ad, now);
    AdvertiseResponse { accepted: true, reason: None }
}

} // verus!
