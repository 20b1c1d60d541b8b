//! Node identities, addresses and the peer lifecycle.

use vstd::prelude::*;
use crate::text::{push_char, push_decimal, dec_spec};

verus! {

/// Node identifier: the IPv4 address packed into an integer (big-endian).
pub type NodeId = u64;

/// An IPv4 address given by its four octets.
#[derive(Clone, Copy, Debug, PartialEq, Eq, Hash)]
pub struct Ipv4Addr {
    pub octets: [u8; 4],
}

/// Dotted-quad text of four octets.
pub open spec fn ipv4_text(o: Seq<u8>) -> Seq<char> {
    dec_spec(o[0] as nat) + seq!['.'] + dec_spec(o[1] as nat) + seq!['.'] + dec_spec(o[2] as nat)
        + seq!['.'] + dec_spec(o[3] as nat)
}

impl Ipv4Addr {
    /// The address `a.b.c.d`.
    pub fn new(a: u8, b: u8, c: u8, d: u8) -> (r: Self)
        ensures
            r.octets@ == seq![a, b, c, d],
    {
        let r = Ipv4Addr { octets: [a, b, c, d] };
        assert(r.octets@ =~= seq![a, b, c, d]);
        r
    }

    /// The four octets.
    pub fn octets(&self) -> (r: [u8; 4])
        ensures
            r@ == self.octets@,
    {
        self.octets
    }

    /// Dotted-quad text, such as `192.168.1.100`.
    pub fn to_string(&self) -> (s: String)
        ensures
            s@ == ipv4_text(self.octets@),
    {
        let mut s = String::new();
        push_decimal(&mut s, self.octets[0] as u64);
        push_char(&mut s, '.');
        push_decimal(&mut s, self.octets[1] as u64);
        push_char(&mut s, '.');
        push_decimal(&mut s, self.octets[2] as u64);
        push_char(&mut s, '.');
        push_decimal(&mut s, self.octets[3] as u64);
        assert(s@ =~= ipv4_text(self.octets@));
        s
    }
}

/// An IPv4 socket address: an address and a port.
#[derive(Clone, Copy, Debug, PartialEq, Eq, Hash)]
pub struct SocketAddrV4 {
    pub ip: Ipv4Addr,
    pub port: u16,
}

/// Text of a socket address, such as `192.168.1.20:8444`.
pub open spec fn socket_text(o: Seq<u8>, port: u16) -> Seq<char> {
    ipv4_text(o) + seq![':'] + dec_spec(port as nat)
}

impl SocketAddrV4 {
    /// The socket address `ip:port`.
    pub fn new(ip: Ipv4Addr, port: u16) -> (r: Self)
        ensures
            r.ip == ip,
            r.port == port,
    {
        SocketAddrV4 { ip, port }
    }

    /// The port.
    pub fn port(&self) -> (r: u16)
        ensures
            r == self.port,
    {
        self.port
    }

    /// The address.
    pub fn ip(&self) -> (r: Ipv4Addr)
        ensures
            r == self.ip,
    {
        self.ip
    }

    /// Text form, such as `192.168.1.20:8444`.
    pub fn to_string(&self) -> (s: String)
        ensures
            s@ == socket_text(self.ip.octets@, self.port),
    {
        let mut s = self.ip.to_string();
        push_char(&mut s, ':');
        push_decimal(&mut s, self.port as u64);
        assert(s@ =~= socket_text(self.ip.octets@, self.port));
        s
    }
}

/// The node identifier of four octets: `o0·2^24 + o1·2^16 + o2·2^8 + o3`.
pub open spec fn node_id_of(o: Seq<u8>) -> int {
    o[0] * 16777216 + o[1] * 65536 + o[2] * 256 + o[3]
}

/// The octets that the low 32 bits of a node identifier stand for.
pub open spec fn octets_of(id: u64) -> Seq<u8> {
    seq![
        ((id / 16777216) % 256) as u8,
        ((id / 65536) % 256) as u8,
        ((id / 256) % 256) as u8,
        (id % 256) as u8,
    ]
}

/// Converts an IPv4 address to a node identifier.
pub fn ip_to_node_id(ip: &Ipv4Addr) -> (r: NodeId)
    ensures
        r == node_id_of(ip.octets@),
{
    let o = ip.octets;
    (o[0] as u64) * 16777216 + (o[1] as u64) * 65536 + (o[2] as u64) * 256 + (o[3] as u64)
}

/// Converts a node identifier back to an IPv4 address (its low 32 bits).
pub fn node_id_to_ip(node_id: NodeId) -> (ip: Ipv4Addr)
    ensures
        ip.octets@ == octets_of(node_id),
{
    let r = Ipv4Addr {
        octets: [
            ((node_id / 16777216) % 256) as u8,
            ((node_id / 65536) % 256) as u8,
            ((node_id / 256) % 256) as u8,
            (node_id % 256) as u8,
        ],
    };
    assert(r.octets@ =~= octets_of(node_id));
    r
}

/// Reading an address back from its node identifier gives the address.
pub proof fn law_ip_node_id_roundtrip(o: Seq<u8>)
    requires
        o.len() == 4,
    ensures
        0 <= node_id_of(o) < 4294967296,
        octets_of(node_id_of(o) as u64) =~= o,
{
    let a = o[0] as int;
    let b = o[1] as int;
    let c = o[2] as int;
    let d = o[3] as int;
    let n = node_id_of(o);
    assert(n == a * 16777216 + b * 65536 + c * 256 + d);
    assert(0 <= n < 4294967296) by (nonlinear_arith)
        requires n == a * 16777216 + b * 65536 + c * 256 + d, 0 <= a < 256, 0 <= b < 256, 0 <= c < 256, 0 <= d < 256;
    assert((n / 16777216) % 256 == a) by (nonlinear_arith)
        requires n == a * 16777216 + b * 65536 + c * 256 + d, 0 <= a < 256, 0 <= b < 256, 0 <= c < 256, 0 <= d < 256;
    assert((n / 65536) % 256 == b) by (nonlinear_arith)
        requires n == a * 16777216 + b * 65536 + c * 256 + d, 0 <= a < 256, 0 <= b < 256, 0 <= c < 256, 0 <= d < 256;
    assert((n / 256) % 256 == c) by (nonlinear_arith)
        requires n == a * 16777216 + b * 65536 + c * 256 + d, 0 <= a < 256, 0 <= b < 256, 0 <= c < 256, 0 <= d < 256;
    assert(n % 256 == d) by (nonlinear_arith)
        requires n == a * 16777216 + b * 65536 + c * 256 + d, 0 <= a < 256, 0 <= b < 256, 0 <= c < 256, 0 <= d < 256;
}

/// A node identifier below 2^32 is the identifier of its own address.
pub proof fn law_node_id_ip_roundtrip(id: u64)
    requires
        id < 4294967296,
    ensures
        node_id_of(octets_of(id)) == id,
{
    let n = id as int;
    assert(((n / 16777216) % 256) * 16777216 + ((n / 65536) % 256) * 65536 + ((n / 256) % 256) * 256 + n % 256 == n)
        by (nonlinear_arith)
        requires 0 <= n < 4294967296;
}

/// Why a peer was blacklisted.
#[derive(Clone, Copy, Debug, PartialEq, Eq)]
pub enum BlacklistReason {
    /// The quote signature did not verify.
    AttestationFailed,
    /// The nonce in the report data did not match the challenge.
    NonceVerificationFailed,
    /// The quote was malformed.
    InvalidQuoteFormat,
}

impl BlacklistReason {
    /// Text form, such as `attestation_failed`.
    pub fn to_string(&self) -> (s: String)
        ensures
            s@ == match self {
                BlacklistReason::AttestationFailed => "attestation_failed"@,
                BlacklistReason::NonceVerificationFailed => "nonce_verification_failed"@,
                BlacklistReason::InvalidQuoteFormat => "invalid_quote_format"@,
            },
    {
        match self {
            BlacklistReason::AttestationFailed => String::from_str("attestation_failed"),
            BlacklistReason::NonceVerificationFailed => String::from_str("nonce_verification_failed"),
            BlacklistReason::InvalidQuoteFormat => String::from_str("invalid_quote_format"),
        }
    }
}

/// Why a previously trusted peer was revoked.
#[derive(Clone, Debug, PartialEq, Eq)]
pub enum RevokedReason {
    /// Its measurement left the registry whitelist.
    MeasurementRevoked,
    /// An administrator revoked it.
    ManualRevocation,
    /// A required re-attestation failed.
    ReattestationFailed,
    /// Any other reason.
    Other(String),
}

impl RevokedReason {
    /// Text form, such as `manual_revocation`; the text itself for `Other`.
    pub fn to_string(&self) -> (s: String)
        ensures
            s@ == match self {
                RevokedReason::MeasurementRevoked => "measurement_revoked"@,
                RevokedReason::ManualRevocation => "manual_revocation"@,
                RevokedReason::ReattestationFailed => "reattestation_failed"@,
                RevokedReason::Other(t) => t@,
            },
    {
        match self {
            RevokedReason::MeasurementRevoked => String::from_str("measurement_revoked"),
            RevokedReason::ManualRevocation => String::from_str("manual_revocation"),
            RevokedReason::ReattestationFailed => String::from_str("reattestation_failed"),
            RevokedReason::Other(t) => t.clone(),
        }
    }
}

/// Peer lifecycle. Times are milliseconds on the library's clock.
#[derive(Clone, Debug, PartialEq, Eq)]
pub enum PeerState {
    /// Found through the registry or gossip, not yet verified.
    Discovered,
    /// Attestation in progress.
    Verifying,
    /// Attested; may take part in consensus.
    Trusted,
    /// Attestation failed in a way that blacklists the peer until `until`.
    Blacklisted { until: u64, reason: BlacklistReason },
    /// Was trusted, then revoked.
    Revoked { reason: RevokedReason },
}

impl PeerState {
    /// Whether the peer is trusted.
    pub fn is_trusted(&self) -> (r: bool)
        ensures
            r == (self is Trusted),
    {
        matches!(self, PeerState::Trusted)
    }

    /// Whether the peer is blacklisted.
    pub fn is_blacklisted(&self) -> (r: bool)
        ensures
            r == (self is Blacklisted),
    {
        matches!(self, PeerState::Blacklisted { .. })
    }

    /// Whether a blacklisting has run out at time `now`.
    pub fn is_blacklist_expired_at(&self, now: u64) -> (r: bool)
        ensures
            r == blacklist_expired_at(*self, now),
    {
        match self {
            PeerState::Blacklisted { until, .. } => now >= *until,
            _ => false,
        }
    }

    /// Whether a blacklisting has run out now.
    pub fn is_blacklist_expired(&self) -> (r: bool)
        ensures
            exists|now: u64| r == #[trigger] blacklist_expired_at(*self, now),
    {
        let now = crate::clock::now_millis();
        self.is_blacklist_expired_at(now)
    }
}

/// Whether a blacklisting has run out at time `now` (never for a state
/// that is not a blacklisting).
pub open spec fn blacklist_expired_at(state: PeerState, now: u64) -> bool {
    match state {
        PeerState::Blacklisted { until, .. } => now >= until,
        _ => false,
    }
}

/// A bootstrap node listed in the measurement registry.
#[derive(Clone, Copy, Debug, PartialEq, Eq)]
pub struct BootstrapNode {
    pub ip_address: Ipv4Addr,
    pub raft_port: u16,
    pub api_port: u16,
}

impl BootstrapNode {
    /// The node identifier of the node's address.
    pub fn node_id(&self) -> (r: NodeId)
        ensures
            r == node_id_of(self.ip_address.octets@),
    {
        ip_to_node_id(&self.ip_address)
    }
}

/// The registry's answer to a node discovery query.
#[derive(Clone, Debug)]
pub struct NodeDiscoveryResponse {
    pub nodes: Vec<BootstrapNode>,
}

} // verus!
