//! TEE platforms, attestation state of one instance, and the events of the
//! peer registry.
//!
//! Times are milliseconds on the library's clock (`clock::now_millis`).

use vstd::prelude::*;
use vstd::string::*;
use crate::clock::now_millis;
use crate::identity::InstanceId;
use crate::json::JsonValue;
use crate::node::Ipv4Addr;

verus! {

/// A TEE platform (the platforms of the KBS protocol).
#[derive(Clone, Copy, Debug, PartialEq, Eq, Hash, Structural)]
pub enum Tee {
    AzSnpVtpm,
    AzTdxVtpm,
    Nvidia,
    Sgx,
    Snp,
    Tdx,
    Cca,
    Csv,
    Se,
    HygonDcu,
    NvidiaDpu,
    Tpm,
    Sample,
    SampleDevice,
}

/// A verified attestation, whatever the platform.
#[derive(Debug)]
pub struct ParsedAttestation {
    pub tee: Tee,
    pub instance_id: InstanceId,
    /// Hex SHA-256 of the platform's measurement registers.
    pub measurement_hash: String,
    /// The claims of the platform verifier.
    pub claims: JsonValue,
    pub tcb_status: Option<String>,
}

/// Answer to a registration: the challenge (hex) and when it expires.
#[derive(Clone, Debug)]
pub struct RegistrationResponse {
    pub challenge: String,
    pub expires_at: u64,
}

/// Answer to a verification.
#[derive(Clone, Debug)]
pub struct VerificationResponse {
    pub verified: bool,
    pub measurement_hash: Option<String>,
    pub tcb_status: Option<String>,
}

/// Attestation state of one TEE instance.
#[derive(Clone, Debug)]
pub enum TeeState {
    /// A challenge was issued and awaits an answer until `expires_at`.
    PendingChallenge {
        challenge: [u8; 32],
        issued_at: u64,
        expires_at: u64,
        measurement_hash: String,
        tee: Tee,
    },
    /// Attestation succeeded.
    Verified { measurement_hash: String, tcb_status: String, tee: Tee, verified_at: u64 },
    /// Attestation failed.
    Rejected { reason: String, rejected_at: u64 },
}

impl TeeState {
    /// Whether the instance is verified.
    pub fn is_verified(&self) -> (r: bool)
        ensures
            r == (self is Verified),
    {
        matches!(self, TeeState::Verified { .. })
    }

    /// Whether a challenge is pending.
    pub fn is_pending(&self) -> (r: bool)
        ensures
            r == (self is PendingChallenge),
    {
        matches!(self, TeeState::PendingChallenge { .. })
    }

    /// Whether the instance was rejected.
    pub fn is_rejected(&self) -> (r: bool)
        ensures
            r == (self is Rejected),
    {
        matches!(self, TeeState::Rejected { .. })
    }

    /// The measurement hash, for a pending or verified instance.
    pub fn measurement_hash(&self) -> (r: Option<&str>)
        ensures
            match self {
                TeeState::PendingChallenge { measurement_hash, .. } => r matches Some(s) && s@ == measurement_hash@,
                TeeState::Verified { measurement_hash, .. } => r matches Some(s) && s@ == measurement_hash@,
                TeeState::Rejected { .. } => r is None,
            },
    {
        match self {
            TeeState::PendingChallenge { measurement_hash, .. } => Some(measurement_hash.as_str()),
            TeeState::Verified { measurement_hash, .. } => Some(measurement_hash.as_str()),
            TeeState::Rejected { .. } => None,
        }
    }

    /// The platform, for a pending or verified instance.
    pub fn tee(&self) -> (r: Option<Tee>)
        ensures
            match self {
                TeeState::PendingChallenge { tee, .. } => r == Some(*tee),
                TeeState::Verified { tee, .. } => r == Some(*tee),
                TeeState::Rejected { .. } => r is None,
            },
    {
        match self {
            TeeState::PendingChallenge { tee, .. } => Some(*tee),
            TeeState::Verified { tee, .. } => Some(*tee),
            TeeState::Rejected { .. } => None,
        }
    }

    /// A copy of the state.
    pub fn duplicate(&self) -> (r: Self)
        ensures
            r == *self,
    {
        match self {
            TeeState::PendingChallenge { challenge, issued_at, expires_at, measurement_hash, tee } => {
                TeeState::PendingChallenge {
                    challenge: *challenge,
                    issued_at: *issued_at,
                    expires_at: *expires_at,
                    measurement_hash: measurement_hash.clone(),
                    tee: *tee,
                }
            },
            TeeState::Verified { measurement_hash, tcb_status, tee, verified_at } => TeeState::Verified {
                measurement_hash: measurement_hash.clone(),
                tcb_status: tcb_status.clone(),
                tee: *tee,
                verified_at: *verified_at,
            },
            TeeState::Rejected { reason, rejected_at } => TeeState::Rejected {
                reason: reason.clone(),
                rejected_at: *rejected_at,
            },
        }
    }
}

/// What the registry keeps of one TEE instance.
#[derive(Clone, Debug)]
pub struct TeeRecord {
    pub instance_id: InstanceId,
    pub namespace: String,
    pub state: TeeState,
    /// Address, once known.
    pub ip_address: Option<Ipv4Addr>,
    /// API port, once known.
    pub api_port: Option<u16>,
}

/// The deadline of a challenge issued at `now` for `expires_in` milliseconds
/// (saturating at the end of the clock's range).
pub open spec fn deadline(now: u64, expires_in: u64) -> u64 {
    if now + expires_in <= u64::MAX {
        (now + expires_in) as u64
    } else {
        u64::MAX
    }
}

/// The record of a fresh challenge, issued at `now`.
pub open spec fn pending_record(
    instance_id: InstanceId,
    namespace: String,
    challenge: [u8; 32],
    measurement_hash: String,
    tee: Tee,
    expires_in: u64,
    now: u64,
) -> TeeRecord {
    TeeRecord {
        instance_id,
        namespace,
        state: TeeState::PendingChallenge {
            challenge,
            issued_at: now,
            expires_at: deadline(now, expires_in),
            measurement_hash,
            tee,
        },
        ip_address: None,
        api_port: None,
    }
}

/// The challenge of a record that is still valid at `now`.
pub open spec fn valid_challenge_at(rec: TeeRecord, now: u64) -> Option<[u8; 32]> {
    match rec.state {
        TeeState::PendingChallenge { challenge, expires_at, .. } => if now <= expires_at {
            Some(challenge)
        } else {
            None
        },
        _ => None,
    }
}

/// Whether a record holds a challenge that has run out at `now`.
pub open spec fn challenge_expired_at(rec: TeeRecord, now: u64) -> bool {
    match rec.state {
        TeeState::PendingChallenge { expires_at, .. } => now > expires_at,
        _ => false,
    }
}

impl TeeRecord {
    /// A record with a fresh challenge issued at `now`, valid for
    /// `expires_in` milliseconds.
    pub fn new_pending_at(
        instance_id: InstanceId,
        namespace: String,
        challenge: [u8; 32],
        measurement_hash: String,
        tee: Tee,
        expires_in: u64,
        now: u64,
    ) -> (r: Self)
        ensures
            r == pending_record(instance_id, namespace, challenge, measurement_hash, tee, expires_in, now),
    {
        TeeRecord {
            instance_id,
            namespace,
            state: TeeState::PendingChallenge {
                challenge,
                issued_at: now,
                expires_at: now.saturating_add(expires_in),
                measurement_hash,
                tee,
            },
            ip_address: None,
            api_port: None,
        }
    }

    /// A record with a fresh challenge issued now.
    pub fn new_pending(
        instance_id: InstanceId,
        namespace: String,
        challenge: [u8; 32],
        measurement_hash: String,
        tee: Tee,
        expires_in: u64,
    ) -> (r: Self)
        ensures
            exists|now: u64| r == pending_record(instance_id, namespace, challenge, measurement_hash, tee, expires_in, now),
    {
        let now = now_millis();
        Self::new_pending_at(instance_id, namespace, challenge, measurement_hash, tee, expires_in, now)
    }

    /// Whether the pending challenge has run out at `now`.
    pub fn is_challenge_expired_at(&self, now: u64) -> (r: bool)
        ensures
            r == challenge_expired_at(*self, now),
    {
        match &self.state {
            TeeState::PendingChallenge { expires_at, .. } => now > *expires_at,
            _ => false,
        }
    }

    /// Whether the pending challenge has run out now.
    pub fn is_challenge_expired(&self) -> (r: bool)
        ensures
            exists|now: u64| r == #[trigger] challenge_expired_at(*self, now),
    {
        self.is_challenge_expired_at(now_millis())
    }

    /// The pending challenge, if it is still valid at `now`.
    pub fn get_valid_challenge_at(&self, now: u64) -> (r: Option<&[u8; 32]>)
        ensures
            match valid_challenge_at(*self, now) {
                Some(c) => r matches Some(x) && *x == c,
                None => r is None,
            },
    {
        match &self.state {
            TeeState::PendingChallenge { challenge, expires_at, .. } => {
                if now <= *expires_at {
                    Some(challenge)
                } else {
                    None
                }
            },
            _ => None,
        }
    }

    /// The pending challenge, if it is still valid now.
    pub fn get_valid_challenge(&self) -> (r: Option<&[u8; 32]>)
        ensures
            exists|now: u64|
                match #[trigger] valid_challenge_at(*self, now) {
                    Some(c) => r matches Some(x) && *x == c,
                    None => r is None,
                },
    {
        self.get_valid_challenge_at(now_millis())
    }

    /// A copy of the record.
    pub fn duplicate(&self) -> (r: Self)
        ensures
            r == *self,
    {
        TeeRecord {
            instance_id: self.instance_id,
            namespace: self.namespace.clone(),
            state: self.state.duplicate(),
            ip_address: self.ip_address,
            api_port: self.api_port,
        }
    }
}

/// A change in the peer registry.
#[derive(Clone, Debug)]
pub enum PeerRegistryEvent {
    /// A challenge was issued.
    Registered { namespace: String, instance_id: InstanceId, challenge: [u8; 32], measurement_hash: String },
    /// Verification completed.
    Verified { namespace: String, instance_id: InstanceId, record: TeeRecord },
    /// Verification failed.
    Rejected { namespace: String, instance_id: InstanceId, reason: String },
    /// A verified instance lost its trust.
    Revoked { namespace: String, instance_id: InstanceId, reason: String, record: TeeRecord },
}

/// The namespace an event concerns.
pub open spec fn event_namespace(e: PeerRegistryEvent) -> String {
    match e {
        PeerRegistryEvent::Registered { namespace, .. } => namespace,
        PeerRegistryEvent::Verified { namespace, .. } => namespace,
        PeerRegistryEvent::Rejected { namespace, .. } => namespace,
        PeerRegistryEvent::Revoked { namespace, .. } => namespace,
    }
}

/// The instance an event concerns.
pub open spec fn event_instance(e: PeerRegistryEvent) -> InstanceId {
    match e {
        PeerRegistryEvent::Registered { instance_id, .. } => instance_id,
        PeerRegistryEvent::Verified { instance_id, .. } => instance_id,
        PeerRegistryEvent::Rejected { instance_id, .. } => instance_id,
        PeerRegistryEvent::Revoked { instance_id, .. } => instance_id,
    }
}

impl PeerRegistryEvent {
    /// The namespace the event concerns.
    pub fn namespace(&self) -> (r: &str)
        ensures
            r@ == event_namespace(*self)@,
    {
        match self {
            PeerRegistryEvent::Registered { namespace, .. } => namespace.as_str(),
            PeerRegistryEvent::Verified { namespace, .. } => namespace.as_str(),
            PeerRegistryEvent::Rejected { namespace, .. } => namespace.as_str(),
            PeerRegistryEvent::Revoked { namespace, .. } => namespace.as_str(),
        }
    }

    /// The instance the event concerns.
    pub fn instance_id(&self) -> (r: &InstanceId)
        ensures
            *r == event_instance(*self),
    {
        match self {
            PeerRegistryEvent::Registered { instance_id, .. } => instance_id,
            PeerRegistryEvent::Verified { instance_id, .. } => instance_id,
            PeerRegistryEvent::Rejected { instance_id, .. } => instance_id,
            PeerRegistryEvent::Revoked { instance_id, .. } => instance_id,
        }
    }
}

} // verus!
