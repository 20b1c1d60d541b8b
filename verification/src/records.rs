//! Records that the services exchange: certificate namespaces, requests and
//! issued certificates, attestation and quote messages, cluster requests,
//! and log context messages.

use vstd::prelude::*;
use vstd::string::*;
use crate::hex::{self, hex_encode_spec};

verus! {

/// Configuration of a certificate namespace.
#[derive(Clone, Debug)]
pub struct NamespaceConfig {
    /// Measurement registry of the namespace; the guardians' own when unset.
    pub measurement_registry_url: Option<String>,
    /// Certificate validity period in days.
    pub cert_validity_days: u32,
    /// Most active certificates at a time.
    pub max_active_certs: u32,
    pub description: Option<String>,
}

impl Default for NamespaceConfig {
    /// No registry or description, a year of validity, a hundred certificates.
    fn default() -> (r: Self)
        ensures
            r.measurement_registry_url is None,
            r.cert_validity_days == 365,
            r.max_active_certs == 100,
            r.description is None,
    {
        NamespaceConfig { measurement_registry_url: None, cert_validity_days: 365, max_active_certs: 100, description: None }
    }
}

/// A certificate namespace.
#[derive(Clone, Debug)]
pub struct Namespace {
    pub name: String,
    pub config: NamespaceConfig,
    /// Unix seconds.
    pub created_at: u64,
    /// Unix seconds.
    pub updated_at: u64,
}

/// A TEE node's request for a certificate.
#[derive(Clone, Debug)]
pub struct CertificateRequest {
    pub namespace: String,
    /// Hash of the node's measurements.
    pub measurement_id: [u8; 32],
    /// Base64 attestation quote.
    pub attestation_quote: String,
    /// Nonce of the attestation.
    pub nonce: Vec<u8>,
    pub common_name: Option<String>,
}

/// Why a certificate was revoked.
#[derive(Clone, Copy, Debug, PartialEq, Eq, Structural)]
pub enum RevocationReason {
    Unspecified,
    KeyCompromise,
    CaCompromise,
    AffiliationChanged,
    Superseded,
    CessationOfOperation,
    CertificateHold,
    MeasurementRevoked,
    PrivilegeWithdrawn,
}

/// The name of a revocation reason, as its `Debug` form writes it.
pub open spec fn reason_name(r: RevocationReason) -> Seq<char> {
    match r {
        RevocationReason::Unspecified => "Unspecified"@,
        RevocationReason::KeyCompromise => "KeyCompromise"@,
        RevocationReason::CaCompromise => "CaCompromise"@,
        RevocationReason::AffiliationChanged => "AffiliationChanged"@,
        RevocationReason::Superseded => "Superseded"@,
        RevocationReason::CessationOfOperation => "CessationOfOperation"@,
        RevocationReason::CertificateHold => "CertificateHold"@,
        RevocationReason::MeasurementRevoked => "MeasurementRevoked"@,
        RevocationReason::PrivilegeWithdrawn => "PrivilegeWithdrawn"@,
    }
}

impl RevocationReason {
    /// The name of the reason (see `reason_name`).
    pub fn name(&self) -> (s: String)
        ensures
            s@ == reason_name(*self),
    {
        match self {
            RevocationReason::Unspecified => String::from_str("Unspecified"),
            RevocationReason::KeyCompromise => String::from_str("KeyCompromise"),
            RevocationReason::CaCompromise => String::from_str("CaCompromise"),
            RevocationReason::AffiliationChanged => String::from_str("AffiliationChanged"),
            RevocationReason::Superseded => String::from_str("Superseded"),
            RevocationReason::CessationOfOperation => String::from_str("CessationOfOperation"),
            RevocationReason::CertificateHold => String::from_str("CertificateHold"),
            RevocationReason::MeasurementRevoked => String::from_str("MeasurementRevoked"),
            RevocationReason::PrivilegeWithdrawn => String::from_str("PrivilegeWithdrawn"),
        }
    }
}

/// The state of an issued certificate.
#[derive(Clone, Copy, Debug, PartialEq, Eq, Structural)]
pub enum CertificateStatus {
    Active,
    /// Revoked at a Unix time, for a reason.
    Revoked { revoked_at: u64, reason: RevocationReason },
    Expired,
}

/// A certificate as the service keeps it.
#[derive(Clone, Debug)]
pub struct IssuedCertificate {
    pub serial: u64,
    pub namespace: String,
    pub measurement_id: [u8; 32],
    pub common_name: String,
    /// Unix seconds.
    pub not_before: u64,
    /// Unix seconds.
    pub not_after: u64,
    /// Unix seconds.
    pub issued_at: u64,
    pub status: CertificateStatus,
    pub certificate_der: Vec<u8>,
}

/// A certificate as the API shows it.
#[derive(Clone, Debug)]
pub struct Certificate {
    pub serial: u64,
    pub namespace: String,
    /// The measurement id in hex.
    pub measurement_id: String,
    pub common_name: String,
    pub not_before: u64,
    pub not_after: u64,
    /// `active`, `revoked` or `expired`.
    pub status: String,
    pub revoked_at: Option<u64>,
    pub revocation_reason: Option<String>,
}

/// The status text of a certificate status.
pub open spec fn status_text(s: CertificateStatus) -> Seq<char> {
    match s {
        CertificateStatus::Active => "active"@,
        CertificateStatus::Revoked { .. } => "revoked"@,
        CertificateStatus::Expired => "expired"@,
    }
}

impl Certificate {
    /// The API view of an issued certificate: its fields, the measurement id
    /// in hex, the status as text and, for a revoked one, when and why.
    pub fn from_issued(cert: &IssuedCertificate) -> (r: Self)
        ensures
            r.serial == cert.serial,
            r.namespace@ == cert.namespace@,
            r.measurement_id@ == hex_encode_spec(cert.measurement_id@),
            r.common_name@ == cert.common_name@,
            r.not_before == cert.not_before,
            r.not_after == cert.not_after,
            r.status@ == status_text(cert.status),
            r.revoked_at == match cert.status {
                CertificateStatus::Revoked { revoked_at, .. } => Some(revoked_at),
                _ => None,
            },
            match cert.status {
                CertificateStatus::Revoked { reason, .. } => r.revocation_reason matches Some(t) && t@ == reason_name(reason),
                _ => r.revocation_reason is None,
            },
    {
        let (status, revoked_at, revocation_reason) = match cert.status {
            CertificateStatus::Active => (String::from_str("active"), None, None),
            CertificateStatus::Expired => (String::from_str("expired"), None, None),
            CertificateStatus::Revoked { revoked_at, reason } => (
                String::from_str("revoked"),
                Some(revoked_at),
                Some(reason.name()),
            ),
        };
        Certificate {
            serial: cert.serial,
            namespace: cert.namespace.clone(),
            measurement_id: hex::encode(&cert.measurement_id),
            common_name: cert.common_name.clone(),
            not_before: cert.not_before,
            not_after: cert.not_after,
            status,
            revoked_at,
            revocation_reason,
        }
    }
}

/// First step of attestation: a candidate's evidence.
#[derive(Clone, Debug)]
pub struct RegisterRequest {
    /// Base64 evidence (the first quote).
    pub evidence: String,
}

/// Second step of attestation: evidence bound to the challenge.
#[derive(Clone, Debug)]
pub struct VerifyRequest {
    /// Base64 evidence; the instance id is in report data bytes 32 to 64.
    pub evidence: String,
}

/// A freshly generated quote.
#[derive(Clone, Debug)]
pub struct QuoteResponse {
    /// Base64 evidence.
    pub evidence: String,
    /// Unix seconds when it was made.
    pub timestamp: u64,
}

/// A change of cluster state, replicated through the log.
#[derive(Clone, Debug)]
pub struct ClusterRequest {
    pub client: String,
    pub serial: u64,
    pub status: String,
}

/// The answer to a cluster request.
#[derive(Clone, Debug)]
pub struct ClusterResponse(pub Option<String>);

/// A request to set or remove a log context key (no value or an empty one
/// removes it).
#[derive(Clone, Debug)]
pub struct SetLogContextRequest {
    pub key: String,
    pub value: Option<String>,
}

/// The answer to a log context change: `ok` and the context after it.
#[derive(Clone, Debug)]
pub struct SetLogContextResponse {
    pub status: String,
    pub context: Vec<(String, String)>,
}

} // verus!
