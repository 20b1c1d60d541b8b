//! Error types of attestation, the measurement registry and the HTTP API.

use vstd::prelude::*;
use vstd::string::*;
use crate::text::{contains_seq, str_contains, dec_spec, push_decimal};
use crate::hex::{lower_hex_spec, zero_pad, is_lower_hex_digit, lemma_padded_hex8};

verus! {

/// `a` followed by `b`.
pub fn concat_str(a: &str, b: &str) -> (s: String)
    ensures
        s@ == a@ + b@,
{
    let mut s = String::from_str(a);
    s.append(b);
    s
}

/// Errors of peer verification.
#[derive(Debug, Clone, PartialEq, Eq)]
pub enum VerificationError {
    /// Connection failed (transient).
    ConnectionFailed(String),
    /// Request timed out (transient).
    Timeout(String),
    /// HTTP error from the peer (transient).
    HttpError { status: u16, message: String },
    /// A response could not be parsed.
    ParseError(String),
    /// A quote could not be parsed.
    InvalidQuoteFormat(String),
    /// Cryptographic verification failed.
    AttestationFailed(String),
    /// The measurement is not in the registry whitelist.
    MeasurementNotTrusted(String),
    /// Debug mode is on but the policy forbids it.
    DebugNotAllowed,
    /// The TCB version is below the minimum.
    TcbOutdated(String),
    /// A platform constraint is violated.
    PlatformConstraint(String),
    /// The measurement hash differs from the trusted one.
    MeasurementMismatch { expected: String, actual: String },
    /// The challenge nonce did not match.
    NonceVerificationFailed(String),
    /// No pending challenge for the instance.
    NoPendingChallenge,
    /// A TDX instance gave no identity.
    IdentityRequired,
    /// The instance identity is already registered.
    IdentityConflict(String),
}

/// The display text of a verification error.
pub open spec fn verification_error_text(e: VerificationError) -> Seq<char> {
    match e {
        VerificationError::ConnectionFailed(s) => "Connection failed: "@ + s@,
        VerificationError::Timeout(s) => "Request timeout: "@ + s@,
        VerificationError::HttpError { status, message } => "HTTP error "@ + dec_spec(status as nat)
            + ": "@ + message@,
        VerificationError::ParseError(s) => "Parse error: "@ + s@,
        VerificationError::InvalidQuoteFormat(s) => "Invalid quote format: "@ + s@,
        VerificationError::AttestationFailed(s) => "Attestation failed: "@ + s@,
        VerificationError::MeasurementNotTrusted(s) => "Measurement not trusted: "@ + s@,
        VerificationError::DebugNotAllowed => "Debug mode enabled but not allowed by policy"@,
        VerificationError::TcbOutdated(s) => "TCB version outdated: "@ + s@,
        VerificationError::PlatformConstraint(s) => "Platform constraint violation: "@ + s@,
        VerificationError::MeasurementMismatch { expected, actual } => "Measurement mismatch: expected '"@
            + expected@ + "', got '"@ + actual@ + "'"@,
        VerificationError::NonceVerificationFailed(s) => "Nonce verification failed: "@ + s@,
        VerificationError::NoPendingChallenge => "No pending challenge for instance"@,
        VerificationError::IdentityRequired => "Identity required: TDX instances must provide non-zero REPORTDATA[32:64]"@,
        VerificationError::IdentityConflict(s) => "Identity conflict: instance "@ + s@
            + " is already registered"@,
    }
}

/// HTTP status of a verification error.
pub open spec fn verification_status(e: VerificationError) -> u16 {
    match e {
        VerificationError::ConnectionFailed(_) | VerificationError::Timeout(_) => 503,
        VerificationError::HttpError { status, .. } => status,
        VerificationError::ParseError(_) | VerificationError::AttestationFailed(_)
        | VerificationError::InvalidQuoteFormat(_) => 400,
        VerificationError::NonceVerificationFailed(_) => 401,
        VerificationError::MeasurementNotTrusted(_) | VerificationError::DebugNotAllowed
        | VerificationError::TcbOutdated(_) | VerificationError::PlatformConstraint(_)
        | VerificationError::MeasurementMismatch { .. } => 403,
        VerificationError::NoPendingChallenge => 404,
        VerificationError::IdentityRequired | VerificationError::IdentityConflict(_) => 409,
    }
}

impl VerificationError {
    /// Whether the error is transient and worth retrying.
    pub fn is_transient(&self) -> (r: bool)
        ensures
            r == (self is ConnectionFailed || self is Timeout || self is HttpError),
    {
        matches!(
            self,
            VerificationError::ConnectionFailed(_) | VerificationError::Timeout(_)
                | VerificationError::HttpError { .. }
        )
    }

    /// The HTTP status code for this error.
    pub fn status_code(&self) -> (r: u16)
        ensures
            r == verification_status(*self),
    {
        match self {
            VerificationError::ConnectionFailed(_) | VerificationError::Timeout(_) => 503,
            VerificationError::HttpError { status, .. } => *status,
            VerificationError::ParseError(_) | VerificationError::AttestationFailed(_)
            | VerificationError::InvalidQuoteFormat(_) => 400,
            VerificationError::NonceVerificationFailed(_) => 401,
            VerificationError::MeasurementNotTrusted(_) | VerificationError::DebugNotAllowed
            | VerificationError::TcbOutdated(_) | VerificationError::PlatformConstraint(_)
            | VerificationError::MeasurementMismatch { .. } => 403,
            VerificationError::NoPendingChallenge => 404,
            VerificationError::IdentityRequired | VerificationError::IdentityConflict(_) => 409,
        }
    }

    /// The display text.
    pub fn to_string(&self) -> (s: String)
        ensures
            s@ == verification_error_text(*self),
    {
        match self {
            VerificationError::ConnectionFailed(s) => concat_str("Connection failed: ", s.as_str()),
            VerificationError::Timeout(s) => concat_str("Request timeout: ", s.as_str()),
            VerificationError::HttpError { status, message } => {
                let mut t = String::from_str("HTTP error ");
                push_decimal(&mut t, *status as u64);
                t.append(": ");
                t.append(message.as_str());
                t
            },
            VerificationError::ParseError(s) => concat_str("Parse error: ", s.as_str()),
            VerificationError::InvalidQuoteFormat(s) => concat_str("Invalid quote format: ", s.as_str()),
            VerificationError::AttestationFailed(s) => concat_str("Attestation failed: ", s.as_str()),
            VerificationError::MeasurementNotTrusted(s) => concat_str("Measurement not trusted: ", s.as_str()),
            VerificationError::DebugNotAllowed => String::from_str("Debug mode enabled but not allowed by policy"),
            VerificationError::TcbOutdated(s) => concat_str("TCB version outdated: ", s.as_str()),
            VerificationError::PlatformConstraint(s) => concat_str("Platform constraint violation: ", s.as_str()),
            VerificationError::MeasurementMismatch { expected, actual } => {
                let mut t = String::from_str("Measurement mismatch: expected '");
                t.append(expected.as_str());
                t.append("', got '");
                t.append(actual.as_str());
                t.append("'");
                t
            },
            VerificationError::NonceVerificationFailed(s) => concat_str("Nonce verification failed: ", s.as_str()),
            VerificationError::NoPendingChallenge => String::from_str("No pending challenge for instance"),
            VerificationError::IdentityRequired => String::from_str(
                "Identity required: TDX instances must provide non-zero REPORTDATA[32:64]",
            ),
            VerificationError::IdentityConflict(s) => {
                let mut t = String::from_str("Identity conflict: instance ");
                t.append(s.as_str());
                t.append(" is already registered");
                t
            },
        }
    }
}

/// Errors of the measurement registry client.
#[derive(Debug, Clone, PartialEq, Eq)]
pub enum MeasurementRegistryError {
    /// Could not connect to the registry.
    ConnectionFailed(String),
    /// The request timed out.
    Timeout(String),
    /// The registry answered with an error status.
    RegistryError { status: u16, message: String },
    /// The answer could not be parsed.
    ParseError(String),
    /// The configured URL is invalid.
    InvalidUrl(String),
}

/// The display text of a measurement registry error.
pub open spec fn registry_error_text(e: MeasurementRegistryError) -> Seq<char> {
    match e {
        MeasurementRegistryError::ConnectionFailed(s) => "Connection failed: "@ + s@,
        MeasurementRegistryError::Timeout(s) => "Request timeout: "@ + s@,
        MeasurementRegistryError::RegistryError { status, message } => "Registry error (status "@
            + dec_spec(status as nat) + "): "@ + message@,
        MeasurementRegistryError::ParseError(s) => "Parse error: "@ + s@,
        MeasurementRegistryError::InvalidUrl(s) => "Invalid URL: "@ + s@,
    }
}

impl MeasurementRegistryError {
    /// The display text.
    pub fn to_string(&self) -> (s: String)
        ensures
            s@ == registry_error_text(*self),
    {
        match self {
            MeasurementRegistryError::ConnectionFailed(s) => concat_str("Connection failed: ", s.as_str()),
            MeasurementRegistryError::Timeout(s) => concat_str("Request timeout: ", s.as_str()),
            MeasurementRegistryError::RegistryError { status, message } => {
                let mut t = String::from_str("Registry error (status ");
                push_decimal(&mut t, *status as u64);
                t.append("): ");
                t.append(message.as_str());
                t
            },
            MeasurementRegistryError::ParseError(s) => concat_str("Parse error: ", s.as_str()),
            MeasurementRegistryError::InvalidUrl(s) => concat_str("Invalid URL: ", s.as_str()),
        }
    }
}

/// Top-level error of peer registry operations.
#[derive(Debug, Clone, PartialEq, Eq)]
pub enum PeerRegistryError {
    /// Verification failed.
    Verification(VerificationError),
    /// The measurement registry failed.
    MeasurementRegistry(MeasurementRegistryError),
    /// Configuration is wrong.
    Config(String),
    /// Anything else.
    Other(String),
}

/// Error of the HTTP API, with what a client may see of it.
#[derive(Debug, Clone, PartialEq, Eq)]
pub enum ApiError {
    /// Invalid request; the message is safe to show.
    BadRequest(String),
    /// Internal error; the message is logged, not shown.
    Internal(String),
    /// Service unavailable; the message is safe to show.
    ServiceUnavailable(String),
    /// The node is still bootstrapping.
    Bootstrapping,
    /// Resource not found.
    NotFound(String),
    /// Access forbidden.
    Forbidden(String),
}

/// HTTP status of an API error.
pub open spec fn api_status(e: ApiError) -> u16 {
    match e {
        ApiError::BadRequest(_) => 400,
        ApiError::Forbidden(_) => 403,
        ApiError::NotFound(_) => 404,
        ApiError::Internal(_) => 500,
        ApiError::ServiceUnavailable(_) | ApiError::Bootstrapping => 503,
    }
}

/// Whether text is an 8-digit lowercase hex identifier.
pub open spec fn is_error_id(id: Seq<char>) -> bool {
    id.len() == 8 && forall|i: int| 0 <= i < 8 ==> is_lower_hex_digit(#[trigger] id[i])
}

/// Every error identifier is eight lowercase hex digits, whatever the clock
/// reading it came from.
pub proof fn law_error_id_shape(nanos: u128)
    ensures
        is_error_id(error_id_of(nanos)),
{
    lemma_padded_hex8((nanos % 4294967296) as nat);
}

/// The error identifier of a nanosecond clock reading: its low 32 bits as 8 hex digits.
pub open spec fn error_id_of(nanos: u128) -> Seq<char> {
    zero_pad(lower_hex_spec((nanos % 4294967296) as nat), 8)
}

/// The error identifier of a clock reading (`{:08x}` of the low 32 bits of its nanoseconds).
pub fn error_id_from_nanos(nanos: u128) -> (s: String)
    ensures
        s@ == error_id_of(nanos),
{
    let low: u64 = (nanos % 4294967296) as u64;
    crate::hex::lower_hex_padded(low, 8)
}

/// Nanoseconds since the epoch of a clock reading (0 when there is none).
pub open spec fn nanos_of_reading(r: Option<(u64, u32)>) -> u128 {
    match r {
        Some((s, n)) => (s as int * 1_000_000_000 + n as int) as u128,
        None => 0,
    }
}

impl ApiError {
    /// A short identifier for log correlation, from the clock.
    pub fn generate_error_id() -> (s: String)
        ensures
            exists|r: Option<(u64, u32)>| s@ == error_id_of(nanos_of_reading(r)),
            is_error_id(s@),
    {
        let reading = crate::clock::time_since_epoch();
        let nanos: u128 = match reading {
            Some((secs, n)) => (secs as u128) * 1_000_000_000 + (n as u128),
            None => 0,
        };
        assert(nanos == nanos_of_reading(reading));
        let s = error_id_from_nanos(nanos);
        assert(s@ == error_id_of(nanos_of_reading(reading)));
        proof {
            law_error_id_shape(nanos);
        }
        s
    }

    /// The HTTP status code of this error.
    pub fn status_code(&self) -> (r: u16)
        ensures
            r == api_status(*self),
    {
        match self {
            ApiError::BadRequest(_) => 400,
            ApiError::Forbidden(_) => 403,
            ApiError::NotFound(_) => 404,
            ApiError::Internal(_) => 500,
            ApiError::ServiceUnavailable(_) | ApiError::Bootstrapping => 503,
        }
    }

    /// The message a client may see: the message itself where it is safe, a
    /// fixed text for bootstrapping, and a generic text with an error
    /// identifier for internal errors.
    pub fn client_message(&self) -> (s: String)
        ensures
            match self {
                ApiError::BadRequest(m) | ApiError::NotFound(m) | ApiError::ServiceUnavailable(m)
                | ApiError::Forbidden(m) => s@ == m@,
                ApiError::Bootstrapping => s@ == "Node is bootstrapping"@,
                ApiError::Internal(_) => exists|r: Option<(u64, u32)>| s@ == "Internal server error (error_id: "@
                    + error_id_of(nanos_of_reading(r)) + ")"@,
            },
            match self {
                ApiError::Internal(_) => exists|id: Seq<char>| #[trigger] is_error_id(id)
                    && s@ == "Internal server error (error_id: "@ + id + ")"@,
                _ => true,
            },
    {
        match self {
            ApiError::BadRequest(m) | ApiError::NotFound(m) | ApiError::ServiceUnavailable(m)
            | ApiError::Forbidden(m) => m.clone(),
            ApiError::Bootstrapping => String::from_str("Node is bootstrapping"),
            ApiError::Internal(_) => {
                let id = Self::generate_error_id();
                let mut t = String::from_str("Internal server error (error_id: ");
                t.append(id.as_str());
                t.append(")");
                proof {
                    let r = choose|r: Option<(u64, u32)>| id@ == error_id_of(nanos_of_reading(r));
                    assert(t@ == "Internal server error (error_id: "@ + error_id_of(nanos_of_reading(r)) + ")"@);
                    assert(is_error_id(id@));
                }
                t
            },
        }
    }
}

/// JSON error body of the HTTP API.
#[derive(Debug, Clone, PartialEq, Eq)]
pub struct ErrorResponse {
    pub error: String,
}

impl ErrorResponse {
    /// An error body with the given message.
    pub fn new(message: String) -> (r: Self)
        ensures
            r.error == message,
    {
        ErrorResponse { error: message }
    }
}

/// The API error for a failed verification, chosen by words in its text:
/// "not trusted" or "not found" forbid, "expired" or "mismatch" make a bad
/// request, anything else is internal. The text is kept as the message.
pub fn verification_error_to_api(e: VerificationError) -> (r: ApiError)
    ensures
        ({
            let t = verification_error_text(e);
            if contains_seq(t, "not trusted"@) || contains_seq(t, "not found"@) {
                r matches ApiError::Forbidden(m) && m@ == t
            } else if contains_seq(t, "expired"@) || contains_seq(t, "mismatch"@) {
                r matches ApiError::BadRequest(m) && m@ == t
            } else {
                r matches ApiError::Internal(m) && m@ == t
            }
        }),
{
    let msg = e.to_string();
    if str_contains(msg.as_str(), "not trusted") || str_contains(msg.as_str(), "not found") {
        ApiError::Forbidden(msg)
    } else if str_contains(msg.as_str(), "expired") || str_contains(msg.as_str(), "mismatch") {
        ApiError::BadRequest(msg)
    } else {
        ApiError::Internal(msg)
    }
}

/// Why a change of the log context was refused.
#[derive(Debug, Clone, Copy, PartialEq, Eq)]
pub enum LogContextError {
    /// More than ten changes in a second.
    RateLimitExceeded,
    /// Ten keys already.
    MaxKeysExceeded,
}

impl LogContextError {
    /// The display text.
    pub fn to_string(&self) -> (s: String)
        ensures
            s@ == match self {
                LogContextError::RateLimitExceeded => "rate limit exceeded (max 10 calls/second)"@,
                LogContextError::MaxKeysExceeded => "maximum context keys exceeded (max 10)"@,
            },
    {
        match self {
            LogContextError::RateLimitExceeded => String::from_str("rate limit exceeded (max 10 calls/second)"),
            LogContextError::MaxKeysExceeded => String::from_str("maximum context keys exceeded (max 10)"),
        }
    }
}

/// Errors of certificate operations.
#[derive(Debug, Clone, PartialEq, Eq)]
pub enum CertificateError {
    NamespaceNotFound(String),
    CertificateNotFound(u64),
    ReservedNamespace(String),
    CertificateRevoked { serial: u64, reason: String },
    CertificateExpired { serial: u64 },
    InvalidRequest(String),
    AttestationFailed(String),
    MeasurementNotTrusted { namespace: String, measurement_hash: String },
    Storage(String),
    Internal(String),
}

/// Errors of reading the node address from DHCP option 224.
#[derive(Debug, Clone, PartialEq, Eq)]
pub enum NetworkError {
    /// The option file could not be read.
    DhcpReadError(String),
    /// The hex text is not 8 characters long.
    InvalidHexLength(usize),
    /// The hex text is not hex.
    HexParseError(String),
}

/// The display text of a network error.
pub open spec fn network_error_text(e: NetworkError) -> Seq<char> {
    match e {
        NetworkError::DhcpReadError(s) => "Failed to read DHCP option 224: "@ + s@,
        NetworkError::InvalidHexLength(n) => "Invalid hex IP format: expected 8 characters, got "@ + dec_spec(n as nat),
        NetworkError::HexParseError(s) => "Failed to parse hex IP: "@ + s@,
    }
}

impl NetworkError {
    /// The display text.
    pub fn to_string(&self) -> (s: String)
        ensures
            s@ == network_error_text(*self),
    {
        match self {
            NetworkError::DhcpReadError(m) => concat_str("Failed to read DHCP option 224: ", m.as_str()),
            NetworkError::InvalidHexLength(n) => {
                let mut s = String::from_str("Invalid hex IP format: expected 8 characters, got ");
                push_decimal(&mut s, *n as u64);
                s
            },
            NetworkError::HexParseError(m) => concat_str("Failed to parse hex IP: ", m.as_str()),
        }
    }
}

/// Errors of the consensus layer.
#[derive(Debug, Clone, PartialEq, Eq)]
pub enum ConsensusError {
    Storage(String),
    Network(String),
    InvalidJoinRequest(String),
    NodeNotFound(String),
    Serialization(String),
    Config(String),
    Other(String),
}

/// The display text of a certificate error.
pub open spec fn certificate_error_text(e: CertificateError) -> Seq<char> {
    match e {
        CertificateError::NamespaceNotFound(s) => "Namespace not found: "@ + s@,
        CertificateError::CertificateNotFound(n) => "Certificate not found: serial "@ + dec_spec(n as nat),
        CertificateError::ReservedNamespace(s) => "Namespace '"@ + s@ + "' is reserved and cannot be used"@,
        CertificateError::CertificateRevoked { serial, reason } => "Certificate has been revoked: serial "@
            + dec_spec(serial as nat) + ", reason: "@ + reason@,
        CertificateError::CertificateExpired { serial } => "Certificate has expired: serial "@ + dec_spec(serial as nat),
        CertificateError::InvalidRequest(s) => "Invalid certificate request: "@ + s@,
        CertificateError::AttestationFailed(s) => "Attestation verification failed: "@ + s@,
        CertificateError::MeasurementNotTrusted { namespace, measurement_hash } => "Measurement not trusted for namespace '"@
            + namespace@ + "': "@ + measurement_hash@,
        CertificateError::Storage(s) => "Storage error: "@ + s@,
        CertificateError::Internal(s) => "Internal error: "@ + s@,
    }
}

impl CertificateError {
    /// The display text.
    pub fn to_string(&self) -> (s: String)
        ensures
            s@ == certificate_error_text(*self),
    {
        match self {
            CertificateError::NamespaceNotFound(s) => concat_str("Namespace not found: ", s.as_str()),
            CertificateError::CertificateNotFound(n) => {
                let mut t = String::from_str("Certificate not found: serial ");
                push_decimal(&mut t, *n);
                t
            },
            CertificateError::ReservedNamespace(s) => {
                let mut t = String::from_str("Namespace '");
                t.append(s.as_str());
                t.append("' is reserved and cannot be used");
                t
            },
            CertificateError::CertificateRevoked { serial, reason } => {
                let mut t = String::from_str("Certificate has been revoked: serial ");
                push_decimal(&mut t, *serial);
                t.append(", reason: ");
                t.append(reason.as_str());
                t
            },
            CertificateError::CertificateExpired { serial } => {
                let mut t = String::from_str("Certificate has expired: serial ");
                push_decimal(&mut t, *serial);
                t
            },
            CertificateError::InvalidRequest(s) => concat_str("Invalid certificate request: ", s.as_str()),
            CertificateError::AttestationFailed(s) => concat_str("Attestation verification failed: ", s.as_str()),
            CertificateError::MeasurementNotTrusted { namespace, measurement_hash } => {
                let mut t = String::from_str("Measurement not trusted for namespace '");
                t.append(namespace.as_str());
                t.append("': ");
                t.append(measurement_hash.as_str());
                t
            },
            CertificateError::Storage(s) => concat_str("Storage error: ", s.as_str()),
            CertificateError::Internal(s) => concat_str("Internal error: ", s.as_str()),
        }
    }
}

/// The display text of a consensus error.
pub open spec fn consensus_error_text(e: ConsensusError) -> Seq<char> {
    match e {
        ConsensusError::Storage(s) => "Storage error: "@ + s@,
        ConsensusError::Network(s) => "Network error: "@ + s@,
        ConsensusError::InvalidJoinRequest(s) => "Invalid join request: "@ + s@,
        ConsensusError::NodeNotFound(s) => "Node not found: "@ + s@,
        ConsensusError::Serialization(s) => "Serialization error: "@ + s@,
        ConsensusError::Config(s) => "Configuration error: "@ + s@,
        ConsensusError::Other(s) => s@,
    }
}

impl ConsensusError {
    /// The display text.
    pub fn to_string(&self) -> (s: String)
        ensures
            s@ == consensus_error_text(*self),
    {
        match self {
            ConsensusError::Storage(s) => concat_str("Storage error: ", s.as_str()),
            ConsensusError::Network(s) => concat_str("Network error: ", s.as_str()),
            ConsensusError::InvalidJoinRequest(s) => concat_str("Invalid join request: ", s.as_str()),
            ConsensusError::NodeNotFound(s) => concat_str("Node not found: ", s.as_str()),
            ConsensusError::Serialization(s) => concat_str("Serialization error: ", s.as_str()),
            ConsensusError::Config(s) => concat_str("Configuration error: ", s.as_str()),
            ConsensusError::Other(s) => s.clone(),
        }
    }
}

} // verus!
