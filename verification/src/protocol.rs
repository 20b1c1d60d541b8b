//! The decisions of the two-phase attestation protocol.
//!
//! Phase 1 (registration): the evidence is parsed, its signature verified
//! (outside this library), its measurement looked up in the measurement
//! registry (outside), and then a challenge is issued. Phase 2
//! (verification): the evidence must answer the pending challenge in its
//! REPORTDATA[0:32]; on success the instance becomes verified.

use vstd::prelude::*;
use vstd::string::*;
use vstd::utf8::encode_utf8;
use crate::bytes::Bytes32;
use crate::crypto::{base64_decode, spec_base64_decode, base64_error_text};
use crate::errors::{concat_str, MeasurementRegistryError, VerificationError, registry_error_text};
use crate::evidence::{detect_tee_type, evidence_tee};
use crate::hex::{self, hex_encode_spec};
use crate::identity::InstanceId;
use crate::json::JsonValue;
use crate::registry::{PeerRegistry, register_step, complete_step, completed_record};
use crate::snp::{SnpReport, VerifiedSnpReport, snp_parse_outcome, snp_measurement_hash};
use crate::tdx::{TdxQuote, VerifiedTdxQuote, tdx_evidence_outcome, tdx_measurement_hash};
use crate::tee::{Tee, TeeState, TeeRecord, RegistrationResponse, VerificationResponse, valid_challenge_at};
use crate::text::{byte_prefix, prefix_cut_ok, str_byte_prefix};

verus! {

/// The `Debug` name of a platform.
pub open spec fn tee_name(t: Tee) -> Seq<char> {
    match t {
        Tee::AzSnpVtpm => "AzSnpVtpm"@,
        Tee::AzTdxVtpm => "AzTdxVtpm"@,
        Tee::Nvidia => "Nvidia"@,
        Tee::Sgx => "Sgx"@,
        Tee::Snp => "Snp"@,
        Tee::Tdx => "Tdx"@,
        Tee::Cca => "Cca"@,
        Tee::Csv => "Csv"@,
        Tee::Se => "Se"@,
        Tee::HygonDcu => "HygonDcu"@,
        Tee::NvidiaDpu => "NvidiaDpu"@,
        Tee::Tpm => "Tpm"@,
        Tee::Sample => "Sample"@,
        Tee::SampleDevice => "SampleDevice"@,
    }
}

impl Tee {
    /// The `Debug` name of the platform.
    pub fn name(&self) -> (s: String)
        ensures
            s@ == tee_name(*self),
    {
        match self {
            Tee::AzSnpVtpm => String::from_str("AzSnpVtpm"),
            Tee::AzTdxVtpm => String::from_str("AzTdxVtpm"),
            Tee::Nvidia => String::from_str("Nvidia"),
            Tee::Sgx => String::from_str("Sgx"),
            Tee::Snp => String::from_str("Snp"),
            Tee::Tdx => String::from_str("Tdx"),
            Tee::Cca => String::from_str("Cca"),
            Tee::Csv => String::from_str("Csv"),
            Tee::Se => String::from_str("Se"),
            Tee::HygonDcu => String::from_str("HygonDcu"),
            Tee::NvidiaDpu => String::from_str("NvidiaDpu"),
            Tee::Tpm => String::from_str("Tpm"),
            Tee::Sample => String::from_str("Sample"),
            Tee::SampleDevice => String::from_str("SampleDevice"),
        }
    }
}

fn unsupported_tee(tee: Tee) -> (e: VerificationError)
    ensures
        e matches VerificationError::InvalidQuoteFormat(m) && m@ == "Unsupported TEE type: "@ + tee_name(tee),
{
    let n = tee.name();
    VerificationError::InvalidQuoteFormat(concat_str("Unsupported TEE type: ", n.as_str()))
}

/// Decodes the base64 of evidence into the bytes of its JSON document.
pub fn decode_evidence_bytes(evidence: &str) -> (r: Result<Vec<u8>, VerificationError>)
    ensures
        match spec_base64_decode(encode_utf8(evidence@)) {
            Err(e) => r matches Err(VerificationError::InvalidQuoteFormat(m))
                && m@ == "Invalid base64 evidence: "@ + base64_error_text(e),
            Ok(b) => r matches Ok(v) && v@ == b,
        },
{
    match base64_decode(evidence.as_bytes()) {
        Ok(v) => Ok(v),
        Err(e) => {
            let t = e.to_string();
            Err(VerificationError::InvalidQuoteFormat(concat_str("Invalid base64 evidence: ", t.as_str())))
        },
    }
}

/// The platform of decoded evidence, or the error that explains which
/// members are expected.
pub fn detect_evidence_tee(evidence: &JsonValue) -> (r: Result<Tee, VerificationError>)
    ensures
        match evidence_tee(*evidence) {
            Some(t) => r == Ok::<Tee, VerificationError>(t),
            None => r matches Err(VerificationError::InvalidQuoteFormat(m))
                && m@ == "Cannot detect TEE type: evidence must contain 'quote' (TDX) or 'attestation_report' (SEV-SNP)"@,
        },
{
    match detect_tee_type(evidence) {
        Some(t) => Ok(t),
        None => Err(VerificationError::InvalidQuoteFormat(String::from_str(
            "Cannot detect TEE type: evidence must contain 'quote' (TDX) or 'attestation_report' (SEV-SNP)",
        ))),
    }
}

/// Evidence of either platform, parsed but not yet verified.
#[derive(Debug)]
pub enum ParsedEvidence {
    Tdx(TdxQuote),
    Snp(SnpReport),
}

/// The identity that parsed evidence claims.
pub open spec fn parsed_identity(p: ParsedEvidence) -> Seq<u8> {
    match p {
        ParsedEvidence::Tdx(q) => q.report_data@.subrange(32, 64),
        ParsedEvidence::Snp(r) => r.report_id@,
    }
}

/// Parses evidence of the given platform.
pub fn parse_evidence(tee: Tee, evidence: &JsonValue) -> (r: Result<ParsedEvidence, VerificationError>)
    ensures
        tee == Tee::Tdx ==> match r {
            Ok(ParsedEvidence::Tdx(q)) => tdx_evidence_outcome(*evidence, Ok(q)),
            Ok(ParsedEvidence::Snp(_)) => false,
            Err(e) => tdx_evidence_outcome(*evidence, Err(e)),
        },
        tee == Tee::Snp ==> match r {
            Ok(ParsedEvidence::Snp(p)) => snp_parse_outcome(*evidence, Ok(p)),
            Ok(ParsedEvidence::Tdx(_)) => false,
            Err(e) => snp_parse_outcome(*evidence, Err(e)),
        },
        tee != Tee::Tdx && tee != Tee::Snp ==> (r matches Err(VerificationError::InvalidQuoteFormat(m))
            && m@ == "Unsupported TEE type: "@ + tee_name(tee)),
{
    match tee {
        Tee::Tdx => {
            let q = TdxQuote::from_json(evidence)?;
            Ok(ParsedEvidence::Tdx(q))
        },
        Tee::Snp => {
            let p = SnpReport::from_json(evidence)?;
            Ok(ParsedEvidence::Snp(p))
        },
        _ => Err(unsupported_tee(tee)),
    }
}

/// The identity that the evidence claims: REPORTDATA[32:64] for TDX,
/// REPORT_ID for SEV-SNP.
pub fn extract_instance_id(tee: Tee, evidence: &JsonValue) -> (r: Result<InstanceId, VerificationError>)
    ensures
        tee == Tee::Tdx ==> match r {
            Ok(id) => exists|q: TdxQuote| tdx_evidence_outcome(*evidence, Ok(q)) && id@ == q.report_data@.subrange(32, 64),
            Err(e) => tdx_evidence_outcome(*evidence, Err(e)),
        },
        tee == Tee::Snp ==> match r {
            Ok(id) => exists|p: SnpReport| snp_parse_outcome(*evidence, Ok(p)) && id@ == p.report_id@,
            Err(e) => snp_parse_outcome(*evidence, Err(e)),
        },
        tee != Tee::Tdx && tee != Tee::Snp ==> (r matches Err(VerificationError::InvalidQuoteFormat(m))
            && m@ == "Unsupported TEE type: "@ + tee_name(tee)),
{
    match parse_evidence(tee, evidence)? {
        ParsedEvidence::Tdx(q) => Ok(q.instance_id()),
        ParsedEvidence::Snp(p) => Ok(p.instance_id()),
    }
}

/// Phase 1, before the signature check: parses the evidence of the given
/// platform; a TDX quote must carry a non-zero identity.
pub fn parse_for_registration(tee: Tee, evidence: &JsonValue) -> (r: Result<ParsedEvidence, VerificationError>)
    ensures
        tee == Tee::Tdx ==> match r {
            Ok(ParsedEvidence::Tdx(q)) => tdx_evidence_outcome(*evidence, Ok(q))
                && q.report_data@.subrange(32, 64) != Seq::new(32, |i: int| 0u8),
            Ok(ParsedEvidence::Snp(_)) => false,
            Err(VerificationError::IdentityRequired) => exists|q: TdxQuote| tdx_evidence_outcome(*evidence, Ok(q))
                && q.report_data@.subrange(32, 64) == Seq::new(32, |i: int| 0u8),
            Err(e) => tdx_evidence_outcome(*evidence, Err(e)),
        },
        tee == Tee::Snp ==> match r {
            Ok(ParsedEvidence::Snp(p)) => snp_parse_outcome(*evidence, Ok(p)),
            Ok(ParsedEvidence::Tdx(_)) => false,
            Err(e) => snp_parse_outcome(*evidence, Err(e)),
        },
        tee != Tee::Tdx && tee != Tee::Snp ==> (r matches Err(VerificationError::InvalidQuoteFormat(m))
            && m@ == "Unsupported TEE type: "@ + tee_name(tee)),
{
    let parsed = parse_evidence(tee, evidence)?;
    if let ParsedEvidence::Tdx(q) = &parsed {
        if q.instance_id().is_zero() {
            return Err(VerificationError::IdentityRequired);
        }
    }
    Ok(parsed)
}

/// The answer of the measurement registry, as phase 1 acts on it.
pub open spec fn measurement_verdict(
    namespace: Seq<char>,
    measurement_hash: Seq<char>,
    answer: Result<bool, MeasurementRegistryError>,
    r: Result<(), VerificationError>,
) -> bool {
    match answer {
        Err(e) => r matches Err(VerificationError::ConnectionFailed(m))
            && m@ == "Registry query failed: "@ + registry_error_text(e),
        Ok(false) => r matches Err(VerificationError::MeasurementNotTrusted(m))
            && m@ == "Measurement '"@ + byte_prefix(measurement_hash, 16) + "...' not found in namespace '"@
                + namespace + "'"@,
        Ok(true) => r is Ok,
    }
}

/// Phase 1, after the registry lookup: the measurement must be trusted in
/// the namespace. The message quotes the hash cut to 16 bytes.
pub fn check_measurement_answer(
    namespace: &str,
    measurement_hash: &str,
    answer: Result<bool, MeasurementRegistryError>,
) -> (r: Result<(), VerificationError>)
    requires
        answer == Ok::<bool, MeasurementRegistryError>(false) ==> prefix_cut_ok(measurement_hash@, 16),
    ensures
        measurement_verdict(namespace@, measurement_hash@, answer, r),
{
    match answer {
        Err(e) => {
            let t = e.to_string();
            Err(VerificationError::ConnectionFailed(concat_str("Registry query failed: ", t.as_str())))
        },
        Ok(false) => {
            let mut m = String::from_str("Measurement '");
            let p = str_byte_prefix(measurement_hash, 16);
            m.append(p.as_str());
            m.append("...' not found in namespace '");
            m.append(namespace);
            m.append("'");
            Err(VerificationError::MeasurementNotTrusted(m))
        },
        Ok(true) => Ok(()),
    }
}

/// The expiry of a record's pending challenge in Unix seconds (the stored
/// expiry is in milliseconds); 0 for a record without one.
pub open spec fn challenge_expiry_secs(rec: TeeRecord) -> u64 {
    match rec.state {
        TeeState::PendingChallenge { expires_at, .. } => expires_at / 1000,
        _ => 0,
    }
}

/// Phase 1, last step: registers the instance and answers with the
/// challenge that is now pending for it (hex) and that challenge's expiry
/// in Unix seconds. A verified instance gets `IdentityConflict` with its
/// identity in hex.
pub fn issue_challenge(
    registry: &mut PeerRegistry,
    instance_id: InstanceId,
    namespace: &str,
    measurement_hash: String,
    tee: Tee,
) -> (r: Result<RegistrationResponse, VerificationError>)
    requires
        old(registry).wf(),
    ensures
        exists|ns: String, challenge: [u8; 32], now: u64, res: Result<([u8; 32], bool), bool>| {
            &&& ns@ == namespace@
            &&& register_step(*old(registry), *final(registry), instance_id, ns, measurement_hash, tee, challenge, now, res)
            &&& match res {
                Ok((c, _)) => r matches Ok(resp) && resp.challenge@ == hex_encode_spec(c@)
                    && final(registry).pending_map().dom().contains(instance_id@)
                    && resp.expires_at == challenge_expiry_secs(final(registry).pending_map()[instance_id@]),
                Err(_) => r matches Err(VerificationError::IdentityConflict(m)) && m@ == hex_encode_spec(instance_id@),
            }
        },
{
    let ns = String::from_str(namespace);
    match registry.register(instance_id, ns, measurement_hash, tee) {
        Ok((challenge, _is_new)) => {
            let expires_at: u64 = match registry.get_pending_record(&instance_id) {
                Some(rec) => match rec.state {
                    TeeState::PendingChallenge { expires_at, .. } => expires_at / 1000,
                    _ => 0,
                },
                None => 0,
            };
            Ok(RegistrationResponse { challenge: hex::encode(challenge.as_slice()), expires_at })
        },
        Err(_) => Err(VerificationError::IdentityConflict(instance_id.to_hex())),
    }
}

/// The pending challenge that phase 2 checks against, at time `now`.
pub open spec fn pending_check(
    registry: PeerRegistry,
    id: InstanceId,
    namespace: Seq<char>,
    now: u64,
    r: Result<Bytes32, VerificationError>,
) -> bool {
    if !registry.pending_map().dom().contains(id@) {
        r == Err::<Bytes32, VerificationError>(VerificationError::NoPendingChallenge)
    } else {
        let rec = registry.pending_map()[id@];
        if rec.namespace@ != namespace {
            r matches Err(VerificationError::NonceVerificationFailed(m))
                && m@ == "Namespace mismatch: expected '"@ + rec.namespace@ + "', got '"@ + namespace + "'"@
        } else {
            match valid_challenge_at(rec, now) {
                None => r matches Err(VerificationError::NonceVerificationFailed(m)) && m@ == "Challenge expired"@,
                Some(c) => r matches Ok(b) && b@ == c@,
            }
        }
    }
}

/// Phase 2 hands out a challenge only to a request in the namespace where
/// it was issued, while it is still valid: the challenge handed out is the
/// one pending for the instance. A request from another namespace is
/// refused with the namespace mismatch, naming both namespaces; an
/// instance without a pending record gets `NoPendingChallenge`.
pub proof fn law_pending_challenge_namespace(
    registry: PeerRegistry,
    id: InstanceId,
    namespace: Seq<char>,
    now: u64,
    r: Result<Bytes32, VerificationError>,
)
    requires
        pending_check(registry, id, namespace, now, r),
    ensures
        r matches Ok(b) ==> {
            &&& registry.pending_map().dom().contains(id@)
            &&& registry.pending_map()[id@].namespace@ == namespace
            &&& registry.pending_map()[id@].state matches TeeState::PendingChallenge { challenge, expires_at, .. }
                && now <= expires_at && b@ == challenge@
        },
        registry.pending_map().dom().contains(id@) && registry.pending_map()[id@].namespace@ != namespace ==> (
            r matches Err(VerificationError::NonceVerificationFailed(m)) && m@ == "Namespace mismatch: expected '"@
                + registry.pending_map()[id@].namespace@ + "', got '"@ + namespace + "'"@),
        !registry.pending_map().dom().contains(id@) ==> r == Err::<Bytes32, VerificationError>(VerificationError::NoPendingChallenge),
{
}

/// Phase 2, first step: the instance must have a pending challenge, issued
/// in the same namespace and still valid at `now`.
pub fn check_pending_challenge(registry: &PeerRegistry, instance_id: &InstanceId, namespace: &str, now: u64) -> (r: Result<Bytes32, VerificationError>)
    requires
        registry.wf(),
    ensures
        pending_check(*registry, *instance_id, namespace@, now, r),
{
    let pending = match registry.get_pending_record(instance_id) {
        Some(p) => p,
        None => {
            return Err(VerificationError::NoPendingChallenge);
        },
    };
    if !crate::json::str_eq(pending.namespace.as_str(), namespace) {
        let mut m = String::from_str("Namespace mismatch: expected '");
        m.append(pending.namespace.as_str());
        m.append("', got '");
        m.append(namespace);
        m.append("'");
        return Err(VerificationError::NonceVerificationFailed(m));
    }
    match pending.get_valid_challenge_at(now) {
        Some(c) => Ok(Bytes32(*c)),
        None => Err(VerificationError::NonceVerificationFailed(String::from_str("Challenge expired"))),
    }
}

/// Evidence of either platform whose signature was verified.
#[derive(Debug)]
pub enum VerifiedEvidence {
    Tdx(VerifiedTdxQuote),
    Snp(VerifiedSnpReport),
}

/// The platform of verified evidence.
pub open spec fn verified_tee(v: VerifiedEvidence) -> Tee {
    match v {
        VerifiedEvidence::Tdx(_) => Tee::Tdx,
        VerifiedEvidence::Snp(_) => Tee::Snp,
    }
}

/// REPORTDATA[0:32] of verified evidence.
pub open spec fn verified_binding(v: VerifiedEvidence) -> Seq<u8> {
    match v {
        VerifiedEvidence::Tdx(q) => q.quote.report_data@.subrange(0, 32),
        VerifiedEvidence::Snp(p) => p.report.report_data@.subrange(0, 32),
    }
}

/// The identity of verified evidence.
pub open spec fn verified_identity(v: VerifiedEvidence) -> Seq<u8> {
    match v {
        VerifiedEvidence::Tdx(q) => q.quote.report_data@.subrange(32, 64),
        VerifiedEvidence::Snp(p) => p.report.report_id@,
    }
}

/// The measurement hash of verified evidence.
pub open spec fn verified_hash(v: VerifiedEvidence) -> Seq<char> {
    match v {
        VerifiedEvidence::Tdx(q) => tdx_measurement_hash(q.quote),
        VerifiedEvidence::Snp(p) => snp_measurement_hash(p.report),
    }
}

/// The TCB status of verified evidence.
pub open spec fn verified_tcb(v: VerifiedEvidence) -> Option<String> {
    match v {
        VerifiedEvidence::Tdx(q) => q.tcb_status,
        VerifiedEvidence::Snp(p) => p.tcb_status,
    }
}

/// The message for evidence that does not answer the challenge `expected`.
pub open spec fn binding_mismatch_text(v: VerifiedEvidence, expected: Seq<u8>) -> Seq<char> {
    match v {
        VerifiedEvidence::Tdx(_) => "REPORTDATA[0:32] mismatch: expected "@ + "0x"@ + hex_encode_spec(expected)
            + ", got "@ + "0x"@ + hex_encode_spec(verified_binding(v)),
        VerifiedEvidence::Snp(_) => "REPORT_DATA[0:32] mismatch: expected "@ + "0x"@ + hex_encode_spec(expected)
            + ", got "@ + "0x"@ + hex_encode_spec(verified_binding(v)),
    }
}

/// The TCB status recorded for a verified instance: the reported one, or
/// `Unknown`.
pub open spec fn recorded_tcb(t: Option<String>) -> Seq<char> {
    match t {
        Some(s) => s@,
        None => "Unknown"@,
    }
}

/// Phase 2, last step: the verified evidence must answer the challenge and
/// be of the instance that registered; the instance then becomes verified
/// at time `now`.
pub fn complete_tee_verification(
    registry: &mut PeerRegistry,
    instance_id: InstanceId,
    challenge: &Bytes32,
    verified: VerifiedEvidence,
    now: u64,
) -> (r: Result<VerificationResponse, VerificationError>)
    requires
        old(registry).wf(),
    ensures
        final(registry).wf(),
        verified_binding(verified) != challenge@ ==> {
            &&& r matches Err(VerificationError::NonceVerificationFailed(m)) && m@ == binding_mismatch_text(verified, challenge@)
            &&& *final(registry) == *old(registry)
        },
        verified_binding(verified) == challenge@ && verified_identity(verified) != instance_id@ ==> {
            &&& r matches Err(VerificationError::NonceVerificationFailed(m)) && m@ == "Instance ID mismatch between phases"@
            &&& *final(registry) == *old(registry)
        },
        verified_binding(verified) == challenge@ && verified_identity(verified) == instance_id@ ==> exists|st: TeeState, done: Option<crate::tee::TeeRecord>| {
            &&& st matches TeeState::Verified { measurement_hash, tcb_status, tee, verified_at }
                && measurement_hash@ == verified_hash(verified) && tcb_status@ == recorded_tcb(verified_tcb(verified))
                && tee == verified_tee(verified) && verified_at == now
            &&& complete_step(*old(registry), *final(registry), instance_id, st, done)
            &&& done is None ==> (r matches Err(VerificationError::AttestationFailed(m))
                && m@ == "Failed to complete verification"@)
            &&& done is Some ==> (r matches Ok(resp) && resp.verified
                && (resp.measurement_hash matches Some(h) && h@ == verified_hash(verified))
                && resp.tcb_status == verified_tcb(verified))
        },
{
    let (tee, verified_id, measurement_hash, tcb_status) = match &verified {
        VerifiedEvidence::Tdx(q) => {
            q.verify_report_data(challenge)?;
            let t = match &q.tcb_status {
                Some(s) => Some(s.clone()),
                None => None,
            };
            (Tee::Tdx, q.quote.instance_id(), q.quote.measurement_hash(), t)
        },
        VerifiedEvidence::Snp(p) => {
            p.verify_report_data(challenge)?;
            let t = match &p.tcb_status {
                Some(s) => Some(s.clone()),
                None => None,
            };
            (Tee::Snp, p.report.instance_id(), p.report.measurement_hash(), t)
        },
    };
    if !verified_id.same(&instance_id) {
        return Err(VerificationError::NonceVerificationFailed(String::from_str("Instance ID mismatch between phases")));
    }
    let recorded = match &tcb_status {
        Some(s) => s.clone(),
        None => String::from_str("Unknown"),
    };
    let state = TeeState::Verified { measurement_hash: measurement_hash.clone(), tcb_status: recorded, tee, verified_at: now };
    match registry.complete_verification(instance_id, state) {
        Some(_) => Ok(VerificationResponse { verified: true, measurement_hash: Some(measurement_hash), tcb_status }),
        None => Err(VerificationError::AttestationFailed(String::from_str("Failed to complete verification"))),
    }
}

} // verus!
