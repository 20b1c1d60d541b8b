//! AMD SEV-SNP attestation reports: reading the fields of the report in the
//! evidence JSON, and the policy checks on a report whose signature was
//! verified.
//!
//! The instance identity is the firmware-generated `REPORT_ID`. The
//! measurement hash is `SHA256(MEASUREMENT || HOST_DATA)`, with HOST_DATA
//! left out when it is all zero.

use vstd::prelude::*;
use vstd::string::*;
use crate::bytes::{Bytes32, Bytes48, Bytes64, all_zero, append_bytes};
use crate::crypto::{sha256, spec_sha256};
use crate::errors::{concat_str, VerificationError};
use crate::hex::{self, hex_encode_spec, hex_decode_str, hex_error_text, FromHexError};
use crate::identity::InstanceId;
use crate::json::{JsonValue, JsonNumber, json_index, json_as_str, json_as_u64, json_as_bool};
use crate::measurement::{SnpMeasurement, SnpMinimumTcb, SnpPlatformConstraints};
use crate::tee::{ParsedAttestation, Tee};
use crate::text::{dec_spec, push_decimal};

verus! {

/// A parsed SEV-SNP report whose signature has not been checked.
#[derive(Clone, Copy, Debug)]
pub struct SnpReport {
    /// REPORT_DATA (64 bytes).
    pub report_data: Bytes64,
    /// REPORT_ID, the instance identity.
    pub report_id: Bytes32,
    /// The launch measurement.
    pub measurement: Bytes48,
    /// HOST_DATA.
    pub host_data: Bytes32,
    /// The guest policy bits.
    pub policy: u64,
}

/// The bytes of an array of JSON integers, each truncated to a byte;
/// `None` when an item is not a non-negative integer.
pub open spec fn array_bytes(items: Seq<JsonValue>) -> Option<Seq<u8>> {
    if forall|i: int| 0 <= i < items.len() ==> (#[trigger] json_as_u64(items[i])) is Some {
        Some(Seq::new(items.len(), |i: int| (json_as_u64(items[i])->0) as u8))
    } else {
        None
    }
}

/// The length check of a byte field.
pub open spec fn length_checked(field: Seq<char>, b: Seq<u8>, n: nat) -> Result<Seq<u8>, Seq<char>> {
    if b.len() == n {
        Ok(b)
    } else {
        Err(field + " length mismatch: expected "@ + dec_spec(n) + ", got "@ + dec_spec(b.len()))
    }
}

/// A byte field of the report: hex text or an array of byte values, of
/// exactly `n` bytes; the error is the message.
pub open spec fn bytes_field(report: JsonValue, field: Seq<char>, n: nat) -> Result<Seq<u8>, Seq<char>> {
    match json_as_str(json_index(report, field)) {
        Some(h) => match hex_decode_str(h) {
            Err(e) => Err("Invalid "@ + field + " hex: "@ + hex_error_text(e)),
            Ok(b) => length_checked(field, b, n),
        },
        None => match json_index(report, field) {
            JsonValue::Array(items) => match array_bytes(items@) {
                None => Err("Invalid "@ + field + " array: "@ + "Invalid byte"@),
                Some(b) => length_checked(field, b, n),
            },
            _ => Err("Missing or invalid "@ + field + " field"@),
        },
    }
}

/// The report that the evidence `ev` describes, or the first error.
pub open spec fn snp_parse_outcome(ev: JsonValue, r: Result<SnpReport, VerificationError>) -> bool {
    let report = json_index(ev, "attestation_report"@);
    if report is Null {
        r matches Err(VerificationError::InvalidQuoteFormat(m))
            && m@ == "Missing 'attestation_report' field in SEV-SNP evidence"@
    } else {
        match bytes_field(report, "report_id"@, 32) {
            Err(m) => r matches Err(VerificationError::ParseError(t)) && t@ == m,
            Ok(id) => match bytes_field(report, "report_data"@, 64) {
                Err(m) => r matches Err(VerificationError::ParseError(t)) && t@ == m,
                Ok(data) => match bytes_field(report, "measurement"@, 48) {
                    Err(m) => r matches Err(VerificationError::ParseError(t)) && t@ == m,
                    Ok(meas) => match bytes_field(report, "host_data"@, 32) {
                        Err(m) => r matches Err(VerificationError::ParseError(t)) && t@ == m,
                        Ok(host) => match json_as_u64(json_index(report, "policy"@)) {
                            None => r matches Err(VerificationError::ParseError(t))
                                && t@ == "Missing or invalid "@ + "policy"@ + " field"@,
                            Some(p) => r matches Ok(rep) && rep.report_id@ == id && rep.report_data@ == data
                                && rep.measurement@ == meas && rep.host_data@ == host && rep.policy == p,
                        },
                    },
                },
            },
        }
    }
}

fn length_mismatch(field: &str, expected_len: usize, got: usize) -> (m: String)
    ensures
        m@ == field@ + " length mismatch: expected "@ + dec_spec(expected_len as nat) + ", got "@ + dec_spec(got as nat),
{
    let mut m = String::from_str(field);
    m.append(" length mismatch: expected ");
    push_decimal(&mut m, expected_len as u64);
    m.append(", got ");
    push_decimal(&mut m, got as u64);
    m
}

fn array_values(items: &Vec<JsonValue>) -> (r: Option<Vec<u8>>)
    ensures
        match array_bytes(items@) {
            Some(b) => r matches Some(v) && v@ == b,
            None => r is None,
        },
{
    let mut out: Vec<u8> = Vec::new();
    let mut i: usize = 0;
    while i < items.len()
        invariant
            i <= items@.len(),
            out@.len() == i,
            forall|j: int| 0 <= j < i ==> (#[trigger] json_as_u64(items@[j])) is Some,
            forall|j: int| 0 <= j < i ==> out@[j] == (json_as_u64(items@[j])->0) as u8,
        decreases items.len() - i,
    {
        match items[i].as_u64() {
            Some(n) => {
                out.push(n as u8);
            },
            None => {
                return None;
            },
        }
        i = i + 1;
    }
    assert(out@ =~= Seq::new(items@.len(), |j: int| (json_as_u64(items@[j])->0) as u8));
    Some(out)
}

/// Reads a byte field of the report: hex text, or an array of byte values.
pub fn extract_bytes_field(report: &JsonValue, field: &str, expected_len: usize) -> (r: Result<Vec<u8>, VerificationError>)
    ensures
        match bytes_field(*report, field@, expected_len as nat) {
            Ok(b) => r matches Ok(v) && v@ == b,
            Err(m) => r matches Err(VerificationError::ParseError(t)) && t@ == m,
        },
{
    if let Some(hex_str) = report.str_at(field) {
        let bytes = match hex::decode(hex_str.as_str()) {
            Ok(b) => b,
            Err(e) => {
                let mut m = String::from_str("Invalid ");
                m.append(field);
                m.append(" hex: ");
                let t = e.to_string();
                m.append(t.as_str());
                return Err(VerificationError::ParseError(m));
            },
        };
        if bytes.len() != expected_len {
            return Err(VerificationError::ParseError(length_mismatch(field, expected_len, bytes.len())));
        }
        return Ok(bytes);
    }
    if let Some(JsonValue::Array(items)) = report.get(field) {
        let bytes = match array_values(items) {
            Some(b) => b,
            None => {
                let mut m = String::from_str("Invalid ");
                m.append(field);
                m.append(" array: ");
                m.append("Invalid byte");
                return Err(VerificationError::ParseError(m));
            },
        };
        if bytes.len() != expected_len {
            return Err(VerificationError::ParseError(length_mismatch(field, expected_len, bytes.len())));
        }
        return Ok(bytes);
    }
    let mut m = String::from_str("Missing or invalid ");
    m.append(field);
    m.append(" field");
    Err(VerificationError::ParseError(m))
}

/// Reads an integer field of the report.
pub fn extract_u64_field(report: &JsonValue, field: &str) -> (r: Result<u64, VerificationError>)
    ensures
        match json_as_u64(json_index(*report, field@)) {
            Some(n) => r == Ok::<u64, VerificationError>(n),
            None => r matches Err(VerificationError::ParseError(t)) && t@ == "Missing or invalid "@ + field@ + " field"@,
        },
{
    match report.u64_at(field) {
        Some(n) => Ok(n),
        None => {
            let mut m = String::from_str("Missing or invalid ");
            m.append(field);
            m.append(" field");
            Err(VerificationError::ParseError(m))
        },
    }
}

/// The bytes that the measurement hash covers.
pub open spec fn snp_hash_input(measurement: Seq<u8>, host_data: Seq<u8>) -> Seq<u8> {
    if forall|j: int| 0 <= j < host_data.len() ==> host_data[j] == 0 {
        measurement
    } else {
        measurement + host_data
    }
}

/// The measurement hash of a report.
pub open spec fn snp_measurement_hash(rep: SnpReport) -> Seq<char> {
    hex_encode_spec(spec_sha256(snp_hash_input(rep.measurement@, rep.host_data@)))
}

impl SnpReport {
    /// Reads the report from SEV-SNP evidence (`attestation_report` with
    /// `report_id`, `report_data`, `measurement`, `host_data` and `policy`).
    /// The signature is not checked.
    pub fn from_json(evidence: &JsonValue) -> (r: Result<SnpReport, VerificationError>)
        ensures
            snp_parse_outcome(*evidence, r),
    {
        let report = match evidence.get("attestation_report") {
            Some(x) if !x.is_null() => x,
            _ => {
                return Err(VerificationError::InvalidQuoteFormat(
                    String::from_str("Missing 'attestation_report' field in SEV-SNP evidence"),
                ));
            },
        };
        let id = extract_bytes_field(report, "report_id", 32)?;
        let data = extract_bytes_field(report, "report_data", 64)?;
        let meas = extract_bytes_field(report, "measurement", 48)?;
        let host = extract_bytes_field(report, "host_data", 32)?;
        let policy = extract_u64_field(report, "policy")?;
        Ok(SnpReport {
            report_data: Bytes64::from_slice(data.as_slice()),
            report_id: Bytes32::from_slice(id.as_slice()),
            measurement: Bytes48::from_slice(meas.as_slice()),
            host_data: Bytes32::from_slice(host.as_slice()),
            policy,
        })
    }

    /// The full REPORT_DATA.
    pub fn report_data(&self) -> (r: &Bytes64)
        ensures
            *r == self.report_data,
    {
        &self.report_data
    }

    /// REPORT_DATA[0:32], the challenge or address binding.
    pub fn report_data_binding(&self) -> (r: Bytes32)
        ensures
            r@ == self.report_data@.subrange(0, 32),
    {
        Bytes32::from_slice(&self.report_data.0.as_slice()[0..32])
    }

    /// The instance identity: REPORT_ID, which the firmware generates.
    pub fn instance_id(&self) -> (r: InstanceId)
        ensures
            r@ == self.report_id@,
    {
        InstanceId(self.report_id)
    }

    /// REPORT_ID.
    pub fn report_id(&self) -> (r: Bytes32)
        ensures
            r == self.report_id,
    {
        self.report_id
    }

    /// The launch measurement.
    pub fn measurement(&self) -> (r: &Bytes48)
        ensures
            *r == self.measurement,
    {
        &self.measurement
    }

    /// HOST_DATA.
    pub fn host_data(&self) -> (r: &Bytes32)
        ensures
            *r == self.host_data,
    {
        &self.host_data
    }

    /// The measurement hash: lowercase hex of SHA-256 over MEASUREMENT, then
    /// HOST_DATA when it is not all zero.
    pub fn measurement_hash(&self) -> (s: String)
        ensures
            s@ == snp_measurement_hash(*self),
            s@.len() == 64,
    {
        let mut data: Vec<u8> = Vec::new();
        append_bytes(&mut data, self.measurement.0.as_slice());
        if !all_zero(self.host_data.0.as_slice()) {
            append_bytes(&mut data, self.host_data.0.as_slice());
        }
        assert(data@ =~= snp_hash_input(self.measurement@, self.host_data@));
        let digest = sha256(data.as_slice());
        hex::encode(digest.as_slice())
    }

    /// Whether the guest policy allows debugging (bit 19).
    pub fn is_debug(&self) -> (r: bool)
        ensures
            r == (self.policy & 0x8_0000 != 0),
    {
        self.policy & 0x8_0000 != 0
    }

    /// The guest policy bits.
    pub fn policy(&self) -> (r: u64)
        ensures
            r == self.policy,
    {
        self.policy
    }
}

/// A SEV-SNP report whose signature chain was verified, with the claims
/// that the verifier returned for it.
#[derive(Debug)]
pub struct VerifiedSnpReport {
    pub report: SnpReport,
    pub claims: JsonValue,
    pub tcb_status: Option<String>,
}

/// `claims[key].as_u64().unwrap_or(0)`.
pub open spec fn claim_u64(claims: JsonValue, key: Seq<char>) -> u64 {
    match json_as_u64(json_index(claims, key)) {
        Some(n) => n,
        None => 0,
    }
}

/// The reported TCB as the status text: `bootloader=B, tee=T, snp=S, microcode=M`.
pub open spec fn snp_tcb_text(claims: JsonValue) -> Seq<char> {
    "bootloader="@ + dec_spec(claim_u64(claims, "reported_tcb_bootloader"@) as nat)
        + ", tee="@ + dec_spec(claim_u64(claims, "reported_tcb_tee"@) as nat)
        + ", snp="@ + dec_spec(claim_u64(claims, "reported_tcb_snp"@) as nat)
        + ", microcode="@ + dec_spec(claim_u64(claims, "reported_tcb_microcode"@) as nat)
}

/// One TCB component against its minimum (the reported value truncated to a byte).
pub open spec fn svn_violation(label: Seq<char>, claims: JsonValue, key: Seq<char>, minimum: Option<u8>) -> Option<Seq<char>> {
    match minimum {
        None => None,
        Some(m) => {
            let a = claim_u64(claims, key) as u8;
            if a < m {
                Some(label + " "@ + dec_spec(a as nat) + " < minimum "@ + dec_spec(m as nat))
            } else {
                None
            }
        },
    }
}

/// The first TCB component below its minimum, as its message.
pub open spec fn snp_tcb_violation(claims: JsonValue, minimum: SnpMinimumTcb) -> Option<Seq<char>> {
    match svn_violation("bootloader_svn"@, claims, "reported_tcb_bootloader"@, minimum.bootloader_svn) {
        Some(m) => Some(m),
        None => match svn_violation("tee_svn"@, claims, "reported_tcb_tee"@, minimum.tee_svn) {
            Some(m) => Some(m),
            None => match svn_violation("snp_svn"@, claims, "reported_tcb_snp"@, minimum.snp_svn) {
                Some(m) => Some(m),
                None => svn_violation("microcode_svn"@, claims, "reported_tcb_microcode"@, minimum.microcode_svn),
            },
        },
    }
}

/// Whether the SMT requirement fails: SMT must be off and the claims say it is on.
pub open spec fn smt_violation(claims: JsonValue, c: SnpPlatformConstraints) -> bool {
    c.require_smt_disabled == Some(true) && json_as_bool(json_index(claims, "platform_smt_enabled"@)) == Some(true)
}

/// The trusted bytes that the measurement hash covers, or the first error
/// (message).
pub open spec fn trusted_snp_input(t: SnpMeasurement) -> Result<Seq<u8>, Seq<char>> {
    match hex_decode_str(t.measurement@) {
        Err(e) => Err("Invalid trusted measurement hex: "@ + hex_error_text(e)),
        Ok(m) => match t.host_data {
            None => Ok(m),
            Some(h) => match hex_decode_str(h@) {
                Err(e) => Err("Invalid trusted host_data hex: "@ + hex_error_text(e)),
                Ok(hb) => Ok(snp_hash_input(m, hb)),
            },
        },
    }
}

fn svn_check(label: &str, claims: &JsonValue, key: &str, minimum: Option<u8>) -> (r: Result<(), VerificationError>)
    ensures
        match svn_violation(label@, *claims, key@, minimum) {
            None => r is Ok,
            Some(m) => r matches Err(VerificationError::TcbOutdated(t)) && t@ == m,
        },
{
    if let Some(m) = minimum {
        let v = match claims.u64_at(key) {
            Some(n) => n,
            None => 0,
        };
        let a = v as u8;
        if a < m {
            let mut t = String::from_str(label);
            t.append(" ");
            push_decimal(&mut t, a as u64);
            t.append(" < minimum ");
            push_decimal(&mut t, m as u64);
            return Err(VerificationError::TcbOutdated(t));
        }
    }
    Ok(())
}

impl VerifiedSnpReport {
    /// Builds the verified report from the claim sets that the SEV-SNP
    /// verifier returned for `report`; the first set is kept and the TCB
    /// status is the reported TCB.
    pub fn from_verifier_claims(report: SnpReport, results: Vec<JsonValue>) -> (r: Result<Self, VerificationError>)
        ensures
            results@.len() == 0 ==> (r matches Err(VerificationError::AttestationFailed(m))
                && m@ == "No claims returned from SNP verifier"@),
            results@.len() > 0 ==> (r matches Ok(v) && v.report == report && v.claims == results@[0]
                && (v.tcb_status matches Some(t) && t@ == snp_tcb_text(results@[0]))),
    {
        let mut results = results;
        if results.len() == 0 {
            return Err(VerificationError::AttestationFailed(String::from_str("No claims returned from SNP verifier")));
        }
        let claims = results.remove(0);
        let mut t = String::from_str("bootloader=");
        push_decimal(&mut t, match claims.u64_at("reported_tcb_bootloader") { Some(n) => n, None => 0 });
        t.append(", tee=");
        push_decimal(&mut t, match claims.u64_at("reported_tcb_tee") { Some(n) => n, None => 0 });
        t.append(", snp=");
        push_decimal(&mut t, match claims.u64_at("reported_tcb_snp") { Some(n) => n, None => 0 });
        t.append(", microcode=");
        push_decimal(&mut t, match claims.u64_at("reported_tcb_microcode") { Some(n) => n, None => 0 });
        Ok(VerifiedSnpReport { report, claims, tcb_status: Some(t) })
    }

    /// The verified claims.
    pub fn claims(&self) -> (r: &JsonValue)
        ensures
            *r == self.claims,
    {
        &self.claims
    }

    /// The TCB status text.
    pub fn tcb_status(&self) -> (r: Option<&str>)
        ensures
            match self.tcb_status {
                Some(t) => r matches Some(s) && s@ == t@,
                None => r is None,
            },
    {
        match &self.tcb_status {
            Some(t) => Some(t.as_str()),
            None => None,
        }
    }

    /// Checks that REPORT_DATA[0:32] is the expected challenge or binding.
    pub fn verify_report_data(&self, expected: &Bytes32) -> (r: Result<(), VerificationError>)
        ensures
            self.report.report_data@.subrange(0, 32) == expected@ ==> r is Ok,
            self.report.report_data@.subrange(0, 32) != expected@ ==> (r matches Err(VerificationError::NonceVerificationFailed(m))
                && m@ == "REPORT_DATA[0:32] mismatch: expected "@ + "0x"@ + hex_encode_spec(expected@) + ", got "@ + "0x"@
                    + hex_encode_spec(self.report.report_data@.subrange(0, 32))),
    {
        let actual = self.report.report_data_binding();
        if !actual.same(expected) {
            let mut m = String::from_str("REPORT_DATA[0:32] mismatch: expected ");
            let e = expected.to_string();
            m.append(e.as_str());
            m.append(", got ");
            let a = actual.to_string();
            m.append(a.as_str());
            return Err(VerificationError::NonceVerificationFailed(m));
        }
        Ok(())
    }

    /// Checks the debug policy: a debug-enabled guest passes only where debug is allowed.
    pub fn verify_debug(&self, debug_allowed: bool) -> (r: Result<(), VerificationError>)
        ensures
            r == if (self.report.policy & 0x8_0000 != 0) && !debug_allowed {
                Err::<(), VerificationError>(VerificationError::DebugNotAllowed)
            } else {
                Ok(())
            },
    {
        if self.report.is_debug() && !debug_allowed {
            return Err(VerificationError::DebugNotAllowed);
        }
        Ok(())
    }

    /// Checks the reported TCB against the minimum: bootloader, TEE, SNP,
    /// then microcode SVN; a missing value counts as 0.
    pub fn verify_tcb(&self, minimum: &SnpMinimumTcb) -> (r: Result<(), VerificationError>)
        ensures
            match snp_tcb_violation(self.claims, *minimum) {
                None => r is Ok,
                Some(m) => r matches Err(VerificationError::TcbOutdated(t)) && t@ == m,
            },
    {
        svn_check("bootloader_svn", &self.claims, "reported_tcb_bootloader", minimum.bootloader_svn)?;
        svn_check("tee_svn", &self.claims, "reported_tcb_tee", minimum.tee_svn)?;
        svn_check("snp_svn", &self.claims, "reported_tcb_snp", minimum.snp_svn)?;
        svn_check("microcode_svn", &self.claims, "reported_tcb_microcode", minimum.microcode_svn)
    }

    /// Checks the platform constraints. Only the SMT requirement is
    /// enforced; the VMPL and chip ID constraints are accepted as they are.
    pub fn verify_platform(&self, constraints: &SnpPlatformConstraints) -> (r: Result<(), VerificationError>)
        ensures
            smt_violation(self.claims, *constraints) ==> (r matches Err(VerificationError::PlatformConstraint(m))
                && m@ == "SMT (Simultaneous Multi-Threading) must be disabled"@),
            !smt_violation(self.claims, *constraints) ==> r is Ok,
    {
        if let Some(true) = constraints.require_smt_disabled {
            let smt_enabled = match self.claims.bool_at("platform_smt_enabled") {
                Some(b) => b,
                None => false,
            };
            if smt_enabled {
                return Err(VerificationError::PlatformConstraint(
                    String::from_str("SMT (Simultaneous Multi-Threading) must be disabled"),
                ));
            }
        }
        Ok(())
    }

    /// Checks the report's measurement hash against the one computed from
    /// the trusted measurement and host data (hex).
    pub fn verify_measurements(&self, trusted: &SnpMeasurement) -> (r: Result<(), VerificationError>)
        ensures
            match trusted_snp_input(*trusted) {
                Err(m) => r matches Err(VerificationError::ParseError(t)) && t@ == m,
                Ok(bytes) => {
                    let expected = hex_encode_spec(spec_sha256(bytes));
                    if expected == snp_measurement_hash(self.report) {
                        r is Ok
                    } else {
                        r matches Err(VerificationError::MeasurementMismatch { expected: x, actual: y })
                            && x@ == expected && y@ == snp_measurement_hash(self.report)
                    }
                },
            },
    {
        let measurement = match hex::decode(trusted.measurement.as_str()) {
            Ok(b) => b,
            Err(e) => {
                let t = e.to_string();
                return Err(VerificationError::ParseError(concat_str("Invalid trusted measurement hex: ", t.as_str())));
            },
        };
        let mut data: Vec<u8> = Vec::new();
        append_bytes(&mut data, measurement.as_slice());
        if let Some(h) = &trusted.host_data {
            let host = match hex::decode(h.as_str()) {
                Ok(b) => b,
                Err(e) => {
                    let t = e.to_string();
                    return Err(VerificationError::ParseError(concat_str("Invalid trusted host_data hex: ", t.as_str())));
                },
            };
            if !all_zero(host.as_slice()) {
                append_bytes(&mut data, host.as_slice());
            }
            assert(data@ =~= snp_hash_input(measurement@, host@));
        }
        let digest = sha256(data.as_slice());
        let expected_hash = hex::encode(digest.as_slice());
        let actual_hash = self.report.measurement_hash();
        if actual_hash != expected_hash {
            return Err(VerificationError::MeasurementMismatch { expected: expected_hash, actual: actual_hash });
        }
        Ok(())
    }

    /// The platform-independent form of the verified report.
    pub fn into_parsed_attestation(self) -> (r: ParsedAttestation)
        ensures
            r.tee == Tee::Snp,
            r.instance_id@ == self.report.report_id@,
            r.measurement_hash@ == snp_measurement_hash(self.report),
            r.claims == self.claims,
            r.tcb_status == self.tcb_status,
    {
        let instance_id = self.report.instance_id();
        let measurement_hash = self.report.measurement_hash();
        ParsedAttestation {
            tee: Tee::Snp,
            instance_id,
            measurement_hash,
            claims: self.claims,
            tcb_status: self.tcb_status,
        }
    }
}

} // verus!
