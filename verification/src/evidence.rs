//! Evidence of either platform: which platform produced it, and its
//! measurement hash.

use vstd::prelude::*;
use vstd::string::*;
use crate::errors::VerificationError;
use crate::json::{JsonValue, json_get};
use crate::snp::{SnpReport, snp_parse_outcome, snp_measurement_hash};
use crate::tdx::{TdxQuote, tdx_evidence_outcome, tdx_measurement_hash};
use crate::tee::Tee;

verus! {

/// The platform of evidence: TDX evidence has a `quote` member, SEV-SNP
/// evidence an `attestation_report` member.
pub open spec fn evidence_tee(ev: JsonValue) -> Option<Tee> {
    if json_get(ev, "quote"@) is Some {
        Some(Tee::Tdx)
    } else if json_get(ev, "attestation_report"@) is Some {
        Some(Tee::Snp)
    } else {
        None
    }
}

/// Tells the platform from the shape of the evidence.
pub fn detect_tee_type(evidence: &JsonValue) -> (r: Option<Tee>)
    ensures
        r == evidence_tee(*evidence),
{
    if evidence.get("quote").is_some() {
        Some(Tee::Tdx)
    } else if evidence.get("attestation_report").is_some() {
        Some(Tee::Snp)
    } else {
        None
    }
}

/// The measurement hash of evidence of either platform, without checking
/// its signature.
pub fn measurement_hash_from_json(evidence: &JsonValue) -> (r: Result<String, VerificationError>)
    ensures
        evidence_tee(*evidence) is None ==> (r matches Err(VerificationError::InvalidQuoteFormat(m))
            && m@ == "Cannot detect TEE type"@),
        evidence_tee(*evidence) == Some(Tee::Tdx) ==> match r {
            Ok(h) => exists|q: TdxQuote| tdx_evidence_outcome(*evidence, Ok(q)) && h@ == tdx_measurement_hash(q),
            Err(e) => tdx_evidence_outcome(*evidence, Err(e)),
        },
        evidence_tee(*evidence) == Some(Tee::Snp) ==> match r {
            Ok(h) => exists|p: SnpReport| snp_parse_outcome(*evidence, Ok(p)) && h@ == snp_measurement_hash(p),
            Err(e) => snp_parse_outcome(*evidence, Err(e)),
        },
{
    match detect_tee_type(evidence) {
        Some(Tee::Tdx) => {
            let quote = TdxQuote::from_json(evidence)?;
            Ok(quote.measurement_hash())
        },
        Some(Tee::Snp) => {
            let report = SnpReport::from_json(evidence)?;
            Ok(report.measurement_hash())
        },
        _ => Err(VerificationError::InvalidQuoteFormat(String::from_str("Cannot detect TEE type"))),
    }
}

} // verus!
