use base64::Engine;
use sha2::{Digest, Sha256};
use tee_guardian::bytes::{Bytes32, Bytes48, Bytes64};
use tee_guardian::errors::VerificationError;
use tee_guardian::evidence::{detect_tee_type, measurement_hash_from_json};
use tee_guardian::json::{JsonNumber, JsonValue};
use tee_guardian::snp::SnpReport;
use tee_guardian::tdx::{TdAttributes, TdxQuote};
use tee_guardian::tee::Tee;

fn obj(members: Vec<(&str, JsonValue)>) -> JsonValue {
    JsonValue::Object(members.into_iter().map(|(k, v)| (k.to_string(), v)).collect())
}

fn s(v: &str) -> JsonValue {
    JsonValue::String(v.to_string())
}

fn sha_hex(parts: &[&[u8]]) -> String {
    let mut h = Sha256::new();
    for p in parts {
        h.update(p);
    }
    hex::encode(h.finalize())
}

fn snp_evidence(host_data: &str, policy: u64) -> JsonValue {
    obj(vec![(
        "attestation_report",
        obj(vec![
            ("report_id", s(&"11".repeat(32))),
            ("report_data", s(&"22".repeat(64))),
            ("measurement", s(&"aa".repeat(48))),
            ("host_data", s(host_data)),
            ("policy", JsonValue::Number(JsonNumber::PosInt(policy))),
        ]),
    )])
}

fn raw_tdx_quote(td_attributes: u64) -> Vec<u8> {
    let mut q = vec![0u8; 632];
    q[0] = 4;
    q[168..176].copy_from_slice(&td_attributes.to_le_bytes());
    for (i, b) in [0xAAu8, 0xBB, 0xCC, 0xDD].iter().enumerate() {
        let start = 48 + 328 + 48 * i;
        q[start..start + 48].copy_from_slice(&[*b; 48]);
    }
    q[568..600].copy_from_slice(&[0x01; 32]);
    q[600..632].copy_from_slice(&[0x02; 32]);
    q
}

#[test]
fn test_td_attributes_debug_flag() {
    let attrs_debug = TdAttributes::from_bytes([0x01, 0x00, 0x00, 0x00, 0x00, 0x00, 0x00, 0x00]);
    assert!(attrs_debug.is_debug());

    let attrs_nodebug = TdAttributes::from_bytes([0x00, 0x00, 0x00, 0x00, 0x00, 0x00, 0x00, 0x00]);
    assert!(!attrs_nodebug.is_debug());
}

#[test]
fn test_td_attributes_multiple_flags() {
    let attrs = TdAttributes::from_raw(TdAttributes::DEBUG | TdAttributes::MIGRATABLE);
    assert!(attrs.is_debug());
    assert!(attrs.is_migratable());
    assert!(!attrs.is_perfmon_enabled());
}

#[test]
fn test_td_attributes_from_bytes() {
    let bytes = [0x01, 0x00, 0x00, 0x00, 0x00, 0x00, 0x00, 0x00];
    let attrs = TdAttributes::from_bytes(bytes);
    assert!(attrs.is_debug());
    assert_eq!(attrs.as_raw(), 1);
}

#[test]
fn test_td_attributes_roundtrip() {
    let original = TdAttributes::from_raw(0x12345678_9ABCDEF0);
    let bytes = original.as_bytes();
    let restored = TdAttributes::from_bytes(bytes);
    assert_eq!(original, restored);
}

#[test]
fn test_td_attributes_debug_format() {
    let attrs = TdAttributes::from_raw(TdAttributes::DEBUG | TdAttributes::PKS);
    let debug_str = attrs.debug_text();
    assert!(debug_str.contains("DEBUG"));
    assert!(debug_str.contains("PKS"));
    assert_eq!(debug_str, "TdAttributes(0x0000000010000001 [DEBUG|PKS])");
    assert_eq!(TdAttributes::from_raw(0).debug_text(), "TdAttributes(0x0000000000000000)");
    assert_eq!(TdAttributes::from_raw(0x10).to_string(), "0x0000000000000010");
}

#[test]
fn td_attribute_flags() {
    let all = TdAttributes::from_raw(
        TdAttributes::SEPT_VE_DISABLE | TdAttributes::KL | TdAttributes::PERFMON | TdAttributes::PKS,
    );
    assert!(all.is_sept_ve_disabled());
    assert!(all.is_key_locker_enabled());
    assert!(all.is_perfmon_enabled());
    assert!(all.is_pks_enabled());
    assert!(!all.is_debug());
    assert!(all.is_set(TdAttributes::KL));
    assert_eq!(all.debug_text(), "TdAttributes(0x00000000d0000010 [SEPT_VE_DISABLE|PKS|KL|PERFMON])");
}

#[test]
fn test_measurement_hash_computation() {
    let quote = TdxQuote::parse_raw(raw_tdx_quote(0)).unwrap();
    let expected = sha_hex(&[&[0xAA; 48], &[0xBB; 48], &[0xCC; 48], &[0xDD; 48]]);
    assert_eq!(quote.measurement_hash(), expected);
    assert_eq!(quote.version(), 4);
    assert_eq!(quote.report_data_binding(), Bytes32::from([0x01; 32]));
    assert_eq!(quote.instance_id().as_bytes(), &[0x02; 32]);
    assert!(!quote.is_debug());
    assert_eq!(quote.rtmrs()[1], Bytes48::from([0xBB; 48]));
}

#[test]
fn tdx_quote_size_and_version_errors() {
    assert_eq!(
        TdxQuote::parse_raw(vec![4u8; 10]).unwrap_err(),
        VerificationError::InvalidQuoteFormat("Quote too short: 10 bytes (minimum 632)".into())
    );
    let mut q = raw_tdx_quote(1);
    q[0] = 3;
    assert_eq!(
        TdxQuote::parse_raw(q).unwrap_err(),
        VerificationError::InvalidQuoteFormat("Unsupported TDX quote version: 3".into())
    );
    let mut q5 = raw_tdx_quote(1);
    q5[0] = 5;
    assert_eq!(
        TdxQuote::parse_raw(q5).unwrap_err(),
        VerificationError::InvalidQuoteFormat("Quote too short for body".into())
    );
    assert!(TdxQuote::parse_raw(raw_tdx_quote(1)).unwrap().is_debug());
}

#[test]
fn test_detect_tee_type_tdx() {
    let evidence = obj(vec![("quote", s("base64data"))]);
    assert_eq!(detect_tee_type(&evidence), Some(Tee::Tdx));
}

#[test]
fn test_detect_tee_type_snp() {
    let evidence = obj(vec![("attestation_report", obj(vec![]))]);
    assert_eq!(detect_tee_type(&evidence), Some(Tee::Snp));
}

#[test]
fn test_detect_tee_type_unknown() {
    let evidence = obj(vec![("unknown", s("data"))]);
    assert_eq!(detect_tee_type(&evidence), None);
    assert_eq!(
        measurement_hash_from_json(&evidence).unwrap_err(),
        VerificationError::InvalidQuoteFormat("Cannot detect TEE type".into())
    );
}

#[test]
fn tdx_evidence_measurement_hash() {
    let raw = raw_tdx_quote(0);
    let b64 = base64::engine::general_purpose::STANDARD.encode(&raw);
    let evidence = obj(vec![("quote", s(&b64))]);
    let expected = sha_hex(&[&[0xAA; 48], &[0xBB; 48], &[0xCC; 48], &[0xDD; 48]]);
    assert_eq!(measurement_hash_from_json(&evidence).unwrap(), expected);
}

#[test]
fn test_measurement_hash_with_host_data() {
    let with_host = SnpReport::from_json(&snp_evidence(&"bb".repeat(32), 0)).unwrap();
    let without_host = SnpReport::from_json(&snp_evidence(&"00".repeat(32), 0)).unwrap();
    assert_ne!(with_host.measurement_hash(), without_host.measurement_hash());
    assert_eq!(with_host.measurement_hash(), sha_hex(&[&[0xAA; 48], &[0xBB; 32]]));
}

#[test]
fn test_measurement_hash_zero_host_data() {
    let report = SnpReport::from_json(&snp_evidence(&"00".repeat(32), 0)).unwrap();
    assert_eq!(report.measurement_hash(), sha_hex(&[&[0xAA; 48]]));
}

#[test]
fn test_debug_flag_policy() {
    let debug_policy: u64 = 1 << 19;
    assert!(debug_policy & (1 << 19) != 0);
    let nodebug_policy: u64 = 0;
    assert!(nodebug_policy & (1 << 19) == 0);

    let debug = SnpReport::from_json(&snp_evidence(&"00".repeat(32), debug_policy)).unwrap();
    assert!(debug.is_debug());
    let nodebug = SnpReport::from_json(&snp_evidence(&"00".repeat(32), nodebug_policy)).unwrap();
    assert!(!nodebug.is_debug());
}

#[test]
fn snp_report_fields() {
    let report = SnpReport::from_json(&snp_evidence(&"00".repeat(32), 7)).unwrap();
    assert_eq!(report.instance_id().as_bytes(), &[0x11; 32]);
    assert_eq!(report.report_data(), &Bytes64::from([0x22; 64]));
    assert_eq!(report.report_data_binding(), Bytes32::from([0x22; 32]));
    assert_eq!(report.policy(), 7);
}

#[test]
fn snp_missing_report_and_bad_field() {
    let missing = obj(vec![("other", s("x"))]);
    assert_eq!(
        SnpReport::from_json(&missing).unwrap_err(),
        VerificationError::InvalidQuoteFormat("Missing 'attestation_report' field in SEV-SNP evidence".into())
    );
    let short = obj(vec![(
        "attestation_report",
        obj(vec![("report_id", s("1111"))]),
    )]);
    assert_eq!(
        SnpReport::from_json(&short).unwrap_err(),
        VerificationError::ParseError("report_id length mismatch: expected 32, got 2".into())
    );
}

#[test]
fn bytes_text_forms() {
    let b = Bytes32::from([0xAB; 32]);
    assert_eq!(b.to_string(), format!("0x{}", "ab".repeat(32)));
    assert_eq!(Bytes32::from_hex(&b.to_hex()).unwrap(), b);
    assert_eq!(Bytes48::from_hex(&"2a".repeat(48)).unwrap(), Bytes48([42u8; 48]));
    assert_eq!(Bytes64::from_hex(&"00".repeat(64)).unwrap(), Bytes64([0u8; 64]));
    assert!(Bytes48::from_hex(&"00".repeat(47)).is_err());
}

#[test]
fn td_attributes_are_read_at_body_offset_120() {
    // v4: the body starts at 48, so TD_ATTRIBUTES is at 168.
    let mut q = vec![0u8; 632];
    q[0] = 4;
    q[48 + 120] = 0x01;
    let t = TdxQuote::parse_raw(q).unwrap();
    assert_eq!(t.version(), 4);
    assert_eq!(t.td_attributes().as_raw(), 1);
    assert!(t.is_debug());
    assert!(t.instance_id().is_zero());
    // A byte inside MR_SEAM (body offset 32) is not TD_ATTRIBUTES.
    let mut q = vec![0u8; 632];
    q[0] = 4;
    q[48 + 32] = 0x01;
    assert!(!TdxQuote::parse_raw(q).unwrap().is_debug());
    // v5: the body starts at 54.
    let mut q = vec![0u8; 638];
    q[0] = 5;
    q[54 + 120..54 + 128].copy_from_slice(&0x10000000u64.to_le_bytes());
    assert_eq!(TdxQuote::parse_raw(q).unwrap().td_attributes().as_raw(), 0x10000000);
}
