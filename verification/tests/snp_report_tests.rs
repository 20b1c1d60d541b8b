use tee_guardian::certificates::{pem_markers_check, QuoteSignatureError};
use tee_guardian::json::{JsonNumber, JsonValue};
use tee_guardian::quote_certs::{pem_bytes_check, quote_pems_check};
use tee_guardian::snp_report::{
    cert_chain_pems, cert_parse_error_lines, cert_title, print_field, print_hex_field, print_measurement, print_policy,
    print_raw_report, print_report_header, print_tcb_status, report_cuts_check,
};
use tee_guardian::text::{prefix_cut_check, suffix_cut_check, utf8_len_of};

fn obj(members: Vec<(&str, JsonValue)>) -> JsonValue {
    JsonValue::Object(members.into_iter().map(|(k, v)| (k.to_string(), v)).collect())
}

fn s(v: &str) -> JsonValue {
    JsonValue::String(v.to_string())
}

fn n(v: u64) -> JsonValue {
    JsonValue::Number(JsonNumber::PosInt(v))
}

#[test]
fn tcb_status_line_lists_components() {
    let claims = obj(vec![
        ("reported_tcb_bootloader", n(3)),
        ("reported_tcb_tee", n(0)),
        ("reported_tcb_snp", n(8)),
        ("reported_tcb_microcode", n(115)),
    ]);
    assert_eq!(print_tcb_status(&claims), "tcb_status:     bootloader=3, tee=0, snp=8, microcode=115");
    assert_eq!(print_tcb_status(&JsonValue::Null), "tcb_status:     bootloader=0, tee=0, snp=0, microcode=0");
}

#[test]
fn plain_fields_show_numbers_and_text() {
    let o = obj(vec![("version", n(2)), ("name", s("abc")), ("flag", JsonValue::Bool(true))]);
    assert_eq!(print_field(&o, "version", "version").unwrap(), "version:       2");
    assert_eq!(print_field(&o, "name", "sig_algo").unwrap(), "sig_algo:      abc");
    assert!(print_field(&o, "flag", "flag").is_none());
    assert!(print_field(&o, "missing", "missing").is_none());
}

#[test]
fn hex_fields_are_shortened() {
    let long: String = (0..70).map(|i| char::from(b'a' + (i % 26) as u8)).collect();
    let o = obj(vec![
        ("short", s("abcd")),
        ("long", s(&long)),
        ("num", n(0x30000)),
        ("bytes", JsonValue::Array(vec![n(1), n(2), n(255), n(256), s("x")])),
    ]);
    assert_eq!(print_hex_field(&o, "short", "short").unwrap(), "short:         abcd");
    assert_eq!(
        print_hex_field(&o, "long", "long").unwrap(),
        format!("long:          {}...{}", &long[..32], &long[38..])
    );
    assert_eq!(print_hex_field(&o, "num", "policy").unwrap(), "policy:        0x30000");
    assert_eq!(print_hex_field(&o, "bytes", "bytes").unwrap(), "bytes:         0102ff00");
    assert!(print_hex_field(&o, "missing", "x").is_none());
}

#[test]
fn policy_flags_decode_bits() {
    let evidence = obj(vec![("attestation_report", obj(vec![("policy", n(0x0903f0)), ("vmpl", n(1))]))]);
    let claims = obj(vec![("platform_smt_enabled", JsonValue::Bool(false))]);
    let lines = print_policy(&evidence, &claims);
    assert_eq!(
        lines,
        vec![
            "".to_string(),
            "── Policy Flags ──".to_string(),
            "DEBUG:         true".to_string(),
            "DEBUG_ALLOWED: false".to_string(),
            "SMT_ALLOWED:   true".to_string(),
            "MIGRATE_MA:    true".to_string(),
            "SINGLE_SOCKET: false".to_string(),
            "ABI_VERSION:   3.0".to_string(),
            "SMT_ENABLED:   false".to_string(),
            "VMPL:          1".to_string(),
        ]
    );
    assert!(print_policy(&obj(vec![]), &claims).is_empty());
}

#[test]
fn measurement_hash_covers_host_data_when_set() {
    let zeros48 = "00".repeat(48);
    let evidence = obj(vec![(
        "attestation_report",
        obj(vec![("measurement", s(&zeros48)), ("host_data", s(&"00".repeat(32)))]),
    )]);
    let lines = print_measurement(&evidence);
    assert_eq!(lines[1], "── Measurement ──");
    assert_eq!(lines[2], format!("measurement:   {}...{}", &zeros48[..32], &zeros48[64..]));
    assert_eq!(lines[4], "meas_hash:     17b0761f87b081d5cf10757ccc89f12be355c70e2e29df288b65b30710dcbcd1");
    assert_eq!(lines[6], "── Identity ──");

    let mut host = vec![1u64];
    host.extend(std::iter::repeat(0).take(31));
    let evidence = obj(vec![(
        "attestation_report",
        obj(vec![("measurement", s(&zeros48)), ("host_data", JsonValue::Array(host.into_iter().map(n).collect()))]),
    )]);
    let lines = print_measurement(&evidence);
    assert_eq!(lines[4], "meas_hash:     ad55a0f332a90f91ec46d11b572b0eb088d7bf27f3bde62d1b0c3701bad259e2");
}

#[test]
fn missing_report_is_noted() {
    let lines = print_report_header(&obj(vec![]));
    assert_eq!(lines, vec!["(attestation_report not found in evidence)".to_string()]);
    assert!(print_measurement(&obj(vec![])).is_empty());
    assert!(print_raw_report(&obj(vec![]), "null").is_empty());
}

#[test]
fn report_header_lists_fields() {
    let evidence = obj(vec![(
        "attestation_report",
        obj(vec![("version", n(2)), ("guest_svn", n(0)), ("policy", n(0x30000)), ("vmpl", n(0))]),
    )]);
    assert!(report_cuts_check(&evidence));
    assert_eq!(
        print_report_header(&evidence),
        vec![
            "".to_string(),
            "── Report Header ──".to_string(),
            "version:       2".to_string(),
            "guest_svn:     0".to_string(),
            "policy:        0x30000".to_string(),
            "vmpl:          0".to_string(),
        ]
    );
}

#[test]
fn raw_report_summary() {
    let evidence = obj(vec![("attestation_report", obj(vec![("a", n(1))]))]);
    assert_eq!(
        print_raw_report(&evidence, "{\"a\":1}"),
        vec!["── Raw Report ──".to_string(), "{\"a\":1}...{\"a\":1} (JSON: 7 bytes, binary: 1184 bytes)".to_string()]
    );
}

#[test]
fn chain_sources_and_titles() {
    assert_eq!(cert_chain_pems(&obj(vec![])).unwrap_err(), "(no certificate chain in evidence)");
    assert_eq!(cert_chain_pems(&obj(vec![("cert_chain", n(1))])).unwrap_err(), "(unrecognized cert_chain format)");
    assert_eq!(cert_chain_pems(&obj(vec![("cert_chain", s("nothing here"))])).unwrap_err(), "(no certificates found)");
    let chain = "-----BEGIN CERTIFICATE-----\nAAAA\n-----END CERTIFICATE-----\n-----BEGIN CERTIFICATE-----\nBBBB\n-----END CERTIFICATE-----\n";
    let pems = cert_chain_pems(&obj(vec![("cert_chain", s(chain))])).unwrap();
    assert_eq!(pems.len(), 2);
    assert_eq!(pems[1], "-----BEGIN CERTIFICATE-----\nBBBB-----END CERTIFICATE-----");
    let listed = cert_chain_pems(&obj(vec![("cert_chain", JsonValue::Array(vec![s("one"), n(2), s("two")]))])).unwrap();
    assert_eq!(listed, vec!["one".to_string(), "two".to_string()]);
    assert_eq!(cert_title(0, 3), "── 1 VCEK (Leaf) ──");
    assert_eq!(cert_title(1, 3), "── 2 Intermediate ──");
    assert_eq!(cert_title(2, 3), "── 3 Root CA ──");
}

#[test]
fn parse_error_lines_show_preview() {
    let pem = "x".repeat(70);
    let lines = cert_parse_error_lines(&QuoteSignatureError::CertificateError("Invalid PEM".to_string()), &pem);
    assert_eq!(lines[0], "  Parse error: Certificate parsing error: Invalid PEM");
    assert_eq!(lines[1], format!("  PEM preview: {}...", "x".repeat(60)));
}

#[test]
fn byte_cuts_respect_char_boundaries() {
    assert_eq!(utf8_len_of("héllo"), 6);
    assert!(!prefix_cut_check("héllo", 2));
    assert!(prefix_cut_check("héllo", 3));
    assert!(prefix_cut_check("héllo", 40));
    assert!(!suffix_cut_check("héllo", 4));
    assert!(suffix_cut_check("héllo", 5));
    let long_bad = format!("{}é{}", "a".repeat(31), "b".repeat(40));
    let o = obj(vec![("attestation_report", obj(vec![("chip_id", s(&long_bad))]))]);
    assert!(!report_cuts_check(&o));
}

#[test]
fn pem_marker_order_checks() {
    assert!(pem_markers_check("-----BEGIN CERTIFICATE-----\nAA\n-----END CERTIFICATE-----"));
    assert!(!pem_markers_check("-----END CERTIFICATE----------BEGIN CERTIFICATE-----"));
    assert!(pem_markers_check("no markers"));
    assert!(pem_bytes_check(b"-----BEGIN CERTIFICATE-----\nAA\n-----END CERTIFICATE-----\n"));
    assert!(pem_bytes_check(&[0xff, 0xfe]));
    assert!(quote_pems_check(&[0u8; 10], 0));
}
