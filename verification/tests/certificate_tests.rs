use tee_guardian::certificates::{
    decode_extension_value, is_reserved_namespace, is_tee_oid, locate_pem_data, parse_signature_layout, pem_to_der,
    split_pem_chain, tee_extensions_of, tee_oid_name, tee_platform, CertDataType, QuoteSignatureError, TeePlatform,
};
use tee_guardian::json::JsonValue;
use tee_guardian::quote_certs::{calculate_sig_offset, pick_algorithm_name, parse_certificate_der, parse_certificate_pem, parse_quote_signature};
use tee_guardian::records::{Certificate, CertificateStatus, IssuedCertificate, NamespaceConfig, RevocationReason};
use tee_guardian::report::{cert_chain_label, print_claims, raw_quote_summary};

#[test]
fn test_platform_detection() {
    assert!(is_tee_oid("1.2.840.113741.1.13.1.4"));
    assert!(is_tee_oid("1.3.6.1.4.1.3704.1.4"));
    assert!(!is_tee_oid("2.5.29.14"));
}

#[test]
fn tee_platform_and_names() {
    assert_eq!(tee_platform("1.2.840.113741.1.13.1.4"), Some(TeePlatform::Intel));
    assert_eq!(tee_platform("1.3.6.1.4.1.3704.1.3.3"), Some(TeePlatform::Amd));
    assert_eq!(tee_platform("2.5.29.14"), None);
    assert_eq!(tee_oid_name("1.2.840.113741.1.13.1.4"), "FMSPC");
    assert_eq!(tee_oid_name("1.3.6.1.4.1.3704.1.3.3"), "SnpSpl");
    assert_eq!(tee_oid_name("1.2.840.113741.1.13.1.9"), "OID(1.2.840.113741.1.13.1.9)");
    assert_eq!(TeePlatform::Amd.to_string(), "AMD");
}

#[test]
fn reserved_namespace() {
    assert!(is_reserved_namespace("guardian"));
    assert!(!is_reserved_namespace("k8s-prod"));
}

#[test]
fn cert_data_types() {
    assert_eq!(CertDataType::from_u16(5), Some(CertDataType::PckCertChain));
    assert_eq!(CertDataType::from_u16(0), None);
    assert_eq!(CertDataType::from_u16(8), None);
    assert_eq!(CertDataType::QeReportCertData.as_u16(), 6);
    assert_eq!(CertDataType::QeReportCertData.to_string(), "QE Report + Certs");
}

#[test]
fn extension_values() {
    assert_eq!(decode_extension_value(&[0x02, 0x02, 0x01, 0x00]), "256");
    assert_eq!(decode_extension_value(&[0x04, 0x02, 0xab, 0xcd]), "abcd");
    assert_eq!(decode_extension_value(&[0x0c, 0x05, b'M', b'i', b'l', b'a', b'n']), "Milan");
    assert_eq!(decode_extension_value(&[0x30, 0x01, 0xff]), "3001ff");
    let exts = vec![
        ("2.5.29.14".to_string(), vec![0x04, 0x01, 0x01]),
        ("1.3.6.1.4.1.3704.1.2".to_string(), vec![0x16, 0x05, b'M', b'i', b'l', b'a', b'n']),
    ];
    let tee = tee_extensions_of(&exts);
    assert_eq!(tee.len(), 1);
    assert_eq!(tee[0].name, "Product");
    assert_eq!(tee[0].value, "Milan");
    assert_eq!(tee[0].platform, TeePlatform::Amd);
    assert_eq!(tee[0].to_string(), "Product (1.3.6.1.4.1.3704.1.2): Milan");
}

#[test]
fn pem_chain_splitting() {
    let chain = "-----BEGIN CERTIFICATE-----\nAAAA\n-----END CERTIFICATE-----\n  -----BEGIN CERTIFICATE-----\nAQID\n-----END CERTIFICATE-----\n";
    let certs = split_pem_chain(chain);
    assert_eq!(certs.len(), 2);
    assert_eq!(certs[1], "-----BEGIN CERTIFICATE-----\nAQID-----END CERTIFICATE-----");
    assert_eq!(pem_to_der(&certs[0]), Some(vec![0, 0, 0]));
    assert_eq!(pem_to_der(&certs[1]), Some(vec![1, 2, 3]));
    assert_eq!(pem_to_der("no markers"), None);
}

#[test]
fn certificate_parse_errors() {
    match parse_certificate_der(&[1, 2, 3]) {
        Err(QuoteSignatureError::CertificateError(m)) => assert!(m.starts_with("Parse error: ")),
        _ => panic!("garbage parsed as a certificate"),
    }
    match parse_certificate_pem("not a certificate") {
        Err(QuoteSignatureError::CertificateError(m)) => assert_eq!(m, "Invalid PEM"),
        _ => panic!("missing PEM accepted"),
    }
}

fn signature_data(cert_type: u16, cert_data: &[u8]) -> Vec<u8> {
    let mut content = Vec::new();
    content.extend_from_slice(&[0x11; 64]);
    content.extend_from_slice(&[0x22; 64]);
    content.extend_from_slice(&cert_type.to_le_bytes());
    content.extend_from_slice(&(cert_data.len() as u32).to_le_bytes());
    content.extend_from_slice(cert_data);
    let mut out = (content.len() as u32).to_le_bytes().to_vec();
    out.extend_from_slice(&content);
    out
}

#[test]
fn quote_signature_layout() {
    let mut quote = vec![0u8; 10];
    quote.extend_from_slice(&signature_data(7, &[9, 9]));
    let sig = parse_quote_signature(&quote, 10).unwrap();
    assert_eq!(sig.signature, vec![0x11; 64]);
    assert_eq!(sig.attest_pub_key, vec![0x22; 64]);
    assert_eq!(sig.cert_data_type, Some(CertDataType::PlatformManifest));
    assert_eq!(sig.cert_data_size, 2);
    let chain = sig.cert_chain.unwrap();
    assert_eq!(chain.data_type, CertDataType::PlatformManifest);
    assert!(chain.certs.is_empty());

    let layout = parse_signature_layout(&quote, 10).unwrap();
    assert_eq!(layout.cert_data, Some(vec![9, 9]));
}

#[test]
fn quote_signature_errors() {
    match parse_quote_signature(&[0u8; 3], 0) {
        Err(QuoteSignatureError::TooShort(m)) => assert_eq!(m, "Quote too short for signature"),
        _ => panic!(),
    }
    let mut truncated = signature_data(5, &[]);
    truncated.truncate(100);
    match parse_quote_signature(&truncated, 0) {
        Err(QuoteSignatureError::TooShort(m)) => assert_eq!(m, "Signature data truncated"),
        _ => panic!(),
    }
    let small = [10u8, 0, 0, 0, 1, 2, 3, 4, 5, 6, 7, 8, 9, 10];
    match parse_quote_signature(&small, 0) {
        Err(QuoteSignatureError::TooShort(m)) => assert_eq!(m, "Signature content too short"),
        _ => panic!(),
    }
}

#[test]
fn pem_chain_in_signature_data() {
    let pem = b"-----BEGIN CERTIFICATE-----\nAQID\n-----END CERTIFICATE-----\n";
    let quote = signature_data(5, pem);
    let sig = parse_quote_signature(&quote, 0).unwrap();
    let chain = sig.cert_chain.unwrap();
    assert_eq!(chain.data_type, CertDataType::PckCertChain);
    // The DER bytes 01 02 03 are no certificate, so the chain keeps none.
    assert!(chain.certs.is_empty());

    let bad_utf8 = signature_data(5, &[0xff, 0xfe]);
    assert!(parse_quote_signature(&bad_utf8, 0).unwrap().cert_chain.is_none());
}

#[test]
fn qe_report_certification_data() {
    let mut data = vec![0u8; 448];
    data.extend_from_slice(&2u16.to_le_bytes());
    data.extend_from_slice(&[7, 7]);
    data.extend_from_slice(&5u16.to_le_bytes());
    data.extend_from_slice(&3u32.to_le_bytes());
    data.extend_from_slice(b"abc");
    match locate_pem_data(CertDataType::QeReportCertData, &data) {
        Ok(Some((t, pem))) => {
            assert_eq!(t, CertDataType::PckCertChain);
            assert_eq!(pem, b"abc".to_vec());
        }
        _ => panic!("nested data not found"),
    }
    match locate_pem_data(CertDataType::QeReportCertData, &data[..100]) {
        Err(QuoteSignatureError::CertificateError(m)) => assert_eq!(m, "QE Report data too short"),
        _ => panic!(),
    }
    assert!(matches!(locate_pem_data(CertDataType::PpidPlaintext, &data), Ok(None)));
}

#[test]
fn signature_offsets() {
    assert_eq!(calculate_sig_offset(&[0u8; 10]), 0);
    let mut v4 = vec![0u8; 64];
    v4[0] = 4;
    assert_eq!(calculate_sig_offset(&v4), 632);
    let mut v5 = vec![0u8; 64];
    v5[0] = 5;
    v5[48] = 3;
    assert_eq!(calculate_sig_offset(&v5), 702);
    v5[48] = 2;
    assert_eq!(calculate_sig_offset(&v5), 638);
    assert_eq!(calculate_sig_offset(&v5[..50]), 0);
    let mut v9 = vec![0u8; 64];
    v9[0] = 9;
    assert_eq!(calculate_sig_offset(&v9), 632);
}

#[test]
fn namespace_defaults() {
    let c = NamespaceConfig::default();
    assert_eq!(c.cert_validity_days, 365);
    assert_eq!(c.max_active_certs, 100);
    assert!(c.measurement_registry_url.is_none());
    assert!(c.description.is_none());
}

#[test]
fn certificate_view_of_issued() {
    let issued = IssuedCertificate {
        serial: 9,
        namespace: "k8s".into(),
        measurement_id: [0xab; 32],
        common_name: "node".into(),
        not_before: 1,
        not_after: 2,
        issued_at: 1,
        status: CertificateStatus::Revoked { revoked_at: 5, reason: RevocationReason::KeyCompromise },
        certificate_der: vec![],
    };
    let c = Certificate::from_issued(&issued);
    assert_eq!(c.status, "revoked");
    assert_eq!(c.revoked_at, Some(5));
    assert_eq!(c.revocation_reason.as_deref(), Some("KeyCompromise"));
    assert_eq!(c.measurement_id, "ab".repeat(32));
    let active = IssuedCertificate { status: CertificateStatus::Active, ..issued };
    let c = Certificate::from_issued(&active);
    assert_eq!(c.status, "active");
    assert_eq!(c.revoked_at, None);
    assert_eq!(c.revocation_reason, None);
}

fn obj(members: Vec<(&str, JsonValue)>) -> JsonValue {
    JsonValue::Object(members.into_iter().map(|(k, v)| (k.to_string(), v)).collect())
}

#[test]
fn claims_report_lines() {
    let claims = obj(vec![
        ("tcb_status", JsonValue::String("UpToDate".into())),
        ("advisory_ids", JsonValue::Array(vec![JsonValue::String("INTEL-SA-1".into()), JsonValue::String("INTEL-SA-2".into())])),
        ("quote", obj(vec![("header", obj(vec![("version", JsonValue::String("0400".into()))]))])),
        ("td_attributes", obj(vec![("debug", JsonValue::Bool(false))])),
    ]);
    let lines = print_claims(&claims);
    assert_eq!(
        lines,
        vec![
            "tcb_status:     UpToDate".to_string(),
            "advisory_ids:   INTEL-SA-1, INTEL-SA-2".to_string(),
            String::new(),
            "── Quote Header ──".to_string(),
            format!("{:14} {}", "version:", "0400"),
            String::new(),
            "── TD Attributes ──".to_string(),
            "DEBUG:          false".to_string(),
        ]
    );
    assert!(print_claims(&JsonValue::Null).is_empty());
}

#[test]
fn chain_labels_and_quote_summary() {
    assert_eq!(cert_chain_label(0, 3), "PCK (Leaf)");
    assert_eq!(cert_chain_label(1, 3), "Intermediate");
    assert_eq!(cert_chain_label(2, 3), "Root CA");
    assert_eq!(raw_quote_summary(&[0xab, 0xcd]), "abcd...abcd (2 bytes)");
    let long = vec![0x11u8; 30];
    assert_eq!(raw_quote_summary(&long), format!("{}...{} (30 bytes)", "1".repeat(40), "1".repeat(40)));
}

fn test_cert_der() -> Vec<u8> {
    let parts = [
        "308201a63082014ca00302010202030102a0300a06082a8648ce3d04030230223111300f06035504030c085345562d56",
        "43454b310d300b060355040a0c0454657374301e170d3236313131373232343935385a170d3336313131343232343935",
        "385a30223111300f06035504030c085345562d5643454b310d300b060355040a0c04546573743059301306072a8648ce",
        "3d020106082a8648ce3d030107034200046e7af3873e0e80cc6e3b337a879d28099ac2d99bede5f5b9bd598a7af5b6eb",
        "a6c45791120c758467a7357b00048c2dd67b14a480da95bd02771846f28c407672a371306f300f0603551d130101ff04",
        "0530030101ff301d0603551d0e041604144e22523d2d57893c275c4202c73da7269b879eaf301706092b060104019c78",
        "0102040a16084d696c616e2d42303011060a2b060104019c780103030403020108301106092b060104019c7801040404",
        "0402abcd300a06082a8648ce3d0403020348003045022068c1e7221b149a5df51a9849d1594675ba63fbdb824fd1ef2b",
        "86225be0fbfd86022100d825d6f4658a676cbc1c26ade70cb62ab9c4df1db382a9da8c97d82425d9c478",
    ];
    hex::decode(parts.concat()).unwrap()
}

fn test_cert_pem() -> String {
    let lines = [
        "-----BEGIN CERTIFICATE-----",
        "MIIBpjCCAUygAwIBAgIDAQKgMAoGCCqGSM49BAMCMCIxETAPBgNVBAMMCFNFVi1W",
        "Q0VLMQ0wCwYDVQQKDARUZXN0MB4XDTI2MTExNzIyNDk1OFoXDTM2MTExNDIyNDk1",
        "OFowIjERMA8GA1UEAwwIU0VWLVZDRUsxDTALBgNVBAoMBFRlc3QwWTATBgcqhkjO",
        "PQIBBggqhkjOPQMBBwNCAARuevOHPg6AzG47M3qHnSgJmsLZm+3l9bm9WYp69bbr",
        "psRXkRIMdYRnpzV7AASMLdZ7FKSA2pW9AncYRvKMQHZyo3EwbzAPBgNVHRMBAf8E",
        "BTADAQH/MB0GA1UdDgQWBBROIlI9LVeJPCdcQgLHPacmm4eerzAXBgkrBgEEAZx4",
        "AQIEChYITWlsYW4tQjAwEQYKKwYBBAGceAEDAwQDAgEIMBEGCSsGAQQBnHgBBAQE",
        "BAKrzTAKBggqhkjOPQQDAgNIADBFAiBoweciGxSaXfUamEnRWUZ1umP724JP0e8r",
        "hiJb4Pv9hgIhANgl1vRlimdsvBwmrecMtiq5xN8ds4Kp2oyX2CQl2cR4",
        "-----END CERTIFICATE-----",
    ];
    lines.join("\n")
}

#[test]
fn self_signed_vcek_parses() {
    let der = test_cert_der();
    let cert = parse_certificate_der(&der).unwrap();
    assert_eq!(cert.subject_cn, "SEV-VCEK");
    assert_eq!(cert.issuer_cn, "SEV-VCEK");
    assert_eq!(cert.serial, "0102a0");
    assert!(cert.is_ca);
    assert_eq!(cert.ski.as_deref(), Some("4e22523d2d57893c275c4202c73da7269b879eaf"));
    assert_eq!(cert.aki, None);
    assert_eq!(cert.der_size, 426);
    assert_eq!(cert.key_alg, "id-ecPublicKey");
    assert_eq!(cert.key_bits, 520);
    assert_eq!(cert.sig_alg, "ecdsa-with-SHA256");
    let exts: Vec<(String, String, String)> =
        cert.tee_extensions.iter().map(|e| (e.oid.clone(), e.name.clone(), e.value.clone())).collect();
    assert_eq!(
        exts,
        vec![
            ("1.3.6.1.4.1.3704.1.2".to_string(), "Product".to_string(), "Milan-B0".to_string()),
            ("1.3.6.1.4.1.3704.1.3.3".to_string(), "SnpSpl".to_string(), "8".to_string()),
            ("1.3.6.1.4.1.3704.1.4".to_string(), "HW-ID".to_string(), "abcd".to_string()),
        ]
    );
    assert!(cert.tee_extensions.iter().all(|e| e.platform == TeePlatform::Amd));
    let text = cert.to_string();
    assert!(text.contains("SEV-VCEK"));
    assert!(text.contains("TEE Extensions"));

    let pem = test_cert_pem();
    let from_pem = parse_certificate_pem(&pem).unwrap();
    assert_eq!(from_pem.serial, cert.serial);
    assert_eq!(from_pem.der_size, 426);

    let lines = tee_guardian::snp_report::print_cert_info(&cert);
    assert_eq!(lines[0], "subject:       SEV-VCEK");
    assert_eq!(lines[2], "serial:        0102a0");
    assert_eq!(lines[4], "key:           id-ecPublicKey (520 bits)");
    assert_eq!(lines[6], "is_ca:         true");
    assert_eq!(lines[7], "size:          426 bytes");
    assert_eq!(lines[8], "SKI:           4e22523d2d57893c275c4202c73da726");
    assert_eq!(lines[10], "  TEE Extensions:");
    assert_eq!(lines[11], "    Product      Milan-B0 (AMD)");
}

#[test]
fn algorithm_names_follow_the_tee_registry() {
    // A TEE OID gets the TEE table's short name, registry name or not.
    assert_eq!(pick_algorithm_name(("1.2.840.113741.1.13.1.4".to_string(), None)), "FMSPC");
    assert_eq!(pick_algorithm_name(("1.3.6.1.4.1.3704.1.3.3".to_string(), Some("x".to_string()))), "SnpSpl");
    // Others get the crypto/X.509 short name, else the dotted OID.
    assert_eq!(
        pick_algorithm_name(("1.2.840.10045.4.3.2".to_string(), Some("ecdsa-with-SHA256".to_string()))),
        "ecdsa-with-SHA256"
    );
    assert_eq!(pick_algorithm_name(("1.2.3.4".to_string(), None)), "1.2.3.4");
}
