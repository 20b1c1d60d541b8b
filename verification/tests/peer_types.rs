use std::collections::HashSet;
use tee_guardian::bytes::Bytes32;
use tee_guardian::errors::VerificationError;
use tee_guardian::identity::InstanceId;
use tee_guardian::node::{ip_to_node_id, node_id_to_ip, BootstrapNode, Ipv4Addr, PeerState, BlacklistReason, RevokedReason};
use tee_guardian::tee::{PeerRegistryEvent, Tee, TeeRecord, TeeState};

#[test]
fn test_status_codes() {
    assert_eq!(VerificationError::AttestationFailed("x".into()).status_code(), 400);
    assert_eq!(VerificationError::NonceVerificationFailed("x".into()).status_code(), 401);
    assert_eq!(VerificationError::MeasurementNotTrusted("x".into()).status_code(), 403);
    assert_eq!(VerificationError::DebugNotAllowed.status_code(), 403);
    assert_eq!(VerificationError::TcbOutdated("x".into()).status_code(), 403);
    assert_eq!(VerificationError::NoPendingChallenge.status_code(), 404);
    assert_eq!(VerificationError::IdentityRequired.status_code(), 409);
}

#[test]
fn test_is_transient() {
    assert!(VerificationError::ConnectionFailed("x".into()).is_transient());
    assert!(VerificationError::Timeout("x".into()).is_transient());
    assert!(!VerificationError::AttestationFailed("x".into()).is_transient());
    assert!(!VerificationError::DebugNotAllowed.is_transient());
}

#[test]
fn verification_error_texts() {
    assert_eq!(VerificationError::Timeout("slow".into()).to_string(), "Request timeout: slow");
    assert_eq!(
        VerificationError::HttpError { status: 502, message: "bad gateway".into() }.to_string(),
        "HTTP error 502: bad gateway"
    );
    assert_eq!(
        VerificationError::MeasurementMismatch { expected: "aa".into(), actual: "bb".into() }.to_string(),
        "Measurement mismatch: expected 'aa', got 'bb'"
    );
    assert_eq!(VerificationError::HttpError { status: 429, message: String::new() }.status_code(), 429);
    assert!(VerificationError::HttpError { status: 500, message: String::new() }.is_transient());
}

#[test]
fn test_instance_id_from_bytes32() {
    let bytes = Bytes32::from([0xAB; 32]);
    let id = InstanceId::from(bytes);
    assert_eq!(id.as_bytes(), &[0xAB; 32]);
}

#[test]
fn test_instance_id_from_array() {
    let bytes = [0xCD; 32];
    let id = InstanceId::from(bytes);
    assert_eq!(id.as_bytes(), &bytes);
}

#[test]
fn test_instance_id_is_zero() {
    let zero = InstanceId::from([0u8; 32]);
    assert!(zero.is_zero());

    let nonzero = InstanceId::from([1u8; 32]);
    assert!(!nonzero.is_zero());
}

#[test]
fn test_instance_id_hex_roundtrip() {
    let original = InstanceId::from([0xDE; 32]);
    let hex = original.to_hex();

    let bytes = Bytes32::from_hex(&hex).unwrap();
    let restored = InstanceId::from(bytes);

    assert_eq!(original, restored);
}

#[test]
fn test_instance_id_short() {
    let id = InstanceId::from([0xAB; 32]);
    assert_eq!(id.short(), "abababab");
}

#[test]
fn test_instance_id_hash_eq() {

    let id1 = InstanceId::from([1u8; 32]);
    let id2 = InstanceId::from([1u8; 32]);
    let id3 = InstanceId::from([2u8; 32]);

    assert_eq!(id1, id2);
    assert_ne!(id1, id3);

    let mut set = HashSet::new();
    set.insert(id1);
    assert!(set.contains(&id2));
    assert!(!set.contains(&id3));
}

#[test]
fn instance_id_from_hex_rejects_bad_input() {
    assert!(InstanceId::from_hex("abcd").is_err());
    assert!(InstanceId::from_hex(&"zz".repeat(32)).is_err());
    let id = InstanceId::from_hex(&"01".repeat(32)).unwrap();
    assert_eq!(id.as_bytes(), &[1u8; 32]);
}

#[test]
fn test_ip_to_node_id() {
    let ip = Ipv4Addr::new(192, 168, 1, 100);
    let node_id = ip_to_node_id(&ip);
    assert_eq!(node_id, 0xC0A8_0164);
}

#[test]
fn test_node_id_to_ip() {
    let ip = node_id_to_ip(0xC0A8_0164);
    assert_eq!(ip, Ipv4Addr::new(192, 168, 1, 100));
}

#[test]
fn test_roundtrip() {
    let original_ip = Ipv4Addr::new(10, 0, 0, 1);
    let node_id = ip_to_node_id(&original_ip);
    let recovered_ip = node_id_to_ip(node_id);
    assert_eq!(original_ip, recovered_ip);
}

#[test]
fn node_id_keeps_only_low_32_bits() {
    assert_eq!(node_id_to_ip(0x1_C0A8_0164), Ipv4Addr::new(192, 168, 1, 100));
    assert_eq!(Ipv4Addr::new(10, 1, 2, 3).to_string(), "10.1.2.3");
}

#[test]
fn test_peer_state_is_trusted() {
    assert!(PeerState::Trusted.is_trusted());
    assert!(!PeerState::Discovered.is_trusted());
}

#[test]
fn peer_state_blacklist_expiry() {
    let s = PeerState::Blacklisted { until: 1000, reason: BlacklistReason::AttestationFailed };
    assert!(s.is_blacklisted());
    assert!(!s.is_blacklist_expired_at(999));
    assert!(s.is_blacklist_expired_at(1000));
    assert!(!PeerState::Trusted.is_blacklist_expired_at(5000));
    assert!(!PeerState::Verifying.is_blacklist_expired());
    assert_eq!(BlacklistReason::NonceVerificationFailed.to_string(), "nonce_verification_failed");
    assert_eq!(RevokedReason::Other("custom".into()).to_string(), "custom");
    assert_eq!(RevokedReason::ManualRevocation.to_string(), "manual_revocation");
}

#[test]
fn test_bootstrap_node_node_id() {
    let node = BootstrapNode { ip_address: Ipv4Addr::new(192, 168, 1, 100), raft_port: 8444, api_port: 8443 };
    assert_eq!(node.node_id(), 0xC0A8_0164);
}

#[test]
fn test_tee_state_is_verified() {
    let verified = TeeState::Verified {
        measurement_hash: "abc123".to_string(),
        tcb_status: "UpToDate".to_string(),
        tee: Tee::Tdx,
        verified_at: 0,
    };

    assert!(verified.is_verified());
    assert!(!verified.is_pending());
    assert!(!verified.is_rejected());
    assert_eq!(verified.tee(), Some(Tee::Tdx));
}

#[test]
fn test_tee_record_pending() {
    let instance_id = InstanceId::from_bytes([0xAB; 32]);
    let record = TeeRecord::new_pending(
        instance_id,
        "guardian".to_string(),
        [0xAA; 32],
        "abc123".to_string(),
        Tee::Tdx,
        60_000,
    );

    assert!(record.state.is_pending());
    assert!(!record.is_challenge_expired());
    assert!(record.get_valid_challenge().is_some());
}

#[test]
fn tee_record_challenge_window() {
    let instance_id = InstanceId::from_bytes([0xAB; 32]);
    let record = TeeRecord::new_pending_at(
        instance_id,
        "guardian".to_string(),
        [0xAA; 32],
        "abc123".to_string(),
        Tee::Tdx,
        60_000,
        1_000,
    );
    assert_eq!(record.get_valid_challenge_at(61_000), Some(&[0xAA; 32]));
    assert!(!record.is_challenge_expired_at(61_000));
    assert_eq!(record.get_valid_challenge_at(61_001), None);
    assert!(record.is_challenge_expired_at(61_001));
    assert_eq!(record.state.measurement_hash(), Some("abc123"));
}

#[test]
fn test_peer_registry_event_namespace() {
    let instance_id = InstanceId::from_bytes([0xAB; 32]);
    let event = PeerRegistryEvent::Verified {
        namespace: "guardian".to_string(),
        instance_id,
        record: TeeRecord::new_pending(
            instance_id,
            "guardian".to_string(),
            [0; 32],
            "hash".to_string(),
            Tee::Tdx,
            60_000,
        ),
    };

    assert_eq!(event.namespace(), "guardian");
    assert_eq!(event.instance_id(), &instance_id);
}

#[test]
fn instance_id_file_text_is_checked() {
    let hex = "ab".repeat(32);
    let id = InstanceId::from_file_text(&format!("  {hex}\n")).unwrap();
    assert_eq!(id.to_hex(), hex);
    match InstanceId::from_file_text("abcd\n") {
        Err(VerificationError::AttestationFailed(m)) => assert_eq!(m, "Invalid instance_id length: 4 (expected 64)"),
        other => panic!("unexpected {other:?}"),
    }
    match InstanceId::from_file_text(&"zz".repeat(32)) {
        Err(VerificationError::AttestationFailed(m)) => {
            assert_eq!(m, "Invalid instance_id hex: Invalid character 'z' at position 0")
        }
        other => panic!("unexpected {other:?}"),
    }
}
