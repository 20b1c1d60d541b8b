use tee_guardian::identity::InstanceId;
use tee_guardian::protocol::issue_challenge;
use tee_guardian::registry::PeerRegistry;
use tee_guardian::tee::{PeerRegistryEvent, Tee, TeeState};

fn verified_state(hash: &str) -> TeeState {
    TeeState::Verified { measurement_hash: hash.to_string(), tcb_status: "UpToDate".to_string(), tee: Tee::Tdx, verified_at: 0 }
}

#[test]
fn test_register_and_get_challenge() {
    let mut registry = PeerRegistry::new();
    let instance_id = InstanceId::from_bytes([0xAB; 32]);

    let (challenge, is_new) =
        registry.register(instance_id, "guardian".to_string(), "abc123".to_string(), Tee::Tdx).unwrap();

    assert!(is_new);
    assert_eq!(challenge.len(), 32);

    let retrieved = registry.get_pending_challenge(&instance_id);
    assert_eq!(retrieved, Some(challenge));
}

#[test]
fn test_register_returns_existing_challenge() {
    let mut registry = PeerRegistry::new();
    let instance_id = InstanceId::from_bytes([0xAB; 32]);

    let (challenge1, is_new1) =
        registry.register(instance_id, "guardian".to_string(), "abc123".to_string(), Tee::Tdx).unwrap();
    assert!(is_new1);

    let (challenge2, is_new2) =
        registry.register(instance_id, "guardian".to_string(), "abc123".to_string(), Tee::Tdx).unwrap();
    assert!(!is_new2);
    assert_eq!(challenge1, challenge2);
}

#[test]
fn test_register_rejects_verified_instance() {
    let mut registry = PeerRegistry::new();
    let instance_id = InstanceId::from_bytes([0xAB; 32]);

    registry.register(instance_id, "guardian".to_string(), "abc123".to_string(), Tee::Tdx).unwrap();
    registry.complete_verification(instance_id, verified_state("abc123"));

    let result = registry.register(instance_id, "guardian".to_string(), "abc123".to_string(), Tee::Tdx);
    assert!(result.is_err());
    assert_eq!(result, Err(true));
}

#[test]
fn test_complete_verification() {
    let mut registry = PeerRegistry::new();
    let instance_id = InstanceId::from_bytes([0xAB; 32]);

    registry.register(instance_id, "guardian".to_string(), "abc123".to_string(), Tee::Tdx).unwrap();

    let record = registry.complete_verification(instance_id, verified_state("abc123"));
    assert!(record.is_some());
    assert_eq!(record.unwrap().namespace, "guardian");

    assert!(registry.is_verified(&instance_id));
    assert!(registry.get_pending_challenge(&instance_id).is_none());
}

#[test]
fn completing_without_registration_gives_nothing() {
    let mut registry = PeerRegistry::new();
    let instance_id = InstanceId::from_bytes([0x11; 32]);
    assert!(registry.complete_verification(instance_id, verified_state("x")).is_none());
    assert!(!registry.is_verified(&instance_id));
}

#[test]
fn test_revoke() {
    let mut registry = PeerRegistry::new();
    let instance_id = InstanceId::from_bytes([0xAB; 32]);

    registry.register(instance_id, "guardian".to_string(), "abc123".to_string(), Tee::Tdx).unwrap();
    registry.complete_verification(instance_id, verified_state("abc123"));

    assert!(registry.is_verified(&instance_id));

    let revoked = registry.revoke(&instance_id, "test revocation".to_string());
    assert!(revoked);
    assert!(!registry.is_verified(&instance_id));

    // A second revocation finds nothing to revoke.
    assert!(!registry.revoke(&instance_id, "again".to_string()));
    // The instance may register again.
    assert!(registry.register(instance_id, "guardian".to_string(), "abc123".to_string(), Tee::Tdx).is_ok());
}

#[test]
fn test_event_subscription() {
    let mut registry = PeerRegistry::new();
    let instance_id = InstanceId::from_bytes([0xAB; 32]);

    registry.register(instance_id, "guardian".to_string(), "abc123".to_string(), Tee::Tdx).unwrap();

    let events = registry.drain_events();
    let event = &events[0];
    assert!(matches!(event, PeerRegistryEvent::Registered { .. }));
    assert_eq!(event.namespace(), "guardian");
    assert!(registry.drain_events().is_empty());
}

#[test]
fn test_get_verified_by_namespace() {
    let mut registry = PeerRegistry::new();

    let instance1 = InstanceId::from_bytes([0x01; 32]);
    let instance2 = InstanceId::from_bytes([0x02; 32]);
    let instance3 = InstanceId::from_bytes([0x03; 32]);

    registry.register(instance1, "guardian".to_string(), "hash1".to_string(), Tee::Tdx).unwrap();
    registry.register(instance2, "guardian".to_string(), "hash2".to_string(), Tee::Tdx).unwrap();
    registry.register(instance3, "k8s-prod".to_string(), "hash3".to_string(), Tee::Tdx).unwrap();

    registry.complete_verification(instance1, verified_state("hash"));
    registry.complete_verification(instance2, verified_state("hash"));
    registry.complete_verification(instance3, verified_state("hash"));

    let guardian_tees = registry.get_verified_by_namespace("guardian");
    assert_eq!(guardian_tees.len(), 2);

    let k8s_tees = registry.get_verified_by_namespace("k8s-prod");
    assert_eq!(k8s_tees.len(), 1);
    assert_eq!(registry.verified_count(), 3);
    assert_eq!(registry.pending_count(), 0);
}

#[test]
fn expired_challenge_is_replaced_and_cleaned_up() {
    let mut registry = PeerRegistry::with_config(1_000);
    let id = InstanceId::from_bytes([0x05; 32]);
    let (c1, new1) = registry.register_at(id, "guardian".into(), "h".into(), Tee::Tdx, [1; 32], 10).unwrap();
    assert!(new1);
    assert_eq!(c1, [1; 32]);
    assert_eq!(registry.get_pending_challenge_at(&id, 1_010), Some([1; 32]));
    assert_eq!(registry.get_pending_challenge_at(&id, 1_011), None);
    // After expiry a new challenge replaces the old one.
    let (c2, new2) = registry.register_at(id, "guardian".into(), "h".into(), Tee::Tdx, [2; 32], 2_000).unwrap();
    assert!(new2);
    assert_eq!(c2, [2; 32]);
    assert_eq!(registry.get_pending_challenge_at(&id, 2_000), Some([2; 32]));
    // Cleanup keeps a challenge that is still valid.
    assert_eq!(registry.cleanup_expired_at(2_500), 0);
    assert_eq!(registry.pending_count(), 1);
    assert_eq!(registry.cleanup_expired_at(3_001), 1);
    assert_eq!(registry.pending_count(), 0);
}

#[test]
fn reject_drops_pending_record() {
    let mut registry = PeerRegistry::new();
    let id = InstanceId::from_bytes([0x07; 32]);
    registry.register(id, "guardian".into(), "h".into(), Tee::Tdx).unwrap();
    registry.reject(id, "guardian".into(), "bad quote".into());
    assert!(registry.get_pending_record(&id).is_none());
    let events = registry.drain_events();
    assert!(matches!(events.last(), Some(PeerRegistryEvent::Rejected { .. })));
}

#[test]
fn registration_answer_carries_the_stored_expiry() {
    let mut registry = PeerRegistry::with_config(600_000);
    let instance_id = InstanceId::from_bytes([0x21; 32]);
    let first = issue_challenge(&mut registry, instance_id, "guardian", "abc123".to_string(), Tee::Tdx).unwrap();
    let rec = registry.get_pending_record(&instance_id).unwrap();
    let stored_ms = match rec.state {
        TeeState::PendingChallenge { expires_at, .. } => expires_at,
        _ => panic!("not pending"),
    };
    assert_eq!(first.expires_at, stored_ms / 1000);
    assert_eq!(first.challenge.len(), 64);
    // A second registration returns the same challenge and the same expiry.
    let second = issue_challenge(&mut registry, instance_id, "guardian", "abc123".to_string(), Tee::Tdx).unwrap();
    assert_eq!(second.challenge, first.challenge);
    assert_eq!(second.expires_at, first.expires_at);
}
