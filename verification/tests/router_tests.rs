use tee_guardian::errors::{ApiError, ConsensusError};
use tee_guardian::node::{Ipv4Addr, SocketAddrV4};
use tee_guardian::raft_network::{rpc_target, Router, RpcRefusal};
use tee_guardian::trusted_peers::TrustedPeerRegistry;

fn addr(d: u8, port: u16) -> SocketAddrV4 {
    SocketAddrV4::new(Ipv4Addr::new(192, 168, 1, d), port)
}

#[test]
fn test_router_new() {
    let router = Router::new();
    assert_eq!(router.len(), 0);
}

#[test]
fn test_router_clone() {
    let mut router = Router::new();
    router.add_node(1, addr(1, 8444));
    let cloned = router.clone();
    assert_eq!(cloned.get(1), Some(addr(1, 8444)));
}

#[test]
fn test_add_node() {
    let mut router = Router::new();
    router.add_node(1, addr(1, 8444));
    assert_eq!(router.len(), 1);
    assert_eq!(router.get(1), Some(addr(1, 8444)));
}

#[test]
fn test_add_multiple_nodes() {
    let mut router = Router::new();
    router.add_node(1, addr(1, 8444));
    router.add_node(2, addr(2, 8444));
    router.add_node(3, addr(3, 8444));
    assert_eq!(router.len(), 3);
    assert_eq!(router.get(1), Some(addr(1, 8444)));
    assert_eq!(router.get(2), Some(addr(2, 8444)));
    assert_eq!(router.get(3), Some(addr(3, 8444)));
}

#[test]
fn test_add_node_updates_existing() {
    let mut router = Router::new();
    router.add_node(1, addr(1, 8444));
    router.add_node(1, addr(2, 9999));
    assert_eq!(router.len(), 1);
    assert_eq!(router.get(1), Some(addr(2, 9999)));
}

#[test]
fn test_remove_node() {
    let mut router = Router::new();
    router.add_node(1, addr(1, 8444));
    router.remove_node(1);
    assert_eq!(router.len(), 0);
}

#[test]
fn test_remove_nonexistent_node() {
    let mut router = Router::new();
    router.remove_node(999);
    assert_eq!(router.len(), 0);
}

#[test]
fn test_concurrent_access() {
    let mut router = Router::new();
    router.add_node(1, addr(1, 8444));
    router.add_node(2, addr(2, 8444));
    assert_eq!(router.len(), 2);
}

#[test]
fn test_trust_check_untrusted_peer() {
    let registry = TrustedPeerRegistry::new();
    assert!(!registry.is_trusted(999));
    assert_eq!(rpc_target(&registry, 999, "192.168.1.9:8444", "raft-vote"), Err(RpcRefusal::Untrusted));
}

#[test]
fn test_trust_check_trusted_peer() {
    let mut registry = TrustedPeerRegistry::new();
    registry.mark_trusted(123, addr(123, 8444), addr(123, 8443));
    assert!(registry.is_trusted(123));
    assert_eq!(
        rpc_target(&registry, 123, "192.168.1.123:8444", "raft-append"),
        Ok("http://192.168.1.123:8444/raft-append".to_string())
    );
}

#[test]
fn test_trust_revocation() {
    let mut registry = TrustedPeerRegistry::new();
    registry.mark_trusted(123, addr(123, 8444), addr(123, 8443));
    assert!(registry.is_trusted(123));
    registry.revoke_trust(123);
    assert!(!registry.is_trusted(123));
    assert!(rpc_target(&registry, 123, "192.168.1.123:8444", "raft-vote").is_err());
}

#[test]
fn test_router_uses_global_registry() {
    let mut registry = TrustedPeerRegistry::new();
    registry.mark_trusted(456, addr(100, 8444), addr(100, 8443));
    assert!(registry.is_trusted(456));
    let mut router = Router::new();
    let router2 = Router::new();
    router.add_node(1, addr(1, 8444));
    assert_eq!(router.len(), 1);
    assert_eq!(router2.len(), 0);
    assert!(rpc_target(&registry, 456, "192.168.1.100:8444", "raft-snapshot").is_ok());
}

#[test]
fn test_consensus_error_display() {
    let err = ConsensusError::Storage("disk full".to_string());
    assert_eq!(err.to_string(), "Storage error: disk full");
}

#[test]
fn test_consensus_error_network() {
    let err = ConsensusError::Network("connection refused".to_string());
    assert_eq!(err.to_string(), "Network error: connection refused");
}

#[test]
fn test_consensus_error_config() {
    let err = ConsensusError::Config("invalid port".to_string());
    assert_eq!(err.to_string(), "Configuration error: invalid port");
}

#[test]
fn consensus_error_other_is_bare() {
    assert_eq!(ConsensusError::Other("plain".into()).to_string(), "plain");
}

#[test]
fn test_api_error_bad_request() {
    let error = ApiError::BadRequest("test error".to_string());
    assert_eq!(error.status_code(), 400);
    assert_eq!(error.client_message(), "test error");
}

#[test]
fn test_api_error_internal() {
    let error = ApiError::Internal("test error".to_string());
    assert_eq!(error.status_code(), 500);
    let msg = error.client_message();
    assert!(msg.starts_with("Internal server error (error_id: "));
    assert!(!msg.contains("test error"));
    assert_eq!(msg.len(), "Internal server error (error_id: ".len() + 8 + 1);
}

#[test]
fn test_api_error_bootstrapping() {
    let error = ApiError::Bootstrapping;
    assert_eq!(error.status_code(), 503);
    assert_eq!(error.client_message(), "Node is bootstrapping");
}

#[test]
fn internal_error_ids_are_eight_lowercase_hex_digits() {
    for m in ["", "secret db password", "x"] {
        let msg = ApiError::Internal(m.to_string()).client_message();
        let id = msg.strip_prefix("Internal server error (error_id: ").unwrap().strip_suffix(')').unwrap();
        assert_eq!(id.len(), 8);
        assert!(id.chars().all(|c| c.is_ascii_digit() || ('a'..='f').contains(&c)));
    }
    let id = ApiError::generate_error_id();
    assert_eq!(id.len(), 8);
    assert!(id.chars().all(|c| c.is_ascii_digit() || ('a'..='f').contains(&c)));
    assert_eq!(tee_guardian::errors::error_id_from_nanos(0x1_2345_6789_abcd), "6789abcd");
    assert_eq!(tee_guardian::errors::error_id_from_nanos(0xff), "000000ff");
}
