use tee_guardian::node::{Ipv4Addr, SocketAddrV4};
use tee_guardian::trusted_peers::TrustedPeerRegistry;

fn test_addr(port: u16) -> SocketAddrV4 {
    SocketAddrV4::new(Ipv4Addr::new(192, 168, 1, 100), port)
}

#[test]
fn test_singleton_init_or_get() {
    let registry = TrustedPeerRegistry::new();
    assert_eq!(registry.trusted_count(), 0);
    let registry2 = TrustedPeerRegistry::new();
    assert_eq!(registry2.trusted_count(), 0);
}

#[test]
fn test_mark_trusted() {
    let mut registry = TrustedPeerRegistry::new();
    registry.mark_trusted(1, test_addr(8444), test_addr(8443));
    assert!(registry.is_trusted(1));
    assert_eq!(registry.trusted_count(), 1);
}

#[test]
fn test_is_not_trusted() {
    let registry = TrustedPeerRegistry::new();
    assert!(!registry.is_trusted(999));
}

#[test]
fn test_revoke_trust() {
    let mut registry = TrustedPeerRegistry::new();
    registry.mark_trusted(1, test_addr(8444), test_addr(8443));
    assert!(registry.is_trusted(1));

    registry.revoke_trust(1);
    assert!(!registry.is_trusted(1));
}

#[test]
fn test_get_trusted_nodes() {
    let mut registry = TrustedPeerRegistry::new();
    registry.mark_trusted(1, test_addr(8444), test_addr(8443));
    registry.mark_trusted(2, test_addr(8444), test_addr(8443));
    registry.mark_trusted(3, test_addr(8444), test_addr(8443));

    let trusted = registry.get_trusted_nodes();
    assert_eq!(trusted.len(), 3);
    assert!(trusted.contains(&1));
    assert!(trusted.contains(&2));
    assert!(trusted.contains(&3));
}

#[test]
fn test_get_addresses() {
    let mut registry = TrustedPeerRegistry::new();
    let raft_addr = SocketAddrV4::new(Ipv4Addr::new(192, 168, 1, 100), 8444);
    let api_addr = SocketAddrV4::new(Ipv4Addr::new(192, 168, 1, 100), 8443);

    registry.mark_trusted(1, raft_addr, api_addr);

    assert_eq!(registry.get_raft_addr(1), Some(raft_addr));
    assert_eq!(registry.get_api_addr(1), Some(api_addr));

    let raft_addrs = registry.get_raft_addresses();
    assert_eq!(raft_addrs.len(), 1);
    assert_eq!(raft_addrs.iter().find(|(id, _)| *id == 1).map(|(_, a)| *a), Some(raft_addr));
}

#[test]
fn test_update_addresses() {
    let mut registry = TrustedPeerRegistry::new();
    let addr1 = SocketAddrV4::new(Ipv4Addr::new(192, 168, 1, 100), 8444);
    let addr2 = SocketAddrV4::new(Ipv4Addr::new(192, 168, 1, 101), 8444);

    registry.mark_trusted(1, addr1, addr1);
    assert_eq!(registry.get_raft_addr(1), Some(addr1));

    registry.mark_trusted(1, addr2, addr2);
    assert_eq!(registry.get_raft_addr(1), Some(addr2));

    assert_eq!(registry.trusted_count(), 1);
}

#[test]
fn test_clear_registry() {
    let mut registry = TrustedPeerRegistry::new();
    registry.mark_trusted(1, test_addr(8444), test_addr(8443));
    registry.mark_trusted(2, test_addr(8444), test_addr(8443));
    assert_eq!(registry.trusted_count(), 2);

    registry.clear();
    assert_eq!(registry.trusted_count(), 0);
    assert!(!registry.is_trusted(1));
}

#[test]
fn test_concurrent_modifications() {
    let mut registry = TrustedPeerRegistry::new();
    for i in 0..10u64 {
        registry.mark_trusted(
            i,
            SocketAddrV4::new(Ipv4Addr::new(192, 168, 1, i as u8), 8444),
            SocketAddrV4::new(Ipv4Addr::new(192, 168, 1, i as u8), 8443),
        );
    }
    assert_eq!(registry.trusted_count(), 10);
}

#[test]
fn trusted_nodes_come_out_in_ascending_order() {
    let mut registry = TrustedPeerRegistry::new();
    registry.mark_trusted(30, test_addr(1), test_addr(2));
    registry.mark_trusted(10, test_addr(1), test_addr(2));
    registry.mark_trusted(20, test_addr(1), test_addr(2));
    assert_eq!(registry.get_trusted_nodes(), vec![10, 20, 30]);
    assert_eq!(registry.get_api_addr(40), None);
}

fn verified_record(ip: Ipv4Addr, namespace: &str) -> tee_guardian::tee::TeeRecord {
    tee_guardian::tee::TeeRecord {
        instance_id: tee_guardian::identity::InstanceId::from_bytes([7u8; 32]),
        namespace: namespace.to_string(),
        state: tee_guardian::tee::TeeState::Verified {
            measurement_hash: "ab".repeat(32),
            tcb_status: "UpToDate".to_string(),
            tee: tee_guardian::tee::Tee::Tdx,
            verified_at: 1,
        },
        ip_address: Some(ip),
        api_port: Some(8443),
    }
}

#[test]
fn registry_events_drive_membership() {
    let ip = Ipv4Addr::new(10, 0, 0, 5);
    let node = tee_guardian::node::ip_to_node_id(&ip);
    let record = verified_record(ip, "guardian");
    let mut trusted = TrustedPeerRegistry::new();

    let other = tee_guardian::tee::PeerRegistryEvent::Verified {
        namespace: "other".to_string(),
        instance_id: record.instance_id,
        record: verified_record(ip, "other"),
    };
    tee_guardian::membership::handle_event(&mut trusted, "guardian", &other);
    assert!(!trusted.is_trusted(node));

    let verified = tee_guardian::tee::PeerRegistryEvent::Verified {
        namespace: "guardian".to_string(),
        instance_id: record.instance_id,
        record: record.clone(),
    };
    tee_guardian::membership::handle_event(&mut trusted, "guardian", &verified);
    assert!(trusted.is_trusted(node));
    assert_eq!(trusted.get_raft_addr(node), Some(SocketAddrV4::new(ip, 8444)));
    assert_eq!(trusted.get_api_addr(node), Some(SocketAddrV4::new(ip, 8443)));

    let revoked = tee_guardian::tee::PeerRegistryEvent::Revoked {
        namespace: "guardian".to_string(),
        instance_id: record.instance_id,
        reason: "measurement revoked".to_string(),
        record,
    };
    tee_guardian::membership::handle_event(&mut trusted, "guardian", &revoked);
    assert!(!trusted.is_trusted(node));
}
