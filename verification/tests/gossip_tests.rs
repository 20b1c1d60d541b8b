use sha2::{Digest, Sha256};
use tee_guardian::gossip::{GossipedPeerCache, PeerAdvertisement};
use tee_guardian::network::parse_hex_ip;
use tee_guardian::errors::NetworkError;
use tee_guardian::node::{Ipv4Addr, SocketAddrV4};

fn addr(d: u8, port: u16) -> SocketAddrV4 {
    SocketAddrV4::new(Ipv4Addr::new(192, 168, 1, d), port)
}

#[test]
fn test_compute_address_binding() {
    let raft = addr(20, 8444);
    let api = addr(20, 8443);

    let binding1 = PeerAdvertisement::compute_address_binding(&raft, &api);
    let binding2 = PeerAdvertisement::compute_address_binding(&raft, &api);
    assert_eq!(binding1, binding2);

    let raft2 = addr(21, 8444);
    let binding3 = PeerAdvertisement::compute_address_binding(&raft2, &api);
    assert_ne!(binding1, binding3);
}

#[test]
fn address_binding_is_sha256_of_address_texts() {
    let raft = addr(20, 8444);
    let api = addr(20, 8443);
    let digest = Sha256::digest(b"192.168.1.20:8444192.168.1.20:8443");
    let mut expected = [0u8; 32];
    expected.copy_from_slice(&digest);
    assert_eq!(PeerAdvertisement::compute_address_binding(&raft, &api), expected);
}

#[test]
fn test_peer_advertisement_validate_format() {
    let ad = PeerAdvertisement::new(123456, addr(20, 8444), addr(20, 8443), "a".repeat(64), "b".repeat(64), String::new());
    assert!(ad.validate_format().is_ok());
}

#[test]
fn test_peer_advertisement_invalid_instance_id() {
    let ad = PeerAdvertisement::new(123456, addr(20, 8444), addr(20, 8443), "a".repeat(64), "short".to_string(), String::new());
    assert!(ad.validate_format().is_err());
    assert_eq!(
        ad.validate_format().unwrap_err(),
        "Invalid instance_id length: 5 (expected 64 hex chars)"
    );
}

#[test]
fn test_peer_advertisement_invalid_measurement_hash() {
    let ad = PeerAdvertisement::new(123456, addr(20, 8444), addr(20, 8443), "zzzz".to_string(), "b".repeat(64), String::new());
    assert!(ad.validate_format().is_err());
}

#[test]
fn advertisement_from_the_future_is_refused() {
    let ad = PeerAdvertisement::new_at(1, addr(20, 8444), addr(20, 8443), "a".repeat(64), "b".repeat(64), String::new(), 1_301);
    assert_eq!(ad.validate_format_at(1_000).unwrap_err(), "Advertisement timestamp is in the future");
    assert!(ad.validate_format_at(1_001).is_ok());
}

#[test]
fn test_gossip_cache_add_and_get() {
    let mut cache = GossipedPeerCache::new();
    let ad = PeerAdvertisement::new(123456, addr(20, 8444), addr(20, 8443), "a".repeat(64), "b".repeat(64), String::new());
    cache.add_verified(ad.clone());

    let result = cache.get(123456);
    assert!(result.is_some());
    assert_eq!(result.unwrap().node_id, 123456);
}

#[test]
fn test_gossip_cache_newer_replaces_older() {
    let mut cache = GossipedPeerCache::new();

    let mut ad_old = PeerAdvertisement::new(123456, addr(20, 8444), addr(20, 8443), "a".repeat(64), "b".repeat(64), String::new());
    ad_old.timestamp = 1000;
    cache.add_verified(ad_old);

    let mut ad_new = PeerAdvertisement::new(123456, addr(21, 8444), addr(21, 8443), "c".repeat(64), "d".repeat(64), String::new());
    ad_new.timestamp = 2000;
    cache.add_verified(ad_new);

    let result = cache.get(123456).unwrap();
    assert_eq!(result.measurement_hash, "c".repeat(64));
}

#[test]
fn older_advertisement_does_not_replace_newer() {
    let mut cache = GossipedPeerCache::new();
    let mut newer = PeerAdvertisement::new(7, addr(20, 8444), addr(20, 8443), "a".repeat(64), "b".repeat(64), String::new());
    newer.timestamp = 2000;
    cache.add_verified(newer);
    let mut older = PeerAdvertisement::new(7, addr(21, 8444), addr(21, 8443), "c".repeat(64), "d".repeat(64), String::new());
    older.timestamp = 2000;
    cache.add_verified(older);
    assert_eq!(cache.get(7).unwrap().measurement_hash, "a".repeat(64));
    let nodes = cache.get_all();
    assert_eq!(nodes.len(), 1);
    assert_eq!(nodes[0].raft_port, 8444);
    assert_eq!(nodes[0].api_port, 8443);
    assert_eq!(nodes[0].ip_address, Ipv4Addr::new(192, 168, 1, 20));
}

#[test]
fn test_gossip_cache_contains() {
    let mut cache = GossipedPeerCache::new();
    assert!(!cache.contains(123456));
    let ad = PeerAdvertisement::new(123456, addr(20, 8444), addr(20, 8443), "a".repeat(64), "b".repeat(64), String::new());
    cache.add_verified(ad);
    assert!(cache.contains(123456));
}

#[test]
fn test_parse_hex_ip() {
    assert_eq!(parse_hex_ip("c0a87a14").unwrap(), Ipv4Addr::new(192, 168, 122, 20));
    assert_eq!(parse_hex_ip("0a000001").unwrap(), Ipv4Addr::new(10, 0, 0, 1));
    assert_eq!(parse_hex_ip("7f000001").unwrap(), Ipv4Addr::new(127, 0, 0, 1));
    assert_eq!(parse_hex_ip("ffffffff").unwrap(), Ipv4Addr::new(255, 255, 255, 255));
}

#[test]
fn test_parse_hex_ip_invalid_length() {
    assert!(matches!(parse_hex_ip("c0a8"), Err(NetworkError::InvalidHexLength(4))));
    assert!(matches!(parse_hex_ip("c0a87a14ff"), Err(NetworkError::InvalidHexLength(10))));
    assert!(matches!(parse_hex_ip(""), Err(NetworkError::InvalidHexLength(0))));
}

#[test]
fn test_parse_hex_ip_invalid_hex() {
    assert!(matches!(parse_hex_ip("zzzzzzzz"), Err(NetworkError::HexParseError(_))));
    assert!(matches!(parse_hex_ip("c0a87a1g"), Err(NetworkError::HexParseError(_))));
}

#[test]
fn parse_hex_ip_accepts_upper_case_and_plus_sign() {
    assert_eq!(parse_hex_ip("C0A87A14").unwrap(), Ipv4Addr::new(192, 168, 122, 20));
    assert_eq!(parse_hex_ip("+a000001").unwrap(), Ipv4Addr::new(10, 0, 0, 1));
}
