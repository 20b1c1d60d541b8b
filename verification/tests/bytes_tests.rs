use tee_guardian::bytes::{Bytes32, Bytes48, Bytes64};
use tee_guardian::node::{ip_to_node_id, Ipv4Addr};

#[test]
fn test_bytes48_roundtrip() {
    let original = Bytes48([42u8; 48]);
    let json = serde_json::to_string(&original.to_hex()).unwrap();
    let text: String = serde_json::from_str(&json).unwrap();
    let restored = Bytes48::from_wire_text(&text).unwrap();
    assert_eq!(original, restored);
}

#[test]
fn test_bytes32_roundtrip() {
    let original = Bytes32([42u8; 32]);
    let json = serde_json::to_string(&original.to_hex()).unwrap();
    let text: String = serde_json::from_str(&json).unwrap();
    let restored = Bytes32::from_wire_text(&text).unwrap();
    assert_eq!(original, restored);
}

#[test]
fn test_bytes48_hex_prefix() {
    let b = Bytes48([0u8; 48]);
    let json = format!("\"0x{}\"", "00".repeat(48));
    let text: String = serde_json::from_str(&json).unwrap();
    let restored = Bytes48::from_wire_text(&text).unwrap();
    assert_eq!(b, restored);
}

#[test]
fn test_bytes64_roundtrip() {
    let original = Bytes64([42u8; 64]);
    let json = serde_json::to_string(&original.to_hex()).unwrap();
    let text: String = serde_json::from_str(&json).unwrap();
    let restored = Bytes64::from_wire_text(&text).unwrap();
    assert_eq!(original, restored);
}

#[test]
fn test_bytes64_hex_prefix() {
    let b = Bytes64([0u8; 64]);
    let json = format!("\"0x{}\"", "00".repeat(64));
    let text: String = serde_json::from_str(&json).unwrap();
    let restored = Bytes64::from_wire_text(&text).unwrap();
    assert_eq!(b, restored);
}

#[test]
fn wire_text_errors_name_the_problem() {
    assert_eq!(Bytes32::from_wire_text(&"00".repeat(31)).unwrap_err(), "expected 32 bytes, got 31");
    assert_eq!(Bytes32::from_wire_text("0xzz").unwrap_err(), "Invalid character 'z' at position 0");
    assert_eq!(Bytes48::from_wire_text("abc").unwrap_err(), "Odd number of digits");
}

#[test]
fn test_ip_to_node_id_deterministic() {
    let ip = Ipv4Addr::new(192, 168, 1, 100);
    let id1 = ip_to_node_id(&ip);
    let id2 = ip_to_node_id(&ip);
    assert_eq!(id1, id2);
}

#[test]
fn test_ip_to_node_id_different() {
    let ip1 = Ipv4Addr::new(192, 168, 1, 100);
    let ip2 = Ipv4Addr::new(192, 168, 1, 101);
    let id1 = ip_to_node_id(&ip1);
    let id2 = ip_to_node_id(&ip2);
    assert_ne!(id1, id2);
}
