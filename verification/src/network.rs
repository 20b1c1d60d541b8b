//! The node's public address as DHCP option 224 gives it: eight hex digits,
//! two per octet.

use vstd::prelude::*;
use vstd::string::*;
use vstd::utf8::is_char_boundary;
use crate::errors::NetworkError;
use crate::hex::hex_val;
use crate::node::Ipv4Addr;

verus! {

/// The value of a two-byte field read with `u8::from_str_radix(_, 16)`:
/// two hex digits, or `+` and one hex digit.
pub open spec fn hex_pair_value(b0: u8, b1: u8) -> Option<u8> {
    if b0 == 43 {
        hex_val(b1)
    } else {
        match (hex_val(b0), hex_val(b1)) {
            (Some(h), Some(l)) => Some((16 * h + l) as u8),
            _ => None,
        }
    }
}

/// The four octets of eight bytes of hex text, if every pair is valid.
pub open spec fn hex_ip_octets(b: Seq<u8>) -> Option<Seq<u8>> {
    match (hex_pair_value(b[0], b[1]), hex_pair_value(b[2], b[3]), hex_pair_value(b[4], b[5]), hex_pair_value(b[6], b[7])) {
        (Some(a), Some(c), Some(d), Some(e)) => Some(seq![a, c, d, e]),
        _ => None,
    }
}

fn digit(c: u8) -> (r: Option<u8>)
    ensures
        r == hex_val(c),
{
    if 48 <= c && c <= 57 {
        Some(c - 48)
    } else if 97 <= c && c <= 102 {
        Some(c - 97 + 10)
    } else if 65 <= c && c <= 70 {
        Some(c - 65 + 10)
    } else {
        None
    }
}

fn pair_value(b0: u8, b1: u8) -> (r: Option<u8>)
    ensures
        r == hex_pair_value(b0, b1),
{
    if b0 == 43 {
        return digit(b1);
    }
    match (digit(b0), digit(b1)) {
        (Some(h), Some(l)) => Some(16 * h + l),
        _ => None,
    }
}

/// Parses the address from its eight hex digits (`c0a87a14` is
/// 192.168.122.20). The text is cut into byte pairs, so a text of eight
/// bytes must have character boundaries at 2, 4 and 6.
pub fn parse_hex_ip(hex_ip: &str) -> (r: Result<Ipv4Addr, NetworkError>)
    requires
        hex_ip.spec_bytes().len() == 8 ==> is_char_boundary(hex_ip.spec_bytes(), 2)
            && is_char_boundary(hex_ip.spec_bytes(), 4) && is_char_boundary(hex_ip.spec_bytes(), 6),
    ensures
        hex_ip.spec_bytes().len() != 8 ==> r == Err::<Ipv4Addr, NetworkError>(
            NetworkError::InvalidHexLength(hex_ip.spec_bytes().len() as usize),
        ),
        hex_ip.spec_bytes().len() == 8 ==> match hex_ip_octets(hex_ip.spec_bytes()) {
            Some(o) => r matches Ok(ip) && ip.octets@ == o,
            None => r matches Err(NetworkError::HexParseError(m)) && m@ == "invalid digit found in string"@,
        },
{
    let b = hex_ip.as_bytes();
    if b.len() != 8 {
        return Err(NetworkError::InvalidHexLength(b.len()));
    }
    let p0 = pair_value(b[0], b[1]);
    let p1 = pair_value(b[2], b[3]);
    let p2 = pair_value(b[4], b[5]);
    let p3 = pair_value(b[6], b[7]);
    match (p0, p1, p2, p3) {
        (Some(a), Some(c), Some(d), Some(e)) => Ok(Ipv4Addr::new(a, c, d, e)),
        _ => Err(NetworkError::HexParseError(String::from_str("invalid digit found in string"))),
    }
}

} // verus!
