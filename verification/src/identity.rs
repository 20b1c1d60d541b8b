//! Unique identity of a TEE instance.
//!
//! For TDX it is the client-chosen `REPORTDATA[32:64]`; for SEV-SNP the
//! firmware-generated `REPORT_ID`.

use vstd::prelude::*;
use vstd::std_specs::convert::FromSpecImpl;
use crate::bytes::Bytes32;
use crate::hex::{self, FromHexError, hex_decode_str, hex_encode_spec, hex_error_text};
use crate::errors::{concat_str, VerificationError};
use crate::text::{chars_of, string_from_chars, trim_chars, trim_spec, utf8_len, utf8_len_of, dec_spec, push_decimal_wide};

verus! {

/// Unique instance identity (32 bytes).
///
/// It converts from `Bytes32` and from a byte array but not back: use
/// `as_bytes()` for the raw bytes.
#[derive(Clone, Copy, Debug, PartialEq, Eq, Hash)]
pub struct InstanceId(pub Bytes32);

impl View for InstanceId {
    type V = Seq<u8>;

    open spec fn view(&self) -> Seq<u8> {
        self.0@
    }
}

impl InstanceId {
    /// Creates the identity from raw bytes.
    pub fn from_bytes(bytes: [u8; 32]) -> (r: Self)
        ensures
            r@ == bytes@,
    {
        InstanceId(Bytes32(bytes))
    }

    /// Parses hex text of exactly 32 bytes.
    pub fn from_hex(s: &str) -> (r: Result<Self, FromHexError>)
        ensures
            match hex_decode_str(s@) {
                Ok(b) => if b.len() == 32 {
                    r matches Ok(v) && v@ == b
                } else {
                    r == Err::<Self, FromHexError>(FromHexError::InvalidStringLength)
                },
                Err(e) => r == Err::<Self, FromHexError>(e),
            },
    {
        match Bytes32::from_hex(s) {
            Ok(b) => Ok(InstanceId(b)),
            Err(e) => Err(e),
        }
    }

    /// Reads the identity a TDX boot wrote to its file: the text, trimmed,
    /// must be 64 bytes long and the hex of 32 bytes.
    pub fn from_file_text(text: &str) -> (r: Result<Self, VerificationError>)
        ensures
            ({
                let t = trim_spec(text@);
                if utf8_len(t) != 64 {
                    r matches Err(VerificationError::AttestationFailed(m))
                        && m@ == "Invalid instance_id length: "@ + dec_spec(utf8_len(t) as nat) + " (expected 64)"@
                } else {
                    match hex_decode_str(t) {
                        Err(e) => r matches Err(VerificationError::AttestationFailed(m))
                            && m@ == "Invalid instance_id hex: "@ + hex_error_text(e),
                        Ok(b) => if b.len() == 32 {
                            r matches Ok(id) && id@ == b
                        } else {
                            r matches Err(VerificationError::AttestationFailed(m))
                                && m@ == "Invalid instance_id hex: "@ + hex_error_text(FromHexError::InvalidStringLength)
                        },
                    }
                }
            }),
    {
        let cs = chars_of(text);
        let trimmed = string_from_chars(&trim_chars(&cs));
        let n = utf8_len_of(trimmed.as_str());
        if n != 64 {
            let mut m = String::from_str("Invalid instance_id length: ");
            push_decimal_wide(&mut m, n);
            m.append(" (expected 64)");
            return Err(VerificationError::AttestationFailed(m));
        }
        match Self::from_hex(trimmed.as_str()) {
            Ok(id) => Ok(id),
            Err(e) => {
                let t = e.to_string();
                Err(VerificationError::AttestationFailed(concat_str("Invalid instance_id hex: ", t.as_str())))
            },
        }
    }

    /// Whether every byte is zero.
    pub fn is_zero(&self) -> (r: bool)
        ensures
            r == (self@ == Seq::new(32, |i: int| 0u8)),
    {
        let r = crate::bytes::all_zero(self.0.0.as_slice());
        assert(r == (self@ =~= Seq::new(32, |i: int| 0u8)));
        r
    }

    /// The raw bytes.
    pub fn as_bytes(&self) -> (r: &[u8; 32])
        ensures
            r@ == self@,
    {
        self.0.as_bytes()
    }

    /// Lowercase hex text of the identity.
    pub fn to_hex(&self) -> (s: String)
        ensures
            s@ == hex_encode_spec(self@),
    {
        self.0.to_hex()
    }

    /// Short hex text for logs: the first four bytes.
    pub fn short(&self) -> (s: String)
        ensures
            s@ == hex_encode_spec(self@.subrange(0, 4)),
    {
        let b = self.0.as_bytes();
        let first: [u8; 4] = [b[0], b[1], b[2], b[3]];
        assert(first@ =~= self@.subrange(0, 4));
        hex::encode(first.as_slice())
    }

    /// Whether two identities are the same.
    pub fn same(&self, other: &Self) -> (r: bool)
        ensures
            r == (self@ == other@),
    {
        self.0.same(&other.0)
    }
}

impl From<Bytes32> for InstanceId {
    fn from(bytes: Bytes32) -> (r: Self) {
        InstanceId(bytes)
    }
}

impl FromSpecImpl<Bytes32> for InstanceId {
    open spec fn obeys_from_spec() -> bool {
        true
    }

    open spec fn from_spec(v: Bytes32) -> Self {
        InstanceId(v)
    }
}

impl From<[u8; 32]> for InstanceId {
    fn from(bytes: [u8; 32]) -> (r: Self) {
        InstanceId(Bytes32(bytes))
    }
}

impl FromSpecImpl<[u8; 32]> for InstanceId {
    open spec fn obeys_from_spec() -> bool {
        true
    }

    open spec fn from_spec(v: [u8; 32]) -> Self {
        InstanceId(Bytes32(v))
    }
}

} // verus!
