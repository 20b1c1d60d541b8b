//! Hashing, base64 and randomness, each through one trusted item.

use vstd::prelude::*;
use crate::text::{dec_spec, push_decimal};

verus! {

/// The SHA-256 digest of a byte string.
pub uninterp spec fn spec_sha256(data: Seq<u8>) -> Seq<u8>;

/// `sha2::Sha256::digest`: the 32-byte SHA-256 digest of `data`. The digest
/// is named, not computed here; its length is 32 as the output type fixes.
#[verifier::external_body]
pub fn sha256(data: &[u8]) -> (r: [u8; 32])
    ensures
        r@ == spec_sha256(data@),
        r@.len() == 32,
{
    <sha2::Sha256 as sha2::Digest>::digest(data).into()
}

/// Why standard base64 text could not be decoded (the variants of
/// `base64::DecodeError`).
#[derive(Debug, Clone, Copy, PartialEq, Eq)]
pub enum Base64Error {
    /// A byte outside the alphabet, with its offset.
    InvalidByte(usize, u8),
    /// A number of symbols that no encoding has.
    InvalidLength(usize),
    /// A last symbol with bits that would be discarded.
    InvalidLastSymbol(usize, u8),
    /// Missing or misplaced padding.
    InvalidPadding,
}

/// The display text of a base64 error, as `base64::DecodeError` writes it.
pub open spec fn base64_error_text(e: Base64Error) -> Seq<char> {
    match e {
        Base64Error::InvalidByte(i, b) => "Invalid symbol "@ + dec_spec(b as nat) + ", offset "@
            + dec_spec(i as nat) + "."@,
        Base64Error::InvalidLength(n) => "Invalid input length: "@ + dec_spec(n as nat),
        Base64Error::InvalidLastSymbol(i, b) => "Invalid last symbol "@ + dec_spec(b as nat)
            + ", offset "@ + dec_spec(i as nat) + "."@,
        Base64Error::InvalidPadding => "Invalid padding"@,
    }
}

impl Base64Error {
    /// The display text.
    pub fn to_string(&self) -> (s: String)
        ensures
            s@ == base64_error_text(*self),
    {
        match self {
            Base64Error::InvalidByte(i, b) => {
                let mut s = String::from_str("Invalid symbol ");
                push_decimal(&mut s, *b as u64);
                s.append(", offset ");
                push_decimal(&mut s, *i as u64);
                s.append(".");
                s
            },
            Base64Error::InvalidLength(n) => {
                let mut s = String::from_str("Invalid input length: ");
                push_decimal(&mut s, *n as u64);
                s
            },
            Base64Error::InvalidLastSymbol(i, b) => {
                let mut s = String::from_str("Invalid last symbol ");
                push_decimal(&mut s, *b as u64);
                s.append(", offset ");
                push_decimal(&mut s, *i as u64);
                s.append(".");
                s
            },
            Base64Error::InvalidPadding => String::from_str("Invalid padding"),
        }
    }
}

/// Standard-alphabet, padded base64 decoding of a byte string.
pub uninterp spec fn spec_base64_decode(input: Seq<u8>) -> Result<Seq<u8>, Base64Error>;

/// `base64::prelude::BASE64_STANDARD.decode`: decodes standard base64 with
/// padding. The result is named, not computed here; the error variants are
/// carried over one for one.
#[verifier::external_body]
pub fn base64_decode(input: &[u8]) -> (r: Result<Vec<u8>, Base64Error>)
    ensures
        match r {
            Ok(v) => spec_base64_decode(input@) == Ok::<Seq<u8>, Base64Error>(v@),
            Err(e) => spec_base64_decode(input@) == Err::<Seq<u8>, Base64Error>(e),
        },
{
    match base64::Engine::decode(&base64::prelude::BASE64_STANDARD, input) {
        Ok(v) => Ok(v),
        Err(base64::DecodeError::InvalidByte(i, b)) => Err(Base64Error::InvalidByte(i, b)),
        Err(base64::DecodeError::InvalidLength(n)) => Err(Base64Error::InvalidLength(n)),
        Err(base64::DecodeError::InvalidLastSymbol(i, b)) => Err(Base64Error::InvalidLastSymbol(i, b)),
        Err(base64::DecodeError::InvalidPadding) => Err(Base64Error::InvalidPadding),
    }
}

/// `rand::random::<[u8; 32]>()`: 32 random bytes. Nothing is promised of
/// their values.
#[verifier::external_body]
pub fn random_bytes32() -> (r: [u8; 32]) {
    rand::random::<[u8; 32]>()
}

} // verus!
