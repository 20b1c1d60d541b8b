//! Fixed-size byte strings with hex text forms.

use vstd::prelude::*;
use vstd::string::*;
use vstd::std_specs::convert::FromSpecImpl;
use crate::hex::{self, FromHexError, hex_decode_str, hex_encode_spec, hex_error_text};
use crate::text::{chars_of, string_from_chars, starts_with_seq, str_starts_with, dec_spec, push_decimal};

verus! {

/// Copies a slice of exactly 32 bytes into an array.
pub fn array32_from_slice(s: &[u8]) -> (a: [u8; 32])
    requires
        s@.len() == 32,
    ensures
        a@ == s@,
{
    let mut a = [0u8; 32];
    let mut i: usize = 0;
    while i < 32
        invariant
            s@.len() == 32,
            i <= 32,
            forall|j: int| 0 <= j < i ==> a@[j] == s@[j],
        decreases 32 - i,
    {
        a[i] = s[i];
        i = i + 1;
    }
    assert(a@ =~= s@);
    a
}

/// Appends the bytes of `s` to `v`.
pub fn append_bytes(v: &mut Vec<u8>, s: &[u8])
    ensures
        final(v)@ == old(v)@ + s@,
{
    let mut i: usize = 0;
    while i < s.len()
        invariant
            i <= s@.len(),
            v@ == old(v)@ + s@.subrange(0, i as int),
        decreases s.len() - i,
    {
        v.push(s[i]);
        i = i + 1;
        assert(v@ =~= old(v)@ + s@.subrange(0, i as int));
    }
    assert(s@.subrange(0, s@.len() as int) =~= s@);
}

/// Copies a slice of exactly 8 bytes into an array.
pub fn array8_from_slice(s: &[u8]) -> (a: [u8; 8])
    requires
        s@.len() == 8,
    ensures
        a@ == s@,
{
    let mut a = [0u8; 8];
    let mut i: usize = 0;
    while i < 8
        invariant
            s@.len() == 8,
            i <= 8,
            forall|j: int| 0 <= j < i ==> a@[j] == s@[j],
        decreases 8 - i,
    {
        a[i] = s[i];
        i = i + 1;
    }
    assert(a@ =~= s@);
    a
}

/// Copies a slice of exactly 48 bytes into an array.
pub fn array48_from_slice(s: &[u8]) -> (a: [u8; 48])
    requires
        s@.len() == 48,
    ensures
        a@ == s@,
{
    let mut a = [0u8; 48];
    let mut i: usize = 0;
    while i < 48
        invariant
            s@.len() == 48,
            i <= 48,
            forall|j: int| 0 <= j < i ==> a@[j] == s@[j],
        decreases 48 - i,
    {
        a[i] = s[i];
        i = i + 1;
    }
    assert(a@ =~= s@);
    a
}

/// Copies a slice of exactly 64 bytes into an array.
pub fn array64_from_slice(s: &[u8]) -> (a: [u8; 64])
    requires
        s@.len() == 64,
    ensures
        a@ == s@,
{
    let mut a = [0u8; 64];
    let mut i: usize = 0;
    while i < 64
        invariant
            s@.len() == 64,
            i <= 64,
            forall|j: int| 0 <= j < i ==> a@[j] == s@[j],
        decreases 64 - i,
    {
        a[i] = s[i];
        i = i + 1;
    }
    assert(a@ =~= s@);
    a
}

/// Whether two byte slices hold the same bytes.
pub fn bytes_eq(a: &[u8], b: &[u8]) -> (r: bool)
    ensures
        r == (a@ == b@),
{
    if a.len() != b.len() {
        return false;
    }
    let mut i: usize = 0;
    while i < a.len()
        invariant
            a@.len() == b@.len(),
            i <= a@.len(),
            forall|j: int| 0 <= j < i ==> a@[j] == b@[j],
        decreases a.len() - i,
    {
        if a[i] != b[i] {
            return false;
        }
        i = i + 1;
    }
    assert(a@ =~= b@);
    true
}

/// Whether every byte of a slice is zero.
pub fn all_zero(a: &[u8]) -> (r: bool)
    ensures
        r == (forall|j: int| 0 <= j < a@.len() ==> a@[j] == 0),
{
    let mut i: usize = 0;
    while i < a.len()
        invariant
            i <= a@.len(),
            forall|j: int| 0 <= j < i ==> a@[j] == 0,
        decreases a.len() - i,
    {
        if a[i] != 0 {
            return false;
        }
        i = i + 1;
    }
    true
}

/// The hex of a byte string as JSON carries it: an optional `0x` prefix
/// is dropped.
pub open spec fn wire_hex(s: Seq<char>) -> Seq<char> {
    if starts_with_seq(s, "0x"@) {
        s.subrange(2, s.len() as int)
    } else {
        s
    }
}

/// The message for wire text of the wrong size.
pub open spec fn size_error_text(expected: nat, got: nat) -> Seq<char> {
    "expected "@ + dec_spec(expected) + " bytes, got "@ + dec_spec(got)
}

/// What reading wire text for `n` bytes gives: the bytes, or the message of
/// the hex error or of the wrong size.
pub open spec fn wire_outcome(s: Seq<char>, n: nat, r: Result<Seq<u8>, Seq<char>>) -> bool {
    match hex_decode_str(wire_hex(s)) {
        Err(e) => r == Err::<Seq<u8>, Seq<char>>(hex_error_text(e)),
        Ok(b) => if b.len() != n {
            r == Err::<Seq<u8>, Seq<char>>(size_error_text(n, b.len()))
        } else {
            r == Ok::<Seq<u8>, Seq<char>>(b)
        },
    }
}

fn strip_hex_prefix(s: &str) -> (r: String)
    ensures
        r@ == wire_hex(s@),
{
    if !str_starts_with(s, "0x") {
        return String::from_str(s);
    }
    let cs = chars_of(s);
    let mut out: Vec<char> = Vec::new();
    let mut i: usize = 2;
    proof {
        reveal_strlit("0x");
    }
    while i < cs.len()
        invariant
            cs@ == s@,
            2 <= i <= cs@.len(),
            out@ == cs@.subrange(2, i as int),
        decreases cs.len() - i,
    {
        out.push(cs[i]);
        i = i + 1;
        assert(out@ =~= cs@.subrange(2, i as int));
    }
    string_from_chars(&out)
}

/// Reads wire text for `n` bytes (see `wire_outcome`).
fn wire_bytes(s: &str, n: usize) -> (r: Result<Vec<u8>, String>)
    ensures
        wire_outcome(s@, n as nat, match r {
            Ok(v) => Ok(v@),
            Err(m) => Err(m@),
        }),
{
    let t = strip_hex_prefix(s);
    match hex::decode(t.as_str()) {
        Err(e) => Err(e.to_string()),
        Ok(b) => if b.len() != n {
            let mut m = String::from_str("expected ");
            push_decimal(&mut m, n as u64);
            m.append(" bytes, got ");
            push_decimal(&mut m, b.len() as u64);
            Err(m)
        } else {
            Ok(b)
        },
    }
}

/// A 32-byte value (SHA-256 digests, report fields, instance identities).
#[derive(Clone, Copy, Debug, PartialEq, Eq, Hash)]
pub struct Bytes32(pub [u8; 32]);

/// A 48-byte value (TDX measurement registers, SEV-SNP launch measurement).
#[derive(Clone, Copy, Debug, PartialEq, Eq, Hash)]
pub struct Bytes48(pub [u8; 48]);

/// A 64-byte value (report data).
#[derive(Clone, Copy, Debug, PartialEq, Eq, Hash)]
pub struct Bytes64(pub [u8; 64]);

impl View for Bytes32 {
    type V = Seq<u8>;

    open spec fn view(&self) -> Seq<u8> {
        self.0@
    }
}

impl View for Bytes48 {
    type V = Seq<u8>;

    open spec fn view(&self) -> Seq<u8> {
        self.0@
    }
}

impl View for Bytes64 {
    type V = Seq<u8>;

    open spec fn view(&self) -> Seq<u8> {
        self.0@
    }
}

impl Bytes32 {
    /// Builds the value from a slice of exactly 32 bytes.
    pub fn from_slice(slice: &[u8]) -> (r: Self)
        requires
            slice@.len() == 32,
        ensures
            r@ == slice@,
    {
        Bytes32(array32_from_slice(slice))
    }

    /// The bytes.
    pub fn as_bytes(&self) -> (r: &[u8; 32])
        ensures
            r@ == self@,
    {
        &self.0
    }

    /// Lowercase hex text of the bytes.
    pub fn to_hex(&self) -> (s: String)
        ensures
            s@ == hex_encode_spec(self@),
    {
        hex::encode(self.0.as_slice())
    }

    /// Parses hex text that denotes exactly 32 bytes.
    pub fn from_hex(s: &str) -> (r: Result<Self, FromHexError>)
        ensures
            match hex_decode_str(s@) {
                Ok(b) => if b.len() == 32 {
                    r matches Ok(v) && v@ == b
                } else {
                    r == Err::<Self, FromHexError>(FromHexError::InvalidStringLength)
                },
                Err(e) => r == Err::<Self, FromHexError>(e),
            },
    {
        let bytes = hex::decode(s)?;
        if bytes.len() != 32 {
            return Err(FromHexError::InvalidStringLength);
        }
        Ok(Self::from_slice(bytes.as_slice()))
    }

    /// Display text: `0x` and the lowercase hex of the bytes.
    pub fn to_string(&self) -> (s: String)
        ensures
            s@ == "0x"@ + hex_encode_spec(self@),
    {
        let mut s = String::from_str("0x");
        let h = self.to_hex();
        s.append(h.as_str());
        s
    }

    /// Reads the value from its JSON text: hex with an optional `0x` prefix,
    /// of exactly 32 bytes.
    pub fn from_wire_text(s: &str) -> (r: Result<Self, String>)
        ensures
            wire_outcome(s@, 32, match r {
                Ok(v) => Ok(v@),
                Err(m) => Err(m@),
            }),
    {
        let b = wire_bytes(s, 32)?;
        Ok(Self::from_slice(b.as_slice()))
    }

    /// Whether two values hold the same bytes.
    pub fn same(&self, other: &Self) -> (r: bool)
        ensures
            r == (self@ == other@),
    {
        bytes_eq(self.0.as_slice(), other.0.as_slice())
    }
}

impl Bytes48 {
    /// Builds the value from a slice of exactly 48 bytes.
    pub fn from_slice(slice: &[u8]) -> (r: Self)
        requires
            slice@.len() == 48,
        ensures
            r@ == slice@,
    {
        Bytes48(array48_from_slice(slice))
    }

    /// The bytes.
    pub fn as_bytes(&self) -> (r: &[u8; 48])
        ensures
            r@ == self@,
    {
        &self.0
    }

    /// Lowercase hex text of the bytes.
    pub fn to_hex(&self) -> (s: String)
        ensures
            s@ == hex_encode_spec(self@),
    {
        hex::encode(self.0.as_slice())
    }

    /// Parses hex text that denotes exactly 48 bytes.
    pub fn from_hex(s: &str) -> (r: Result<Self, FromHexError>)
        ensures
            match hex_decode_str(s@) {
                Ok(b) => if b.len() == 48 {
                    r matches Ok(v) && v@ == b
                } else {
                    r == Err::<Self, FromHexError>(FromHexError::InvalidStringLength)
                },
                Err(e) => r == Err::<Self, FromHexError>(e),
            },
    {
        let bytes = hex::decode(s)?;
        if bytes.len() != 48 {
            return Err(FromHexError::InvalidStringLength);
        }
        Ok(Self::from_slice(bytes.as_slice()))
    }

    /// Display text: `0x` and the lowercase hex of the bytes.
    pub fn to_string(&self) -> (s: String)
        ensures
            s@ == "0x"@ + hex_encode_spec(self@),
    {
        let mut s = String::from_str("0x");
        let h = self.to_hex();
        s.append(h.as_str());
        s
    }

    /// Reads the value from its JSON text: hex with an optional `0x` prefix,
    /// of exactly 48 bytes.
    pub fn from_wire_text(s: &str) -> (r: Result<Self, String>)
        ensures
            wire_outcome(s@, 48, match r {
                Ok(v) => Ok(v@),
                Err(m) => Err(m@),
            }),
    {
        let b = wire_bytes(s, 48)?;
        Ok(Self::from_slice(b.as_slice()))
    }
}

impl Bytes64 {
    /// Builds the value from a slice of exactly 64 bytes.
    pub fn from_slice(slice: &[u8]) -> (r: Self)
        requires
            slice@.len() == 64,
        ensures
            r@ == slice@,
    {
        Bytes64(array64_from_slice(slice))
    }

    /// The bytes.
    pub fn as_bytes(&self) -> (r: &[u8; 64])
        ensures
            r@ == self@,
    {
        &self.0
    }

    /// Lowercase hex text of the bytes.
    pub fn to_hex(&self) -> (s: String)
        ensures
            s@ == hex_encode_spec(self@),
    {
        hex::encode(self.0.as_slice())
    }

    /// Parses hex text that denotes exactly 64 bytes.
    pub fn from_hex(s: &str) -> (r: Result<Self, FromHexError>)
        ensures
            match hex_decode_str(s@) {
                Ok(b) => if b.len() == 64 {
                    r matches Ok(v) && v@ == b
                } else {
                    r == Err::<Self, FromHexError>(FromHexError::InvalidStringLength)
                },
                Err(e) => r == Err::<Self, FromHexError>(e),
            },
    {
        let bytes = hex::decode(s)?;
        if bytes.len() != 64 {
            return Err(FromHexError::InvalidStringLength);
        }
        Ok(Self::from_slice(bytes.as_slice()))
    }

    /// Display text: `0x` and the lowercase hex of the bytes.
    pub fn to_string(&self) -> (s: String)
        ensures
            s@ == "0x"@ + hex_encode_spec(self@),
    {
        let mut s = String::from_str("0x");
        let h = self.to_hex();
        s.append(h.as_str());
        s
    }

    /// Reads the value from its JSON text: hex with an optional `0x` prefix,
    /// of exactly 64 bytes.
    pub fn from_wire_text(s: &str) -> (r: Result<Self, String>)
        ensures
            wire_outcome(s@, 64, match r {
                Ok(v) => Ok(v@),
                Err(m) => Err(m@),
            }),
    {
        let b = wire_bytes(s, 64)?;
        Ok(Self::from_slice(b.as_slice()))
    }
}


impl From<[u8; 32]> for Bytes32 {
    fn from(arr: [u8; 32]) -> (r: Self) {
        Bytes32(arr)
    }
}

impl FromSpecImpl<[u8; 32]> for Bytes32 {
    open spec fn obeys_from_spec() -> bool {
        true
    }

    open spec fn from_spec(v: [u8; 32]) -> Self {
        Bytes32(v)
    }
}

impl From<[u8; 48]> for Bytes48 {
    fn from(arr: [u8; 48]) -> (r: Self) {
        Bytes48(arr)
    }
}

impl FromSpecImpl<[u8; 48]> for Bytes48 {
    open spec fn obeys_from_spec() -> bool {
        true
    }

    open spec fn from_spec(v: [u8; 48]) -> Self {
        Bytes48(v)
    }
}

impl From<[u8; 64]> for Bytes64 {
    fn from(arr: [u8; 64]) -> (r: Self) {
        Bytes64(arr)
    }
}

impl FromSpecImpl<[u8; 64]> for Bytes64 {
    open spec fn obeys_from_spec() -> bool {
        true
    }

    open spec fn from_spec(v: [u8; 64]) -> Self {
        Bytes64(v)
    }
}


/// A value's hex text parses back to the same value: `from_hex` of
/// `to_hex` gives the value back.
pub proof fn law_bytes32_hex_roundtrip(b: Bytes32)
    ensures
        hex_decode_str(hex_encode_spec(b@)) == Ok::<Seq<u8>, FromHexError>(b@),
        b@.len() == 32,
{
    crate::hex::law_hex_roundtrip(b@);
}

} // verus!
