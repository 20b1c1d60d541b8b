//! Certificates: the TEE extension OIDs of Intel and AMD certificates, the
//! certificate data of a TDX quote's signature, and the namespace and
//! certificate records of the certificate service.

use vstd::prelude::*;
use vstd::string::*;
use vstd::utf8::{encode_utf8, valid_utf8};
use crate::errors::concat_str;
use crate::crypto::{base64_decode, spec_base64_decode};
use crate::hex::{self, hex_encode_spec};
use crate::text::{dec_spec, push_decimal, starts_with_seq, str_starts_with, chars_of, string_from_chars, trim_spec, trim_chars, find_from, find_chars, split_from, contains_seq, str_contains, lemma_find_from, is_ws, char_is_ws};

verus! {

/// OID prefix of Intel SGX/TDX certificate extensions.
pub const INTEL_SGX_OID_PREFIX: &'static str = "1.2.840.113741.1.13";
/// OID prefix of AMD SEV certificate extensions.
pub const AMD_SEV_OID_PREFIX: &'static str = "1.3.6.1.4.1.3704";
/// The namespace reserved for the guardians' own certificates.
pub const GUARDIAN_CERTIFICATE_NAMESPACE: &'static str = "guardian";

/// The vendor of a TEE certificate extension.
#[derive(Clone, Copy, Debug, PartialEq, Eq, Structural)]
pub enum TeePlatform {
    Intel,
    Amd,
}

impl TeePlatform {
    /// Display text: `Intel` or `AMD`.
    pub fn to_string(&self) -> (s: String)
        ensures
            s@ == match self {
                TeePlatform::Intel => "Intel"@,
                TeePlatform::Amd => "AMD"@,
            },
    {
        match self {
            TeePlatform::Intel => String::from_str("Intel"),
            TeePlatform::Amd => String::from_str("AMD"),
        }
    }
}

/// Whether a dotted OID is under the Intel or the AMD extension prefix.
pub fn is_tee_oid(oid_str: &str) -> (r: bool)
    ensures
        r == (starts_with_seq(oid_str@, INTEL_SGX_OID_PREFIX@) || starts_with_seq(oid_str@, AMD_SEV_OID_PREFIX@)),
{
    str_starts_with(oid_str, INTEL_SGX_OID_PREFIX) || str_starts_with(oid_str, AMD_SEV_OID_PREFIX)
}

/// The vendor of a dotted OID, by its prefix.
pub fn tee_platform(oid_str: &str) -> (r: Option<TeePlatform>)
    ensures
        r == if starts_with_seq(oid_str@, INTEL_SGX_OID_PREFIX@) {
            Some(TeePlatform::Intel)
        } else if starts_with_seq(oid_str@, AMD_SEV_OID_PREFIX@) {
            Some(TeePlatform::Amd)
        } else {
            None
        },
{
    if str_starts_with(oid_str, INTEL_SGX_OID_PREFIX) {
        Some(TeePlatform::Intel)
    } else if str_starts_with(oid_str, AMD_SEV_OID_PREFIX) {
        Some(TeePlatform::Amd)
    } else {
        None
    }
}

/// Whether a namespace name is reserved for the guardians.
pub fn is_reserved_namespace(name: &str) -> (r: bool)
    ensures
        r == (name@ == GUARDIAN_CERTIFICATE_NAMESPACE@),
{
    crate::json::str_eq(name, GUARDIAN_CERTIFICATE_NAMESPACE)
}

/// The short names of the TEE extension OIDs.
pub open spec fn tee_oid_table() -> Seq<(Seq<char>, Seq<char>)> {
    seq![
        ("1.2.840.113741.1.13.1"@, "SGX-Extensions"@),
        ("1.2.840.113741.1.13.1.1"@, "PPID"@),
        ("1.2.840.113741.1.13.1.2"@, "TCB"@),
        ("1.2.840.113741.1.13.1.2.17"@, "PCESVN"@),
        ("1.2.840.113741.1.13.1.2.18"@, "CPUSVN"@),
        ("1.2.840.113741.1.13.1.3"@, "PCE-ID"@),
        ("1.2.840.113741.1.13.1.4"@, "FMSPC"@),
        ("1.2.840.113741.1.13.1.5"@, "SGX-Type"@),
        ("1.2.840.113741.1.13.1.6"@, "Platform-Instance-ID"@),
        ("1.3.6.1.4.1.3704.1.1"@, "BlSpl"@),
        ("1.3.6.1.4.1.3704.1.2"@, "Product"@),
        ("1.3.6.1.4.1.3704.1.3.1"@, "LoaderSpl"@),
        ("1.3.6.1.4.1.3704.1.3.2"@, "TeeSpl"@),
        ("1.3.6.1.4.1.3704.1.3.3"@, "SnpSpl"@),
        ("1.3.6.1.4.1.3704.1.3.4"@, "Spl4"@),
        ("1.3.6.1.4.1.3704.1.3.5"@, "Spl5"@),
        ("1.3.6.1.4.1.3704.1.3.6"@, "Spl6"@),
        ("1.3.6.1.4.1.3704.1.3.7"@, "Spl7"@),
        ("1.3.6.1.4.1.3704.1.3.8"@, "UcodeSpl"@),
        ("1.3.6.1.4.1.3704.1.3.9"@, "FmcSpl"@),
        ("1.3.6.1.4.1.3704.1.4"@, "HW-ID"@),
    ]
}

/// The short name the TEE table gives an OID, if it lists it.
pub open spec fn tee_oid_lookup(oid: Seq<char>) -> Option<Seq<char>> {
    if exists|i: int| 0 <= i < tee_oid_table().len() && (#[trigger] tee_oid_table()[i]).0 == oid {
        Some(tee_oid_table()[choose|i: int| 0 <= i < tee_oid_table().len() && (#[trigger] tee_oid_table()[i]).0 == oid].1)
    } else {
        None
    }
}

/// The name of a TEE extension OID: its short name from the table, or
/// `OID(<oid>)` for one that is not listed.
pub open spec fn tee_oid_name_spec(oid: Seq<char>) -> Seq<char> {
    match tee_oid_lookup(oid) {
        Some(n) => n,
        None => "OID("@ + oid + ")"@,
    }
}

fn oid_entries() -> (v: Vec<(&'static str, &'static str)>)
    ensures
        v@.len() == tee_oid_table().len(),
        forall|i: int| 0 <= i < v@.len() ==> (#[trigger] v@[i]).0@ == tee_oid_table()[i].0 && v@[i].1@ == tee_oid_table()[i].1,
{
    let v = vec![
        ("1.2.840.113741.1.13.1", "SGX-Extensions"),
        ("1.2.840.113741.1.13.1.1", "PPID"),
        ("1.2.840.113741.1.13.1.2", "TCB"),
        ("1.2.840.113741.1.13.1.2.17", "PCESVN"),
        ("1.2.840.113741.1.13.1.2.18", "CPUSVN"),
        ("1.2.840.113741.1.13.1.3", "PCE-ID"),
        ("1.2.840.113741.1.13.1.4", "FMSPC"),
        ("1.2.840.113741.1.13.1.5", "SGX-Type"),
        ("1.2.840.113741.1.13.1.6", "Platform-Instance-ID"),
        ("1.3.6.1.4.1.3704.1.1", "BlSpl"),
        ("1.3.6.1.4.1.3704.1.2", "Product"),
        ("1.3.6.1.4.1.3704.1.3.1", "LoaderSpl"),
        ("1.3.6.1.4.1.3704.1.3.2", "TeeSpl"),
        ("1.3.6.1.4.1.3704.1.3.3", "SnpSpl"),
        ("1.3.6.1.4.1.3704.1.3.4", "Spl4"),
        ("1.3.6.1.4.1.3704.1.3.5", "Spl5"),
        ("1.3.6.1.4.1.3704.1.3.6", "Spl6"),
        ("1.3.6.1.4.1.3704.1.3.7", "Spl7"),
        ("1.3.6.1.4.1.3704.1.3.8", "UcodeSpl"),
        ("1.3.6.1.4.1.3704.1.3.9", "FmcSpl"),
        ("1.3.6.1.4.1.3704.1.4", "HW-ID"),
    ];
    assert(v@ =~= seq![
        ("1.2.840.113741.1.13.1", "SGX-Extensions"),
        ("1.2.840.113741.1.13.1.1", "PPID"),
        ("1.2.840.113741.1.13.1.2", "TCB"),
        ("1.2.840.113741.1.13.1.2.17", "PCESVN"),
        ("1.2.840.113741.1.13.1.2.18", "CPUSVN"),
        ("1.2.840.113741.1.13.1.3", "PCE-ID"),
        ("1.2.840.113741.1.13.1.4", "FMSPC"),
        ("1.2.840.113741.1.13.1.5", "SGX-Type"),
        ("1.2.840.113741.1.13.1.6", "Platform-Instance-ID"),
        ("1.3.6.1.4.1.3704.1.1", "BlSpl"),
        ("1.3.6.1.4.1.3704.1.2", "Product"),
        ("1.3.6.1.4.1.3704.1.3.1", "LoaderSpl"),
        ("1.3.6.1.4.1.3704.1.3.2", "TeeSpl"),
        ("1.3.6.1.4.1.3704.1.3.3", "SnpSpl"),
        ("1.3.6.1.4.1.3704.1.3.4", "Spl4"),
        ("1.3.6.1.4.1.3704.1.3.5", "Spl5"),
        ("1.3.6.1.4.1.3704.1.3.6", "Spl6"),
        ("1.3.6.1.4.1.3704.1.3.7", "Spl7"),
        ("1.3.6.1.4.1.3704.1.3.8", "UcodeSpl"),
        ("1.3.6.1.4.1.3704.1.3.9", "FmcSpl"),
        ("1.3.6.1.4.1.3704.1.4", "HW-ID"),
    ]);
    v
}

/// The short name the TEE table gives an OID (see `tee_oid_lookup`).
pub fn tee_oid_short_name(oid: &str) -> (r: Option<String>)
    ensures
        match r {
            Some(n) => tee_oid_lookup(oid@) == Some(n@),
            None => tee_oid_lookup(oid@) is None,
        },
{
    let table = oid_entries();
    let mut i: usize = 0;
    while i < table.len()
        invariant
            table@.len() == tee_oid_table().len(),
            forall|j: int| 0 <= j < table@.len() ==> (#[trigger] table@[j]).0@ == tee_oid_table()[j].0 && table@[j].1@ == tee_oid_table()[j].1,
            i <= table@.len(),
            forall|j: int| 0 <= j < i ==> (#[trigger] tee_oid_table()[j]).0 != oid@,
        decreases table.len() - i,
    {
        if crate::json::str_eq(table[i].0, oid) {
            proof {
                let k = choose|k: int| 0 <= k < tee_oid_table().len() && (#[trigger] tee_oid_table()[k]).0 == oid@;
                assert(k == i) by {
                    if k < i {
                    } else if k > i {
                        distinct_oids(i as int, k);
                    }
                }
            }
            return Some(String::from_str(table[i].1));
        }
        i = i + 1;
    }
    None
}

/// The name of a TEE extension OID (see `tee_oid_name_spec`).
pub fn tee_oid_name(oid: &str) -> (s: String)
    ensures
        s@ == tee_oid_name_spec(oid@),
{
    if let Some(n) = tee_oid_short_name(oid) {
        return n;
    }
    let mut s = String::from_str("OID(");
    s.append(oid);
    s.append(")");
    s
}

proof fn distinct_oids(i: int, k: int)
    requires
        0 <= i < k < tee_oid_table().len(),
    ensures
        tee_oid_table()[i].0 != tee_oid_table()[k].0,
{
    reveal_strlit("1.2.840.113741.1.13.1");
    reveal_strlit("1.2.840.113741.1.13.1.1");
    reveal_strlit("1.2.840.113741.1.13.1.2");
    reveal_strlit("1.2.840.113741.1.13.1.2.17");
    reveal_strlit("1.2.840.113741.1.13.1.2.18");
    reveal_strlit("1.2.840.113741.1.13.1.3");
    reveal_strlit("1.2.840.113741.1.13.1.4");
    reveal_strlit("1.2.840.113741.1.13.1.5");
    reveal_strlit("1.2.840.113741.1.13.1.6");
    reveal_strlit("1.3.6.1.4.1.3704.1.1");
    reveal_strlit("1.3.6.1.4.1.3704.1.2");
    reveal_strlit("1.3.6.1.4.1.3704.1.3.1");
    reveal_strlit("1.3.6.1.4.1.3704.1.3.2");
    reveal_strlit("1.3.6.1.4.1.3704.1.3.3");
    reveal_strlit("1.3.6.1.4.1.3704.1.3.4");
    reveal_strlit("1.3.6.1.4.1.3704.1.3.5");
    reveal_strlit("1.3.6.1.4.1.3704.1.3.6");
    reveal_strlit("1.3.6.1.4.1.3704.1.3.7");
    reveal_strlit("1.3.6.1.4.1.3704.1.3.8");
    reveal_strlit("1.3.6.1.4.1.3704.1.3.9");
    reveal_strlit("1.3.6.1.4.1.3704.1.4");
    let a = tee_oid_table()[i].0;
    let b = tee_oid_table()[k].0;
    if a.len() == b.len() {
        assert(exists|t: int| 0 <= t < a.len() && a[t] != b[t]) by {
            assert(a[a.len() - 1] != b[b.len() - 1] || a[a.len() - 2] != b[b.len() - 2] || a[a.len() - 3] != b[b.len() - 3]
                || a[11] != b[11]);
        }
    }
}

/// The type of the certification data in a quote's signature.
#[derive(Clone, Copy, Debug, PartialEq, Eq, Structural)]
pub enum CertDataType {
    PpidPlaintext,
    PpidRsa2048,
    PpidRsa3072,
    PckLeafCert,
    PckCertChain,
    QeReportCertData,
    PlatformManifest,
}

/// The certification data type with wire number `v` (1 to 7).
pub open spec fn cert_data_type_of(v: u16) -> Option<CertDataType> {
    if v == 1 {
        Some(CertDataType::PpidPlaintext)
    } else if v == 2 {
        Some(CertDataType::PpidRsa2048)
    } else if v == 3 {
        Some(CertDataType::PpidRsa3072)
    } else if v == 4 {
        Some(CertDataType::PckLeafCert)
    } else if v == 5 {
        Some(CertDataType::PckCertChain)
    } else if v == 6 {
        Some(CertDataType::QeReportCertData)
    } else if v == 7 {
        Some(CertDataType::PlatformManifest)
    } else {
        None
    }
}

/// The wire number of a type.
pub open spec fn cert_data_type_number(t: CertDataType) -> u16 {
    match t {
        CertDataType::PpidPlaintext => 1,
        CertDataType::PpidRsa2048 => 2,
        CertDataType::PpidRsa3072 => 3,
        CertDataType::PckLeafCert => 4,
        CertDataType::PckCertChain => 5,
        CertDataType::QeReportCertData => 6,
        CertDataType::PlatformManifest => 7,
    }
}

/// The display name of a type.
pub open spec fn cert_data_type_name(t: CertDataType) -> Seq<char> {
    match t {
        CertDataType::PpidPlaintext => "PPID Plaintext"@,
        CertDataType::PpidRsa2048 => "PPID RSA-2048"@,
        CertDataType::PpidRsa3072 => "PPID RSA-3072"@,
        CertDataType::PckLeafCert => "PCK Leaf Cert"@,
        CertDataType::PckCertChain => "PCK Cert Chain"@,
        CertDataType::QeReportCertData => "QE Report + Certs"@,
        CertDataType::PlatformManifest => "Platform Manifest"@,
    }
}

impl CertDataType {
    /// The type with wire number `value`.
    pub fn from_u16(value: u16) -> (r: Option<Self>)
        ensures
            r == cert_data_type_of(value),
    {
        match value {
            1 => Some(CertDataType::PpidPlaintext),
            2 => Some(CertDataType::PpidRsa2048),
            3 => Some(CertDataType::PpidRsa3072),
            4 => Some(CertDataType::PckLeafCert),
            5 => Some(CertDataType::PckCertChain),
            6 => Some(CertDataType::QeReportCertData),
            7 => Some(CertDataType::PlatformManifest),
            _ => None,
        }
    }

    /// The wire number of the type.
    pub fn as_u16(&self) -> (r: u16)
        ensures
            r == cert_data_type_number(*self),
            cert_data_type_of(r) == Some(*self),
    {
        match self {
            CertDataType::PpidPlaintext => 1,
            CertDataType::PpidRsa2048 => 2,
            CertDataType::PpidRsa3072 => 3,
            CertDataType::PckLeafCert => 4,
            CertDataType::PckCertChain => 5,
            CertDataType::QeReportCertData => 6,
            CertDataType::PlatformManifest => 7,
        }
    }

    /// Display text, such as `PCK Cert Chain`.
    pub fn to_string(&self) -> (s: String)
        ensures
            s@ == cert_data_type_name(*self),
    {
        match self {
            CertDataType::PpidPlaintext => String::from_str("PPID Plaintext"),
            CertDataType::PpidRsa2048 => String::from_str("PPID RSA-2048"),
            CertDataType::PpidRsa3072 => String::from_str("PPID RSA-3072"),
            CertDataType::PckLeafCert => String::from_str("PCK Leaf Cert"),
            CertDataType::PckCertChain => String::from_str("PCK Cert Chain"),
            CertDataType::QeReportCertData => String::from_str("QE Report + Certs"),
            CertDataType::PlatformManifest => String::from_str("Platform Manifest"),
        }
    }
}

/// Reading the wire number of a type back gives the type.
pub proof fn law_cert_data_type_roundtrip(v: u16)
    ensures
        cert_data_type_of(v) matches Some(t) ==> 1 <= v <= 7,
        (1 <= v <= 7) ==> cert_data_type_of(v) is Some,
{
}

/// Why a quote's signature data could not be read.
#[derive(Clone, Debug, PartialEq, Eq)]
pub enum QuoteSignatureError {
    TooShort(String),
    InvalidSignatureData(String),
    CertificateError(String),
}

/// The display text of a signature data error.
pub open spec fn signature_error_text(e: QuoteSignatureError) -> Seq<char> {
    match e {
        QuoteSignatureError::TooShort(s) => "Quote too short: "@ + s@,
        QuoteSignatureError::InvalidSignatureData(s) => "Invalid signature data: "@ + s@,
        QuoteSignatureError::CertificateError(s) => "Certificate parsing error: "@ + s@,
    }
}

impl QuoteSignatureError {
    /// The display text.
    pub fn to_string(&self) -> (s: String)
        ensures
            s@ == signature_error_text(*self),
    {
        match self {
            QuoteSignatureError::TooShort(s) => concat_str("Quote too short: ", s.as_str()),
            QuoteSignatureError::InvalidSignatureData(s) => concat_str("Invalid signature data: ", s.as_str()),
            QuoteSignatureError::CertificateError(s) => concat_str("Certificate parsing error: ", s.as_str()),
        }
    }
}

/// The little-endian value of two bytes.
pub open spec fn le16(b: Seq<u8>, at: int) -> int {
    b[at] + b[at + 1] * 256
}

/// The little-endian value of four bytes.
pub open spec fn le32(b: Seq<u8>, at: int) -> int {
    b[at] + b[at + 1] * 0x100 + b[at + 2] * 0x1_0000 + b[at + 3] * 0x100_0000
}

fn read_le16(b: &[u8], at: usize) -> (r: u16)
    requires
        at + 2 <= b@.len(),
    ensures
        r == le16(b@, at as int),
{
    let lo = b[at];
    let hi = b[at + 1];
    let v: u16 = (lo as u16) | ((hi as u16) << 8u16);
    assert(v == lo + hi * 256) by (bit_vector)
        requires
            v == (lo as u16) | ((hi as u16) << 8u16),
    ;
    v
}

fn read_le32(b: &[u8], at: usize) -> (r: u32)
    requires
        at + 4 <= b@.len(),
    ensures
        r == le32(b@, at as int),
{
    let b0 = b[at];
    let b1 = b[at + 1];
    let b2 = b[at + 2];
    let b3 = b[at + 3];
    let v: u32 = (b0 as u32) | ((b1 as u32) << 8u32) | ((b2 as u32) << 16u32) | ((b3 as u32) << 24u32);
    assert(v == b0 + b1 * 0x100 + b2 * 0x1_0000 + b3 * 0x100_0000) by (bit_vector)
        requires
            v == (b0 as u32) | ((b1 as u32) << 8u32) | ((b2 as u32) << 16u32) | ((b3 as u32) << 24u32),
    ;
    v
}

fn copy_range(b: &[u8], lo: usize, hi: usize) -> (r: Vec<u8>)
    requires
        lo <= hi <= b@.len(),
    ensures
        r@ == b@.subrange(lo as int, hi as int),
{
    let mut v: Vec<u8> = Vec::new();
    crate::bytes::append_bytes(&mut v, &b[lo..hi]);
    v
}

/// The signature data of a quote: the ECDSA signature, the attestation
/// key, and the certification data with its declared type and size.
#[derive(Clone, Debug)]
pub struct SignatureLayout {
    pub signature: Vec<u8>,
    pub attest_pub_key: Vec<u8>,
    /// The declared type, if it is a known one.
    pub cert_data_type: Option<CertDataType>,
    /// The declared size of the certification data.
    pub cert_data_size: usize,
    /// The certification data, when it is present in full and not empty.
    pub cert_data: Option<Vec<u8>>,
}

/// How the signature data at `offset` of a quote is laid out: a 4-byte
/// length, then a 64-byte signature, a 64-byte attestation key, a 2-byte
/// certification data type, a 4-byte size and the data.
pub open spec fn layout_outcome(q: Seq<u8>, offset: int, r: Result<SignatureLayout, QuoteSignatureError>) -> bool {
    if q.len() < offset + 4 {
        r matches Err(QuoteSignatureError::TooShort(m)) && m@ == "Quote too short for signature"@
    } else {
        let n = le32(q, offset);
        if q.len() - offset < 4 + n {
            r matches Err(QuoteSignatureError::TooShort(m)) && m@ == "Signature data truncated"@
        } else if n < 134 {
            r matches Err(QuoteSignatureError::TooShort(m)) && m@ == "Signature content too short"@
        } else {
            let c = q.subrange(offset + 4, offset + 4 + n);
            let size = le32(c, 130);
            r matches Ok(l) && l.signature@ == c.subrange(0, 64) && l.attest_pub_key@ == c.subrange(64, 128)
                && l.cert_data_type == cert_data_type_of(le16(c, 128) as u16)
                && l.cert_data_size == size
                && (if c.len() >= 134 + size && size > 0 {
                    l.cert_data matches Some(d) && d@ == c.subrange(134, 134 + size)
                } else {
                    l.cert_data is None
                })
        }
    }
}

/// Reads the signature data of a quote at `sig_data_offset`.
pub fn parse_signature_layout(quote_bytes: &[u8], sig_data_offset: usize) -> (r: Result<SignatureLayout, QuoteSignatureError>)
    ensures
        layout_outcome(quote_bytes@, sig_data_offset as int, r),
{
    if quote_bytes.len() < 4 || sig_data_offset > quote_bytes.len() - 4 {
        return Err(QuoteSignatureError::TooShort(String::from_str("Quote too short for signature")));
    }
    let n = read_le32(quote_bytes, sig_data_offset) as usize;
    let avail = quote_bytes.len() - sig_data_offset;
    if avail - 4 < n {
        return Err(QuoteSignatureError::TooShort(String::from_str("Signature data truncated")));
    }
    if n < 134 {
        return Err(QuoteSignatureError::TooShort(String::from_str("Signature content too short")));
    }
    let start = sig_data_offset + 4;
    let content = &quote_bytes[start..start + n];
    let signature = copy_range(content, 0, 64);
    let attest_pub_key = copy_range(content, 64, 128);
    let cert_data_type = CertDataType::from_u16(read_le16(content, 128));
    let size = read_le32(content, 130) as usize;
    let cert_data = if content.len() - 134 >= size && size > 0 {
        Some(copy_range(content, 134, 134 + size))
    } else {
        None
    };
    Ok(SignatureLayout { signature, attest_pub_key, cert_data_type, cert_data_size: size, cert_data })
}

/// Where the PEM certificates are in certification data of a type: the
/// data itself for PCK chains and leaf certificates; the nested data after
/// a QE report (384 bytes), its signature (64), authentication data (2-byte
/// size, then the data) and the nested type and size; nothing for the
/// other types.
pub open spec fn pem_location_outcome(t: CertDataType, d: Seq<u8>, r: Result<Option<(CertDataType, Seq<u8>)>, QuoteSignatureError>) -> bool {
    match t {
        CertDataType::PckCertChain | CertDataType::PckLeafCert => r == Ok::<Option<(CertDataType, Seq<u8>)>, QuoteSignatureError>(Some((t, d))),
        CertDataType::QeReportCertData => if d.len() < 450 {
            r matches Err(QuoteSignatureError::CertificateError(m)) && m@ == "QE Report data too short"@
        } else {
            let pos = 450 + le16(d, 448);
            if d.len() < pos + 6 {
                r matches Err(QuoteSignatureError::CertificateError(m)) && m@ == "Missing nested cert data"@
            } else {
                let nested = match cert_data_type_of(le16(d, pos) as u16) {
                    Some(x) => x,
                    None => CertDataType::PckCertChain,
                };
                let size = le32(d, pos + 2);
                if d.len() < pos + 6 + size {
                    r matches Err(QuoteSignatureError::CertificateError(m)) && m@ == "Nested cert data truncated"@
                } else {
                    r == Ok::<Option<(CertDataType, Seq<u8>)>, QuoteSignatureError>(Some((nested, d.subrange(pos + 6, pos + 6 + size))))
                }
            }
        },
        _ => r == Ok::<Option<(CertDataType, Seq<u8>)>, QuoteSignatureError>(None),
    }
}

/// Finds the PEM data in certification data of the given type (see
/// `pem_location_outcome`).
pub fn locate_pem_data(data_type: CertDataType, data: &[u8]) -> (r: Result<Option<(CertDataType, Vec<u8>)>, QuoteSignatureError>)
    ensures
        pem_location_outcome(data_type, data@, match r {
            Ok(Some((t, v))) => Ok(Some((t, v@))),
            Ok(None) => Ok(None),
            Err(e) => Err(e),
        }),
{
    match data_type {
        CertDataType::PckCertChain | CertDataType::PckLeafCert => {
            let v = copy_range(data, 0, data.len());
            assert(v@ =~= data@);
            Ok(Some((data_type, v)))
        },
        CertDataType::QeReportCertData => {
            if data.len() < 450 {
                return Err(QuoteSignatureError::CertificateError(String::from_str("QE Report data too short")));
            }
            let auth = read_le16(data, 448) as usize;
            let pos = 450 + auth;
            if data.len() < pos || data.len() - pos < 6 {
                return Err(QuoteSignatureError::CertificateError(String::from_str("Missing nested cert data")));
            }
            let nested = match CertDataType::from_u16(read_le16(data, pos)) {
                Some(x) => x,
                None => CertDataType::PckCertChain,
            };
            let size = read_le32(data, pos + 2) as usize;
            if data.len() - (pos + 6) < size {
                return Err(QuoteSignatureError::CertificateError(String::from_str("Nested cert data truncated")));
            }
            Ok(Some((nested, copy_range(data, pos + 6, pos + 6 + size))))
        },
        _ => Ok(None),
    }
}

/// The line that opens a PEM certificate.
pub const PEM_BEGIN: &'static str = "-----BEGIN CERTIFICATE-----";
/// The line that closes a PEM certificate.
pub const PEM_END: &'static str = "-----END CERTIFICATE-----";

/// The certificate a piece of a PEM chain gives: the trimmed piece with the
/// closing line put back, when it holds an opening line.
pub open spec fn pem_piece_certs(p: Seq<char>) -> Seq<Seq<char>> {
    if contains_seq(trim_spec(p), PEM_BEGIN@) {
        seq![trim_spec(p) + PEM_END@]
    } else {
        Seq::empty()
    }
}

/// The certificates of the pieces of a PEM chain, in order.
pub open spec fn pem_certs(pieces: Seq<Seq<char>>) -> Seq<Seq<char>>
    decreases pieces.len(),
{
    if pieces.len() == 0 {
        Seq::empty()
    } else {
        pem_piece_certs(pieces[0]) + pem_certs(pieces.drop_first())
    }
}

/// The PEM certificates of a chain: the text is split at each closing line,
/// and every trimmed piece that holds an opening line becomes a certificate
/// with its closing line.
pub fn split_pem_chain(pem_data: &str) -> (r: Vec<String>)
    ensures
        r@.map_values(|c: String| c@) == pem_certs(split_from(pem_data@, PEM_END@, 0)),
{
    let h = chars_of(pem_data);
    let end = chars_of(PEM_END);
    proof {
        reveal_strlit("-----END CERTIFICATE-----");
    }
    assert(end@.len() > 0);
    let mut out: Vec<String> = Vec::new();
    let mut start: usize = 0;
    let mut done = false;
    while !done
        invariant
            h@ == pem_data@,
            end@ == PEM_END@,
            end@.len() > 0,
            start <= h@.len(),
            !done ==> out@.map_values(|c: String| c@) + pem_certs(split_from(h@, end@, start as int))
                == pem_certs(split_from(h@, end@, 0)),
            done ==> out@.map_values(|c: String| c@) == pem_certs(split_from(h@, end@, 0)),
        decreases h@.len() - start + if done { 0int } else { 1int },
    {
        let found = find_chars(&h, &end, start);
        proof {
            lemma_find_from(h@, end@, start as int);
        }
        let stop: usize = match found {
            Some(k) => k,
            None => h.len(),
        };
        let mut piece: Vec<char> = Vec::new();
        let mut i: usize = start;
        while i < stop
            invariant
                start <= i <= stop <= h@.len(),
                piece@ == h@.subrange(start as int, i as int),
            decreases stop - i,
        {
            piece.push(h[i]);
            i = i + 1;
            assert(piece@ =~= h@.subrange(start as int, i as int));
        }
        let t = trim_chars(&piece);
        let ts = string_from_chars(&t);
        let ghost pieces = split_from(h@, end@, start as int);
        let ghost before = out@.map_values(|c: String| c@);
        if str_contains(ts.as_str(), PEM_BEGIN) {
            let mut cert = ts;
            cert.append(PEM_END);
            out.push(cert);
        }
        proof {
            assert(pieces[0] == piece@);
            assert(out@.map_values(|c: String| c@) =~= before + pem_piece_certs(piece@));
        }
        match found {
            Some(k) => {
                proof {
                    assert(pieces.drop_first() =~= split_from(h@, end@, k + end@.len()));
                    assert(before + pem_certs(pieces) =~= out@.map_values(|c: String| c@) + pem_certs(pieces.drop_first()));
                }
                assert(k + end@.len() <= h@.len());
                let hl = h.len();
                assert(k + end.len() <= hl);
                start = k + end.len();
            },
            None => {
                proof {
                    assert(pieces.drop_first() =~= Seq::<Seq<char>>::empty());
                    assert(pem_certs(pieces.drop_first()) =~= Seq::<Seq<char>>::empty());
                    assert(before + pem_certs(pieces) =~= out@.map_values(|c: String| c@));
                }
                done = true;
            },
        }
    }
    out
}

/// `std::str::from_utf8(bytes).ok().map(String::from)`: the text whose
/// UTF-8 encoding is `bytes`, when they are valid UTF-8.
#[verifier::external_body]
pub fn utf8_text(bytes: &[u8]) -> (r: Option<String>)
    ensures
        r is Some <==> valid_utf8(bytes@),
        r matches Some(t) ==> encode_utf8(t@) == bytes@,
{
    std::str::from_utf8(bytes).ok().map(String::from)
}

/// The characters that are not white space.
pub open spec fn strip_ws(s: Seq<char>) -> Seq<char> {
    s.filter(|c: char| !is_ws(c))
}

/// The DER bytes of a PEM certificate: the base64 between the opening and
/// the closing line, without white space.
pub open spec fn pem_der(p: Seq<char>) -> Option<Seq<u8>> {
    match (find_from(p, PEM_BEGIN@, 0), find_from(p, PEM_END@, 0)) {
        (Some(b), Some(e)) => match spec_base64_decode(encode_utf8(strip_ws(p.subrange(b + 27, e)))) {
            Ok(d) => Some(d),
            Err(_) => None,
        },
        _ => None,
    }
}

/// Whether the closing line of a PEM text does not come before the end of
/// its opening line (so that the base64 between them can be cut out).
pub open spec fn pem_markers_ordered(p: Seq<char>) -> bool {
    match (find_from(p, PEM_BEGIN@, 0), find_from(p, PEM_END@, 0)) {
        (Some(b), Some(e)) => b + 27 <= e,
        _ => true,
    }
}

/// Whether a PEM text has its markers in order (see `pem_markers_ordered`).
pub fn pem_markers_check(pem: &str) -> (r: bool)
    ensures
        r == pem_markers_ordered(pem@),
{
    let h = chars_of(pem);
    let begin = chars_of(PEM_BEGIN);
    let end = chars_of(PEM_END);
    proof {
        reveal_strlit("-----BEGIN CERTIFICATE-----");
    }
    match (find_chars(&h, &begin, 0), find_chars(&h, &end, 0)) {
        (Some(b), Some(e)) => (b as u128) + 27 <= (e as u128),
        _ => true,
    }
}

/// Decodes a PEM certificate into DER (see `pem_der`).
pub fn pem_to_der(pem: &str) -> (r: Option<Vec<u8>>)
    requires
        pem_markers_ordered(pem@),
    ensures
        match pem_der(pem@) {
            Some(d) => r matches Some(v) && v@ == d,
            None => r is None,
        },
{
    proof {
        reveal_strlit("-----BEGIN CERTIFICATE-----");
    }
    let h = chars_of(pem);
    let begin = chars_of(PEM_BEGIN);
    let end = chars_of(PEM_END);
    let b = match find_chars(&h, &begin, 0) {
        Some(b) => b,
        None => {
            return None;
        },
    };
    let e = match find_chars(&h, &end, 0) {
        Some(e) => e,
        None => {
            return None;
        },
    };
    proof {
        lemma_find_from(h@, end@, 0);
        lemma_find_from(h@, begin@, 0);
        assert(begin@ == PEM_BEGIN@);
        assert(find_from(pem@, PEM_BEGIN@, 0) == Some(b as int));
        assert(find_from(pem@, PEM_END@, 0) == Some(e as int));
        assert(b + 27 <= e);
    }
    let start = b + 27;
    let mut kept: Vec<char> = Vec::new();
    let mut i: usize = start;
    while i < e
        invariant
            start <= i <= e <= h@.len(),
            kept@ == strip_ws(h@.subrange(start as int, i as int)),
        decreases e - i,
    {
        let c = h[i];
        proof {
            assert(h@.subrange(start as int, i + 1) =~= h@.subrange(start as int, i as int).push(c));
            h@.subrange(start as int, i as int).lemma_filter_push(c, |c: char| !is_ws(c));
        }
        if !char_is_ws(c) {
            kept.push(c);
        }
        i = i + 1;
    }
    let b64 = string_from_chars(&kept);
    match base64_decode(b64.as_str().as_bytes()) {
        Ok(d) => Some(d),
        Err(_) => None,
    }
}

/// The big-endian value of bytes.
pub open spec fn be_value(b: Seq<u8>) -> nat
    decreases b.len(),
{
    if b.len() == 0 {
        0
    } else {
        256 * be_value(b.drop_last()) + b.last() as nat
    }
}

proof fn lemma_be_value_bound(b: Seq<u8>)
    ensures
        be_value(b) < vstd::arithmetic::power2::pow2(8 * b.len()),
    decreases b.len(),
{
    vstd::arithmetic::power2::lemma_pow2_adds(8 * (b.len() as nat), 8);
    if b.len() > 0 {
        lemma_be_value_bound(b.drop_last());
        vstd::arithmetic::power2::lemma_pow2_adds(8 * (b.len() - 1) as nat, 8);
        vstd::arithmetic::power2::lemma2_to64();
    } else {
        vstd::arithmetic::power2::lemma2_to64();
    }
}

/// How a certificate extension's value is shown: a short DER INTEGER as
/// its decimal value, an OCTET STRING as hex of its contents, a UTF8,
/// printable or IA5 string as its text, anything else as hex of the whole
/// value.
pub open spec fn extension_text_ok(v: Seq<u8>, t: Seq<char>) -> bool {
    let l = if v.len() >= 2 { v[1] as int } else { 0 };
    if v.len() >= 2 && v[0] == 0x02 && v.len() >= 2 + l && l <= 8 {
        t == dec_spec(be_value(v.subrange(2, 2 + l)))
    } else if v.len() >= 2 && v[0] == 0x04 && v.len() >= 2 + l {
        t == hex_encode_spec(v.subrange(2, 2 + l))
    } else if v.len() >= 2 && (v[0] == 0x0c || v[0] == 0x13 || v[0] == 0x16) && v.len() >= 2 + l
        && valid_utf8(v.subrange(2, 2 + l)) {
        encode_utf8(t) == v.subrange(2, 2 + l)
    } else {
        t == hex_encode_spec(v)
    }
}

/// The text of a certificate extension's value (see `extension_text_ok`).
pub fn decode_extension_value(value: &[u8]) -> (s: String)
    ensures
        extension_text_ok(value@, s@),
{
    if value.len() >= 2 && value[0] == 0x02 {
        let len = value[1] as usize;
        if value.len() >= 2 + len && len <= 8 {
            let mut n: u64 = 0;
            let mut i: usize = 2;
            while i < 2 + len
                invariant
                    2 <= i <= 2 + len <= value@.len(),
                    len <= 8,
                    n == be_value(value@.subrange(2, i as int)),
                decreases 2 + len - i,
            {
                let b = value[i];
                proof {
                    lemma_be_value_bound(value@.subrange(2, i as int));
                    if i - 2 < 7 {
                        vstd::arithmetic::power2::lemma_pow2_strictly_increases(8 * (i - 2) as nat, 56);
                    }
                    vstd::arithmetic::power2::lemma2_to64();
                    vstd::arithmetic::power2::lemma2_to64_rest();
                    assert(value@.subrange(2, i + 1).drop_last() =~= value@.subrange(2, i as int));
                }
                assert(n < 0x100_0000_0000_0000);
                n = n * 256 + b as u64;
                i = i + 1;
            }
            let mut s = String::new();
            push_decimal(&mut s, n);
            return s;
        }
    }
    if value.len() >= 2 && value[0] == 0x04 {
        let len = value[1] as usize;
        if value.len() >= 2 + len {
            return hex::encode(&value[2..2 + len]);
        }
    }
    if value.len() >= 2 && (value[0] == 0x0c || value[0] == 0x13 || value[0] == 0x16) {
        let len = value[1] as usize;
        if value.len() >= 2 + len {
            if let Some(t) = utf8_text(&value[2..2 + len]) {
                return t;
            }
        }
    }
    hex::encode(value)
}

/// A TEE extension of a certificate.
#[derive(Clone, Debug)]
pub struct TeeExtension {
    /// Dotted OID.
    pub oid: String,
    /// Short name of the OID.
    pub name: String,
    /// The value as text (see `decode_extension_value`).
    pub value: String,
    pub platform: TeePlatform,
}

impl TeeExtension {
    /// Display text: `name (oid): value`.
    pub fn to_string(&self) -> (s: String)
        ensures
            s@ == self.name@ + " ("@ + self.oid@ + "): "@ + self.value@,
    {
        let mut s = self.name.clone();
        s.append(" (");
        s.append(self.oid.as_str());
        s.append("): ");
        s.append(self.value.as_str());
        s
    }
}

/// The TEE extensions among a certificate's extensions (dotted OID and raw
/// value), in order: those under a TEE prefix, named from the OID table,
/// with their values decoded.
pub open spec fn tee_extension_ok(oid: Seq<char>, value: Seq<u8>, e: TeeExtension) -> bool {
    &&& e.oid@ == oid
    &&& e.name@ == tee_oid_name_spec(oid)
    &&& extension_text_ok(value, e.value@)
    &&& (if starts_with_seq(oid, INTEL_SGX_OID_PREFIX@) { e.platform == TeePlatform::Intel } else { e.platform == TeePlatform::Amd })
}

/// Whether a dotted OID is under a TEE prefix.
pub open spec fn is_tee_oid_spec(oid: Seq<char>) -> bool {
    starts_with_seq(oid, INTEL_SGX_OID_PREFIX@) || starts_with_seq(oid, AMD_SEV_OID_PREFIX@)
}

/// The dotted OID and raw value of each extension, as mathematical values.
pub open spec fn extension_views(extensions: Seq<(String, Vec<u8>)>) -> Seq<(Seq<char>, Seq<u8>)> {
    extensions.map_values(|e: (String, Vec<u8>)| (e.0@, e.1@))
}

/// The extensions under a TEE prefix, in order.
pub open spec fn tee_filter(extensions: Seq<(Seq<char>, Seq<u8>)>) -> Seq<(Seq<char>, Seq<u8>)> {
    extensions.filter(|e: (Seq<char>, Seq<u8>)| is_tee_oid_spec(e.0))
}

/// Whether `r` holds one decoded TEE extension for each extension under a
/// TEE prefix, in order (see `tee_extension_ok`).
pub open spec fn tee_extensions_ok(extensions: Seq<(Seq<char>, Seq<u8>)>, r: Seq<TeeExtension>) -> bool {
    &&& r.len() == tee_filter(extensions).len()
    &&& forall|i: int| 0 <= i < r.len() ==> {
        let e = tee_filter(extensions)[i];
        tee_extension_ok(e.0, e.1, #[trigger] r[i])
    }
}

/// Picks the TEE extensions of a certificate (see `tee_extension_ok`).
pub fn tee_extensions_of(extensions: &Vec<(String, Vec<u8>)>) -> (r: Vec<TeeExtension>)
    ensures
        tee_extensions_ok(extension_views(extensions@), r@),
{
    let mut out: Vec<TeeExtension> = Vec::new();
    let mut i: usize = 0;
    while i < extensions.len()
        invariant
            i <= extensions@.len(),
            tee_extensions_ok(extension_views(extensions@.subrange(0, i as int)), out@),
        decreases extensions.len() - i,
    {
        let oid = &extensions[i].0;
        let value = &extensions[i].1;
        let ghost pre = extension_views(extensions@.subrange(0, i as int));
        let ghost item = (extensions@[i as int].0@, extensions@[i as int].1@);
        proof {
            assert(extension_views(extensions@.subrange(0, i + 1)) =~= pre.push(item));
            pre.lemma_filter_push(item, |e: (Seq<char>, Seq<u8>)| is_tee_oid_spec(e.0));
        }
        if is_tee_oid(oid.as_str()) {
            let platform = match tee_platform(oid.as_str()) {
                Some(p) => p,
                None => TeePlatform::Amd,
            };
            let name = tee_oid_name(oid.as_str());
            let text = decode_extension_value(value.as_slice());
            out.push(TeeExtension { oid: oid.clone(), name, value: text, platform });
        }
        i = i + 1;
    }
    assert(extensions@.subrange(0, i as int) =~= extensions@);
    out
}

} // verus!
