//! The certificates of a TEE quote: a certificate read into `CertInfo`, PEM
//! chains, and the signature data of a TDX quote with its certificate chain.

use vstd::prelude::*;
use vstd::string::*;
use vstd::utf8::{decode_utf8, encode_utf8, encode_utf8_decode_utf8, valid_utf8};
use crate::certificates::{
    CertDataType, QuoteSignatureError, TeeExtension, cert_data_type_of, le16, le32, layout_outcome,
    locate_pem_data, parse_signature_layout, pem_location_outcome, pem_certs, pem_der, pem_markers_check,
    pem_markers_ordered, pem_to_der, split_pem_chain, utf8_text, PEM_END, extension_views,
    tee_extensions_ok, tee_extensions_of, tee_oid_lookup, tee_oid_short_name,
};
use crate::errors::concat_str;
use crate::hex::{self, hex_encode_spec};
use crate::text::{byte_prefix, dec_spec, prefix_cut_ok, push_decimal, split_from, str_byte_prefix};
use crate::x509::{
    self, PublicKeySize, ExtensionKind, ExtensionKindView, x509_parses, x509_failure, x509_subject_dn,
    x509_issuer_dn, x509_subject_cn, x509_issuer_cn, x509_serial, x509_not_before, x509_not_after,
    x509_signature_algorithm, x509_key_algorithm, x509_public_key, x509_extensions,
    x509_extension_kinds, opt_chars,
};

verus! {

/// Dotted OID of the subject key identifier extension.
pub const SUBJECT_KEY_IDENTIFIER_OID: &'static str = "2.5.29.14";
/// Dotted OID of the authority key identifier extension.
pub const AUTHORITY_KEY_IDENTIFIER_OID: &'static str = "2.5.29.35";
/// Dotted OID of the basic constraints extension.
pub const BASIC_CONSTRAINTS_OID: &'static str = "2.5.29.19";

/// A certificate, as the library shows it.
#[derive(Clone, Debug)]
pub struct CertInfo {
    pub subject_cn: String,
    pub issuer_cn: String,
    pub subject_dn: String,
    pub issuer_dn: String,
    /// Serial number, in hex.
    pub serial: String,
    pub not_before: String,
    pub not_after: String,
    pub sig_alg: String,
    pub key_alg: String,
    pub key_bits: usize,
    /// Subject key identifier, in hex.
    pub ski: Option<String>,
    /// Authority key identifier, in hex.
    pub aki: Option<String>,
    pub is_ca: bool,
    pub tee_extensions: Vec<TeeExtension>,
    /// Size of the DER encoding.
    pub der_size: usize,
}

/// A common name, or `Unknown` when there is none.
pub open spec fn cn_or_unknown(cn: Option<Seq<char>>) -> Seq<char> {
    match cn {
        Some(c) => c,
        None => "Unknown"@,
    }
}

/// An algorithm's short name as the TEE registry gives it (the crypto and
/// X.509 tables of `oid-registry`, extended with the TEE table, whose
/// entries win): the TEE table's name, else the crypto and X.509 name, else
/// its dotted OID.
pub open spec fn algorithm_name(a: (Seq<char>, Option<Seq<char>>)) -> Seq<char> {
    match tee_oid_lookup(a.0) {
        Some(n) => n,
        None => match a.1 {
            Some(n) => n,
            None => a.0,
        },
    }
}

/// Key size in bits: the RSA size, eight bits per byte of an EC point
/// (saturating), zero for other keys.
pub open spec fn key_bits_of(k: PublicKeySize) -> int {
    match k {
        PublicKeySize::Rsa(n) => n as int,
        PublicKeySize::Ec(n) => if n * 8 <= usize::MAX { n * 8 } else { usize::MAX as int },
        PublicKeySize::Other => 0,
    }
}

/// The first index at or after `i` of an extension with this OID.
pub open spec fn first_with_oid(exts: Seq<(Seq<char>, Seq<u8>)>, oid: Seq<char>, i: int) -> Option<int>
    decreases exts.len() - i,
{
    if i < 0 || i >= exts.len() {
        None
    } else if exts[i].0 == oid {
        Some(i)
    } else {
        first_with_oid(exts, oid, i + 1)
    }
}

/// The index `first_with_oid` finds is in range and has the OID.
pub proof fn lemma_first_with_oid(exts: Seq<(Seq<char>, Seq<u8>)>, oid: Seq<char>, i: int)
    ensures
        first_with_oid(exts, oid, i) matches Some(k) ==> 0 <= i <= k < exts.len() && exts[k].0 == oid,
    decreases exts.len() - i,
{
    if 0 <= i < exts.len() && exts[i].0 != oid {
        lemma_first_with_oid(exts, oid, i + 1);
    }
}

/// The parsed content of the first extension with this OID.
pub open spec fn first_kind(der: Seq<u8>, oid: Seq<char>) -> Option<ExtensionKindView> {
    match first_with_oid(x509_extensions(der), oid, 0) {
        Some(i) => Some(x509_extension_kinds(der)[i]),
        None => None,
    }
}

/// The subject key identifier in hex: from the first extension with its OID,
/// when that extension parsed as one.
pub open spec fn subject_key_id(der: Seq<u8>) -> Option<Seq<char>> {
    match first_kind(der, SUBJECT_KEY_IDENTIFIER_OID@) {
        Some(ExtensionKindView::SubjectKeyIdentifier(k)) => Some(hex_encode_spec(k)),
        _ => None,
    }
}

/// The authority key identifier in hex, as for the subject's.
pub open spec fn authority_key_id(der: Seq<u8>) -> Option<Seq<char>> {
    match first_kind(der, AUTHORITY_KEY_IDENTIFIER_OID@) {
        Some(ExtensionKindView::AuthorityKeyIdentifier(Some(k))) => Some(hex_encode_spec(k)),
        _ => None,
    }
}

/// Whether the first basic constraints extension marks a CA.
pub open spec fn is_ca_cert(der: Seq<u8>) -> bool {
    match first_kind(der, BASIC_CONSTRAINTS_OID@) {
        Some(ExtensionKindView::BasicConstraints(ca)) => ca,
        _ => false,
    }
}

/// Whether `c` shows the certificate with DER bytes `der`.
pub open spec fn cert_info_ok(der: Seq<u8>, c: CertInfo) -> bool {
    &&& c.subject_cn@ == cn_or_unknown(x509_subject_cn(der))
    &&& c.issuer_cn@ == cn_or_unknown(x509_issuer_cn(der))
    &&& c.subject_dn@ == x509_subject_dn(der)
    &&& c.issuer_dn@ == x509_issuer_dn(der)
    &&& c.serial@ == hex_encode_spec(x509_serial(der))
    &&& c.not_before@ == x509_not_before(der)
    &&& c.not_after@ == x509_not_after(der)
    &&& c.sig_alg@ == algorithm_name(x509_signature_algorithm(der))
    &&& c.key_alg@ == algorithm_name(x509_key_algorithm(der))
    &&& c.key_bits == key_bits_of(x509_public_key(der))
    &&& opt_chars(c.ski) == subject_key_id(der)
    &&& opt_chars(c.aki) == authority_key_id(der)
    &&& c.is_ca == is_ca_cert(der)
    &&& tee_extensions_ok(x509_extensions(der), c.tee_extensions@)
    &&& c.der_size == der.len()
}

fn optional_name(cn: Option<String>) -> (r: String)
    ensures
        r@ == cn_or_unknown(opt_chars(cn)),
{
    match cn {
        Some(c) => c,
        None => String::from_str("Unknown"),
    }
}

/// The display name of an algorithm from its dotted OID and its crypto or
/// X.509 short name (see `algorithm_name`).
pub fn pick_algorithm_name(a: (String, Option<String>)) -> (r: String)
    ensures
        r@ == algorithm_name((a.0@, opt_chars(a.1))),
{
    if let Some(n) = tee_oid_short_name(a.0.as_str()) {
        return n;
    }
    match a.1 {
        Some(n) => n,
        None => a.0,
    }
}

fn key_bits(k: PublicKeySize) -> (r: usize)
    ensures
        r == key_bits_of(k),
{
    match k {
        PublicKeySize::Rsa(n) => n,
        PublicKeySize::Ec(n) => if n <= usize::MAX / 8 { n * 8 } else { usize::MAX },
        PublicKeySize::Other => 0,
    }
}

fn first_extension_index(exts: &Vec<(String, Vec<u8>)>, oid: &str) -> (r: Option<usize>)
    ensures
        match r {
            Some(i) => first_with_oid(extension_views(exts@), oid@, 0) == Some(i as int) && i < exts@.len(),
            None => first_with_oid(extension_views(exts@), oid@, 0) is None,
        },
{
    let ghost v = extension_views(exts@);
    let mut i: usize = 0;
    while i < exts.len()
        invariant
            i <= exts@.len(),
            v == extension_views(exts@),
            first_with_oid(v, oid@, 0) == first_with_oid(v, oid@, i as int),
        decreases exts.len() - i,
    {
        if crate::json::str_eq(exts[i].0.as_str(), oid) {
            proof {
                lemma_first_with_oid(v, oid@, 0);
            }
            return Some(i);
        }
        i = i + 1;
    }
    None
}

/// Reads a DER certificate into a `CertInfo` (see `cert_info_ok`); the
/// parser's error comes back as a certificate error.
fn parse_x509_cert(der_bytes: &[u8]) -> (r: Result<CertInfo, QuoteSignatureError>)
    ensures
        match x509_failure(der_bytes@) {
            Some(m) => r matches Err(QuoteSignatureError::CertificateError(s)) && s@ == "Parse error: "@ + m,
            None => r matches Ok(c) && cert_info_ok(der_bytes@, c),
        },
{
    if let Some(m) = x509::parse_failure(der_bytes) {
        return Err(QuoteSignatureError::CertificateError(concat_str("Parse error: ", m.as_str())));
    }
    let exts = x509::extensions(der_bytes);
    let kinds = x509::extension_kinds(der_bytes);
    proof {
        assert(extension_views(exts@) =~= x509_extensions(der_bytes@));
    }
    let tee_extensions = tee_extensions_of(&exts);
    let ski = match first_extension_index(&exts, SUBJECT_KEY_IDENTIFIER_OID) {
        Some(i) => match &kinds[i] {
            ExtensionKind::SubjectKeyIdentifier(k) => Some(hex::encode(k.as_slice())),
            _ => None,
        },
        None => None,
    };
    let aki = match first_extension_index(&exts, AUTHORITY_KEY_IDENTIFIER_OID) {
        Some(i) => match &kinds[i] {
            ExtensionKind::AuthorityKeyIdentifier(Some(k)) => Some(hex::encode(k.as_slice())),
            _ => None,
        },
        None => None,
    };
    let is_ca = match first_extension_index(&exts, BASIC_CONSTRAINTS_OID) {
        Some(i) => match &kinds[i] {
            ExtensionKind::BasicConstraints(ca) => *ca,
            _ => false,
        },
        None => false,
    };
    let raw_serial = x509::serial(der_bytes);
    Ok(CertInfo {
        subject_cn: optional_name(x509::subject_cn(der_bytes)),
        issuer_cn: optional_name(x509::issuer_cn(der_bytes)),
        subject_dn: x509::subject_dn(der_bytes),
        issuer_dn: x509::issuer_dn(der_bytes),
        serial: hex::encode(raw_serial.as_slice()),
        not_before: x509::not_before(der_bytes),
        not_after: x509::not_after(der_bytes),
        sig_alg: pick_algorithm_name(x509::signature_algorithm(der_bytes)),
        key_alg: pick_algorithm_name(x509::key_algorithm(der_bytes)),
        key_bits: key_bits(x509::public_key(der_bytes)),
        ski,
        aki,
        is_ca,
        tee_extensions,
        der_size: der_bytes.len(),
    })
}

/// Reads a DER-encoded X.509 certificate (see `cert_info_ok`).
pub fn parse_certificate_der(der_bytes: &[u8]) -> (r: Result<CertInfo, QuoteSignatureError>)
    ensures
        match x509_failure(der_bytes@) {
            Some(m) => r matches Err(QuoteSignatureError::CertificateError(s)) && s@ == "Parse error: "@ + m,
            None => r matches Ok(c) && cert_info_ok(der_bytes@, c),
        },
{
    parse_x509_cert(der_bytes)
}

/// Reads a PEM-encoded X.509 certificate: `Invalid PEM` when no DER comes
/// out of it (see `pem_der`), else as `parse_certificate_der`.
pub fn parse_certificate_pem(pem: &str) -> (r: Result<CertInfo, QuoteSignatureError>)
    requires
        pem_markers_ordered(pem@),
    ensures
        match pem_der(pem@) {
            None => r matches Err(QuoteSignatureError::CertificateError(s)) && s@ == "Invalid PEM"@,
            Some(d) => match x509_failure(d) {
                Some(m) => r matches Err(QuoteSignatureError::CertificateError(s)) && s@ == "Parse error: "@ + m,
                None => r matches Ok(c) && cert_info_ok(d, c),
            },
        },
{
    match pem_to_der(pem) {
        None => Err(QuoteSignatureError::CertificateError(String::from_str("Invalid PEM"))),
        Some(der) => parse_x509_cert(der.as_slice()),
    }
}


/// The display name of a platform.
pub open spec fn platform_text(p: crate::certificates::TeePlatform) -> Seq<char> {
    match p {
        crate::certificates::TeePlatform::Intel => "Intel"@,
        crate::certificates::TeePlatform::Amd => "AMD"@,
    }
}

/// One line per TEE extension: `  [platform] name:  value`.
pub open spec fn tee_lines(exts: Seq<TeeExtension>) -> Seq<char>
    decreases exts.len(),
{
    if exts.len() == 0 {
        Seq::empty()
    } else {
        tee_lines(exts.drop_last()) + "  ["@ + platform_text(exts.last().platform) + "] "@ + exts.last().name@
            + ":  "@ + exts.last().value@ + "\n"@
    }
}

/// The display text of a certificate: subject, issuer, the first 40 bytes
/// of the serial, validity, key, and the TEE extensions if there are any.
pub open spec fn cert_info_text(c: CertInfo) -> Seq<char> {
    "Subject:  "@ + c.subject_dn@ + "\n"@ + "Issuer:   "@ + c.issuer_dn@ + "\n"@ + "Serial:   "@ + byte_prefix(c.serial@, 40)
        + "\n"@ + "Valid:    "@ + c.not_before@ + " to "@ + c.not_after@ + "\n"@ + "Key:      "@ + c.key_alg@ + " "@
        + dec_spec(c.key_bits as nat) + " bits, "@ + c.sig_alg@ + "\n"@ + (if c.tee_extensions@.len() == 0 {
        Seq::<char>::empty()
    } else {
        "TEE Extensions:\n"@ + tee_lines(c.tee_extensions@)
    })
}

impl CertInfo {
    /// Display text (see `cert_info_text`). The serial is cut at 40 bytes,
    /// which must be a character boundary.
    pub fn to_string(&self) -> (s: String)
        requires
            prefix_cut_ok(self.serial@, 40),
        ensures
            s@ == cert_info_text(*self),
    {
        let mut s = String::from_str("Subject:  ");
        s.append(self.subject_dn.as_str());
        s.append("\n");
        s.append("Issuer:   ");
        s.append(self.issuer_dn.as_str());
        s.append("\n");
        s.append("Serial:   ");
        let serial = str_byte_prefix(self.serial.as_str(), 40);
        s.append(serial.as_str());
        s.append("\n");
        s.append("Valid:    ");
        s.append(self.not_before.as_str());
        s.append(" to ");
        s.append(self.not_after.as_str());
        s.append("\n");
        s.append("Key:      ");
        s.append(self.key_alg.as_str());
        s.append(" ");
        push_decimal(&mut s, self.key_bits as u64);
        s.append(" bits, ");
        s.append(self.sig_alg.as_str());
        s.append("\n");
        let ghost head = s@;
        if self.tee_extensions.len() > 0 {
            s.append("TEE Extensions:\n");
            let ghost top = s@;
            let mut i: usize = 0;
            while i < self.tee_extensions.len()
                invariant
                    i <= self.tee_extensions@.len(),
                    s@ == top + tee_lines(self.tee_extensions@.subrange(0, i as int)),
                decreases self.tee_extensions.len() - i,
            {
                let e = &self.tee_extensions[i];
                s.append("  [");
                let p = e.platform.to_string();
                s.append(p.as_str());
                s.append("] ");
                s.append(e.name.as_str());
                s.append(":  ");
                s.append(e.value.as_str());
                s.append("\n");
                proof {
                    let sub = self.tee_extensions@.subrange(0, i + 1);
                    assert(sub.drop_last() =~= self.tee_extensions@.subrange(0, i as int));
                    assert(sub.last() == *e);
                }
                i = i + 1;
            }
            assert(self.tee_extensions@.subrange(0, i as int) =~= self.tee_extensions@);
        }
        s
    }
}

/// The certificates of a quote's certification data, leaf first.
#[derive(Clone, Debug)]
pub struct CertChain {
    pub data_type: CertDataType,
    pub certs: Vec<CertInfo>,
}

/// The signature data of a TDX quote.
#[derive(Clone, Debug)]
pub struct QuoteSignature {
    /// ECDSA signature (r || s).
    pub signature: Vec<u8>,
    /// Attestation public key (x || y).
    pub attest_pub_key: Vec<u8>,
    /// The declared certification data type, if it is a known one.
    pub cert_data_type: Option<CertDataType>,
    /// The certificate chain, when it could be read.
    pub cert_chain: Option<CertChain>,
    /// The declared size of the certification data.
    pub cert_data_size: usize,
}

/// The PEM certificates of a chain's text.
pub open spec fn chain_pems(text: Seq<char>) -> Seq<Seq<char>> {
    pem_certs(split_from(text, PEM_END@, 0))
}

/// Whether every PEM certificate of a chain's text has its closing line
/// after its opening line.
pub open spec fn chain_ordered(text: Seq<char>) -> bool {
    forall|i: int| 0 <= i < chain_pems(text).len() ==> pem_markers_ordered(#[trigger] chain_pems(text)[i])
}

/// Whether PEM chain bytes, if they are UTF-8, make an ordered chain.
pub open spec fn pem_bytes_ok(b: Seq<u8>) -> bool {
    valid_utf8(b) ==> chain_ordered(decode_utf8(b))
}

/// Whether PEM chain bytes, if they are UTF-8, make an ordered chain (see
/// `pem_bytes_ok`).
pub fn pem_bytes_check(pem_data: &[u8]) -> (r: bool)
    ensures
        r == pem_bytes_ok(pem_data@),
{
    let text = match utf8_text(pem_data) {
        Some(t) => t,
        None => {
            return true;
        },
    };
    proof {
        encode_utf8_decode_utf8(text@);
    }
    let pems = split_pem_chain(text.as_str());
    let ghost pv = pems@.map_values(|c: String| c@);
    assert(pv == chain_pems(text@));
    let mut i: usize = 0;
    while i < pems.len()
        invariant
            i <= pems@.len(),
            pv == pems@.map_values(|c: String| c@),
            pv == chain_pems(text@),
            valid_utf8(pem_data@),
            decode_utf8(pem_data@) == text@,
            forall|j: int| 0 <= j < i ==> pem_markers_ordered(#[trigger] pv[j]),
        decreases pems.len() - i,
    {
        assert(pv[i as int] == pems@[i as int]@);
        if !pem_markers_check(pems[i].as_str()) {
            assert(!pem_markers_ordered(chain_pems(text@)[i as int]));
            return false;
        }
        i = i + 1;
    }
    true
}

/// The DER bytes of the PEM certificates that decode and parse, in order.
pub open spec fn chain_ders(pems: Seq<Seq<char>>) -> Seq<Seq<u8>>
    decreases pems.len(),
{
    if pems.len() == 0 {
        Seq::empty()
    } else {
        chain_ders(pems.drop_last()) + match pem_der(pems.last()) {
            Some(d) => if x509_parses(d) { seq![d] } else { Seq::<Seq<u8>>::empty() },
            None => Seq::<Seq<u8>>::empty(),
        }
    }
}

/// Whether `certs` shows each of the certificates `ders`, in order.
pub open spec fn certs_ok(ders: Seq<Seq<u8>>, certs: Seq<CertInfo>) -> bool {
    &&& certs.len() == ders.len()
    &&& forall|i: int| 0 <= i < certs.len() ==> cert_info_ok(ders[i], #[trigger] certs[i])
}

/// Reads a PEM chain: `Invalid UTF-8` when the bytes are not UTF-8; else
/// the certificates that decode and parse, in order, skipping the others.
pub fn parse_pem_chain(data_type: CertDataType, pem_data: &[u8]) -> (r: Result<CertChain, QuoteSignatureError>)
    requires
        pem_bytes_ok(pem_data@),
    ensures
        !valid_utf8(pem_data@) ==> (r matches Err(QuoteSignatureError::CertificateError(m)) && m@ == "Invalid UTF-8"@),
        valid_utf8(pem_data@) ==> (r matches Ok(c) && c.data_type == data_type
            && certs_ok(chain_ders(chain_pems(decode_utf8(pem_data@))), c.certs@)),
{
    let text = match utf8_text(pem_data) {
        Some(t) => t,
        None => {
            return Err(QuoteSignatureError::CertificateError(String::from_str("Invalid UTF-8")));
        },
    };
    proof {
        encode_utf8_decode_utf8(text@);
    }
    let pems = split_pem_chain(text.as_str());
    let ghost pv = pems@.map_values(|c: String| c@);
    assert(pv == chain_pems(text@));
    let mut certs: Vec<CertInfo> = Vec::new();
    let mut i: usize = 0;
    while i < pems.len()
        invariant
            i <= pems@.len(),
            pv == pems@.map_values(|c: String| c@),
            chain_ordered(text@),
            pv == chain_pems(text@),
            certs_ok(chain_ders(pv.subrange(0, i as int)), certs@),
        decreases pems.len() - i,
    {
        let ghost before = certs@;
        proof {
            assert(pv.subrange(0, i + 1).drop_last() =~= pv.subrange(0, i as int));
            assert(pv[i as int] == pems@[i as int]@);
            assert(pem_markers_ordered(chain_pems(text@)[i as int]));
        }
        match pem_to_der(pems[i].as_str()) {
            Some(der) => {
                match parse_x509_cert(der.as_slice()) {
                    Ok(info) => {
                        certs.push(info);
                    },
                    Err(_) => {},
                }
            },
            None => {},
        }
        proof {
            let ders = chain_ders(pv.subrange(0, i + 1));
            let prev = chain_ders(pv.subrange(0, i as int));
            assert(forall|k: int| 0 <= k < prev.len() ==> ders[k] == prev[k]);
            assert forall|k: int| 0 <= k < certs@.len() implies cert_info_ok(ders[k], #[trigger] certs@[k]) by {
                if k < before.len() {
                    assert(certs@[k] == before[k]);
                }
            }
        }
        i = i + 1;
    }
    assert(pv.subrange(0, i as int) =~= pv);
    Ok(CertChain { data_type, certs })
}


/// The certification data of the signature data at `off` of a quote, with
/// its declared type (a PCK chain when the type is unknown), when the
/// signature data fits and the certification data is present in full and
/// not empty (see `layout_outcome`).
pub open spec fn quote_cert_data(q: Seq<u8>, off: int) -> Option<(CertDataType, Seq<u8>)> {
    if q.len() < off + 4 {
        None
    } else {
        let n = le32(q, off);
        if q.len() - off < 4 + n || n < 134 {
            None
        } else {
            let c = q.subrange(off + 4, off + 4 + n);
            let size = le32(c, 130);
            if c.len() >= 134 + size && size > 0 {
                let t = match cert_data_type_of(le16(c, 128) as u16) {
                    Some(t) => t,
                    None => CertDataType::PckCertChain,
                };
                Some((t, c.subrange(134, 134 + size)))
            } else {
                None
            }
        }
    }
}

/// Where the PEM data of certification data lies (see
/// `pem_location_outcome`): `None` when it cannot be located, `Some(None)`
/// for a type that carries no certificates.
pub open spec fn located_pem(t: CertDataType, d: Seq<u8>) -> Option<Option<(CertDataType, Seq<u8>)>> {
    match t {
        CertDataType::PckCertChain | CertDataType::PckLeafCert => Some(Some((t, d))),
        CertDataType::QeReportCertData => if d.len() < 450 {
            None
        } else {
            let pos = 450 + le16(d, 448);
            if d.len() < pos + 6 {
                None
            } else {
                let nested = match cert_data_type_of(le16(d, pos) as u16) {
                    Some(x) => x,
                    None => CertDataType::PckCertChain,
                };
                let size = le32(d, pos + 2);
                if d.len() < pos + 6 + size {
                    None
                } else {
                    Some(Some((nested, d.subrange(pos + 6, pos + 6 + size))))
                }
            }
        },
        _ => Some(None),
    }
}

/// Whether the PEM data that certification data carries, if any, makes an
/// ordered chain.
pub open spec fn located_pem_ok(t: CertDataType, d: Seq<u8>) -> bool {
    match located_pem(t, d) {
        Some(Some((_, p))) => pem_bytes_ok(p),
        _ => true,
    }
}

/// The chain read from certification data: none when the PEM data cannot
/// be located or is not UTF-8; an empty chain for a type without
/// certificates; else the certificates that parse.
pub open spec fn chain_of_data(t: CertDataType, d: Seq<u8>, chain: Option<CertChain>) -> bool {
    match located_pem(t, d) {
        None => chain is None,
        Some(None) => chain matches Some(c) && c.data_type == t && c.certs@.len() == 0,
        Some(Some((t2, p))) => if valid_utf8(p) {
            chain matches Some(c) && c.data_type == t2 && certs_ok(chain_ders(chain_pems(decode_utf8(p))), c.certs@)
        } else {
            chain is None
        },
    }
}

/// Reads the certificate chain of certification data of a type.
fn parse_cert_data(data_type: CertDataType, data: &[u8]) -> (r: Result<CertChain, QuoteSignatureError>)
    requires
        located_pem_ok(data_type, data@),
    ensures
        chain_of_data(data_type, data@, match r {
            Ok(c) => Some(c),
            Err(_) => None,
        }),
{
    match locate_pem_data(data_type, data) {
        Err(e) => Err(e),
        Ok(None) => Ok(CertChain { data_type, certs: Vec::new() }),
        Ok(Some((t, p))) => parse_pem_chain(t, p.as_slice()),
    }
}

/// Whether the certificate chains a quote's signature data may carry are
/// ordered (see `chain_ordered`).
pub open spec fn quote_pems_ok(q: Seq<u8>, off: int) -> bool {
    match quote_cert_data(q, off) {
        Some((t, d)) => located_pem_ok(t, d),
        None => true,
    }
}

/// Whether `s` is what the signature data at `off` of a quote holds: it
/// fits, and `s` has its signature, key, type, size and chain.
pub open spec fn signature_ok(q: Seq<u8>, off: int, s: QuoteSignature) -> bool {
    &&& q.len() >= off + 4
    &&& q.len() - off >= 4 + le32(q, off)
    &&& le32(q, off) >= 134
    &&& {
        let c = q.subrange(off + 4, off + 4 + le32(q, off));
        &&& s.signature@ == c.subrange(0, 64)
        &&& s.attest_pub_key@ == c.subrange(64, 128)
        &&& s.cert_data_type == cert_data_type_of(le16(c, 128) as u16)
        &&& s.cert_data_size == le32(c, 130)
        &&& match quote_cert_data(q, off) {
            Some((t, d)) => chain_of_data(t, d, s.cert_chain),
            None => s.cert_chain is None,
        }
    }
}

/// Whether the certificate chains a quote's signature data may carry are
/// ordered (see `quote_pems_ok`).
pub fn quote_pems_check(quote_bytes: &[u8], sig_data_offset: usize) -> (r: bool)
    ensures
        r == quote_pems_ok(quote_bytes@, sig_data_offset as int),
{
    let l = match parse_signature_layout(quote_bytes, sig_data_offset) {
        Ok(l) => l,
        Err(_) => {
            return true;
        },
    };
    let d = match &l.cert_data {
        Some(d) => d,
        None => {
            return true;
        },
    };
    let t = match l.cert_data_type {
        Some(t) => t,
        None => CertDataType::PckCertChain,
    };
    match locate_pem_data(t, d.as_slice()) {
        Ok(Some((_, p))) => pem_bytes_check(p.as_slice()),
        _ => true,
    }
}

/// Reads the signature data at `sig_data_offset` of a TDX quote: the errors
/// of `layout_outcome` when it does not fit, else the signature, key,
/// certification data type and size, and the certificate chain when it can
/// be read.
pub fn parse_quote_signature(quote_bytes: &[u8], sig_data_offset: usize) -> (r: Result<QuoteSignature, QuoteSignatureError>)
    requires
        quote_pems_ok(quote_bytes@, sig_data_offset as int),
    ensures
        match r {
            Ok(s) => signature_ok(quote_bytes@, sig_data_offset as int, s),
            Err(e) => layout_outcome(quote_bytes@, sig_data_offset as int, Err(e)),
        },
{
    let l = match parse_signature_layout(quote_bytes, sig_data_offset) {
        Ok(l) => l,
        Err(e) => {
            return Err(e);
        },
    };
    let cert_chain = match &l.cert_data {
        Some(d) => {
            let t = match l.cert_data_type {
                Some(t) => t,
                None => CertDataType::PckCertChain,
            };
            match parse_cert_data(t, d.as_slice()) {
                Ok(c) => Some(c),
                Err(_) => None,
            }
        },
        None => None,
    };
    Ok(QuoteSignature {
        signature: l.signature,
        attest_pub_key: l.attest_pub_key,
        cert_data_type: l.cert_data_type,
        cert_chain,
        cert_data_size: l.cert_data_size,
    })
}


/// Where the signature data of a quote starts: 632 for a version 4 quote
/// (48-byte header, 584-byte body); for version 5, after the header, a
/// 2-byte body type, a 4-byte size and a body of 648 bytes (type 3, TDX 1.5)
/// or 584 (any other type); 632 for other versions; 0 for a quote too short
/// to tell.
pub open spec fn sig_offset_spec(q: Seq<u8>) -> int {
    if q.len() < 48 {
        0
    } else if le16(q, 0) == 4 {
        632
    } else if le16(q, 0) == 5 {
        if q.len() < 54 {
            0
        } else if le16(q, 48) == 3 {
            702
        } else {
            638
        }
    } else {
        632
    }
}

/// The offset of a quote's signature data (see `sig_offset_spec`).
pub fn calculate_sig_offset(quote: &[u8]) -> (r: usize)
    ensures
        r == sig_offset_spec(quote@),
{
    if quote.len() < 48 {
        return 0;
    }
    let version: u16 = quote[0] as u16 + (quote[1] as u16) * 256;
    if version == 4 {
        632
    } else if version == 5 {
        if quote.len() < 54 {
            return 0;
        }
        let quote_type: u16 = quote[48] as u16 + (quote[49] as u16) * 256;
        let body_size: usize = if quote_type == 3 { 648 } else { 584 };
        48 + 2 + 4 + body_size
    } else {
        632
    }
}

} // verus!
