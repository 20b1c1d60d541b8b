//! What the library reads of an X.509 certificate, as plain values. Each
//! value is computed by `x509-parser` from the certificate's DER bytes; the
//! results are named here as functions of those bytes.

use vstd::prelude::*;
use x509_parser::extensions::ParsedExtension;
use x509_parser::public_key::PublicKey;

verus! {

/// The text of `x509_parser::parse_x509_certificate`'s error on these bytes,
/// or `None` when they parse as a certificate.
pub uninterp spec fn x509_failure(der: Seq<u8>) -> Option<Seq<char>>;

/// The subject's distinguished name, as `X509Name`'s `Display` writes it.
pub uninterp spec fn x509_subject_dn(der: Seq<u8>) -> Seq<char>;

/// The issuer's distinguished name, as `X509Name`'s `Display` writes it.
pub uninterp spec fn x509_issuer_dn(der: Seq<u8>) -> Seq<char>;

/// The subject's first common name, when it is a string.
pub uninterp spec fn x509_subject_cn(der: Seq<u8>) -> Option<Seq<char>>;

/// The issuer's first common name, when it is a string.
pub uninterp spec fn x509_issuer_cn(der: Seq<u8>) -> Option<Seq<char>>;

/// The raw bytes of the serial number.
pub uninterp spec fn x509_serial(der: Seq<u8>) -> Seq<u8>;

/// The start of the validity period, as `ASN1Time`'s `Display` writes it.
pub uninterp spec fn x509_not_before(der: Seq<u8>) -> Seq<char>;

/// The end of the validity period, as `ASN1Time`'s `Display` writes it.
pub uninterp spec fn x509_not_after(der: Seq<u8>) -> Seq<char>;

/// The signature algorithm: its dotted OID, and its short name in the
/// `oid-registry` crypto and X.509 tables, if it is there.
pub uninterp spec fn x509_signature_algorithm(der: Seq<u8>) -> (Seq<char>, Option<Seq<char>>);

/// The public key algorithm, as for the signature algorithm.
pub uninterp spec fn x509_key_algorithm(der: Seq<u8>) -> (Seq<char>, Option<Seq<char>>);

/// The kind and size of the subject public key.
pub uninterp spec fn x509_public_key(der: Seq<u8>) -> PublicKeySize;

/// The extensions: dotted OID and raw value of each, in order.
pub uninterp spec fn x509_extensions(der: Seq<u8>) -> Seq<(Seq<char>, Seq<u8>)>;

/// What `x509-parser` made of each extension, in order.
pub uninterp spec fn x509_extension_kinds(der: Seq<u8>) -> Seq<ExtensionKindView>;

/// The subject public key as the parser reads it.
#[derive(Clone, Copy, Debug, PartialEq, Eq, Structural)]
pub enum PublicKeySize {
    /// An RSA key of this many bits (`RSAPublicKey::key_size`).
    Rsa(usize),
    /// An EC point of this many bytes.
    Ec(usize),
    /// Another kind of key, or one that does not parse.
    Other,
}

/// The parsed content of an extension, for the three kinds the library reads.
#[derive(Clone, Debug)]
pub enum ExtensionKind {
    SubjectKeyIdentifier(Vec<u8>),
    AuthorityKeyIdentifier(Option<Vec<u8>>),
    BasicConstraints(bool),
    Other,
}

/// The mathematical value of an `ExtensionKind`.
pub enum ExtensionKindView {
    SubjectKeyIdentifier(Seq<u8>),
    AuthorityKeyIdentifier(Option<Seq<u8>>),
    BasicConstraints(bool),
    Other,
}

impl View for ExtensionKind {
    type V = ExtensionKindView;

    open spec fn view(&self) -> ExtensionKindView {
        match self {
            ExtensionKind::SubjectKeyIdentifier(k) => ExtensionKindView::SubjectKeyIdentifier(k@),
            ExtensionKind::AuthorityKeyIdentifier(k) => ExtensionKindView::AuthorityKeyIdentifier(
                match k {
                    Some(v) => Some(v@),
                    None => None,
                },
            ),
            ExtensionKind::BasicConstraints(ca) => ExtensionKindView::BasicConstraints(*ca),
            ExtensionKind::Other => ExtensionKindView::Other,
        }
    }
}

/// The characters of an optional string.
pub open spec fn opt_chars(o: Option<String>) -> Option<Seq<char>> {
    match o {
        Some(s) => Some(s@),
        None => None,
    }
}

/// Whether the bytes parse as a certificate.
pub open spec fn x509_parses(der: Seq<u8>) -> bool {
    x509_failure(der) is None
}

/// `x509_parser::parse_x509_certificate`: the error's text when the bytes do
/// not parse as a certificate.
#[verifier::external_body]
pub fn parse_failure(der: &[u8]) -> (r: Option<String>)
    ensures
        opt_chars(r) == x509_failure(der@),
{
    match x509_parser::parse_x509_certificate(der) {
        Ok(_) => None,
        Err(e) => Some(e.to_string()),
    }
}

/// The subject's distinguished name (`X509Name`'s `Display`).
#[verifier::external_body]
pub fn subject_dn(der: &[u8]) -> (r: String)
    requires
        x509_parses(der@),
    ensures
        r@ == x509_subject_dn(der@),
{
    match x509_parser::parse_x509_certificate(der) {
        Ok((_, c)) => c.tbs_certificate.subject().to_string(),
        Err(_) => String::new(),
    }
}

/// The issuer's distinguished name (`X509Name`'s `Display`).
#[verifier::external_body]
pub fn issuer_dn(der: &[u8]) -> (r: String)
    requires
        x509_parses(der@),
    ensures
        r@ == x509_issuer_dn(der@),
{
    match x509_parser::parse_x509_certificate(der) {
        Ok((_, c)) => c.tbs_certificate.issuer().to_string(),
        Err(_) => String::new(),
    }
}

/// The subject's first common name (`X509Name::iter_common_name`), when
/// `as_str` reads it as a string.
#[verifier::external_body]
pub fn subject_cn(der: &[u8]) -> (r: Option<String>)
    requires
        x509_parses(der@),
    ensures
        opt_chars(r) == x509_subject_cn(der@),
{
    match x509_parser::parse_x509_certificate(der) {
        Ok((_, c)) => c.tbs_certificate.subject().iter_common_name().next().and_then(|n| n.as_str().ok()).map(String::from),
        Err(_) => None,
    }
}

/// The issuer's first common name, as for the subject.
#[verifier::external_body]
pub fn issuer_cn(der: &[u8]) -> (r: Option<String>)
    requires
        x509_parses(der@),
    ensures
        opt_chars(r) == x509_issuer_cn(der@),
{
    match x509_parser::parse_x509_certificate(der) {
        Ok((_, c)) => c.tbs_certificate.issuer().iter_common_name().next().and_then(|n| n.as_str().ok()).map(String::from),
        Err(_) => None,
    }
}

/// The raw serial number (`TbsCertificate::raw_serial`).
#[verifier::external_body]
pub fn serial(der: &[u8]) -> (r: Vec<u8>)
    requires
        x509_parses(der@),
    ensures
        r@ == x509_serial(der@),
{
    match x509_parser::parse_x509_certificate(der) {
        Ok((_, c)) => c.tbs_certificate.raw_serial().to_vec(),
        Err(_) => Vec::new(),
    }
}

/// The start of the validity period (`ASN1Time`'s `Display`).
#[verifier::external_body]
pub fn not_before(der: &[u8]) -> (r: String)
    requires
        x509_parses(der@),
    ensures
        r@ == x509_not_before(der@),
{
    match x509_parser::parse_x509_certificate(der) {
        Ok((_, c)) => c.tbs_certificate.validity().not_before.to_string(),
        Err(_) => String::new(),
    }
}

/// The end of the validity period (`ASN1Time`'s `Display`).
#[verifier::external_body]
pub fn not_after(der: &[u8]) -> (r: String)
    requires
        x509_parses(der@),
    ensures
        r@ == x509_not_after(der@),
{
    match x509_parser::parse_x509_certificate(der) {
        Ok((_, c)) => c.tbs_certificate.validity().not_after.to_string(),
        Err(_) => String::new(),
    }
}

/// The signature algorithm's dotted OID, with its short name from
/// `OidRegistry::default().with_all_crypto().with_x509()` when it is there.
#[verifier::external_body]
pub fn signature_algorithm(der: &[u8]) -> (r: (String, Option<String>))
    requires
        x509_parses(der@),
    ensures
        (r.0@, opt_chars(r.1)) == x509_signature_algorithm(der@),
{
    let reg = x509_parser::oid_registry::OidRegistry::default().with_all_crypto().with_x509();
    match x509_parser::parse_x509_certificate(der) {
        Ok((_, c)) => (c.signature_algorithm.algorithm.to_string(), reg.get(&c.signature_algorithm.algorithm).map(|e| e.sn().to_string())),
        Err(_) => (String::new(), None),
    }
}

/// The public key algorithm's dotted OID, with its short name as for the
/// signature algorithm.
#[verifier::external_body]
pub fn key_algorithm(der: &[u8]) -> (r: (String, Option<String>))
    requires
        x509_parses(der@),
    ensures
        (r.0@, opt_chars(r.1)) == x509_key_algorithm(der@),
{
    let reg = x509_parser::oid_registry::OidRegistry::default().with_all_crypto().with_x509();
    match x509_parser::parse_x509_certificate(der) {
        Ok((_, c)) => (c.tbs_certificate.subject_pki.algorithm.algorithm.to_string(), reg.get(&c.tbs_certificate.subject_pki.algorithm.algorithm).map(|e| e.sn().to_string())),
        Err(_) => (String::new(), None),
    }
}

/// `SubjectPublicKeyInfo::parsed`: an RSA key with its `key_size`, an EC
/// point with the length of its data, or another kind (or a parse error).
#[verifier::external_body]
pub fn public_key(der: &[u8]) -> (r: PublicKeySize)
    requires
        x509_parses(der@),
    ensures
        r == x509_public_key(der@),
{
    match x509_parser::parse_x509_certificate(der) {
        Ok((_, c)) => match c.tbs_certificate.subject_pki.parsed() {
            Ok(PublicKey::RSA(rsa)) => PublicKeySize::Rsa(rsa.key_size()),
            Ok(PublicKey::EC(ec)) => PublicKeySize::Ec(ec.data().len()),
            _ => PublicKeySize::Other,
        },
        Err(_) => PublicKeySize::Other,
    }
}

/// The extensions (`TbsCertificate::extensions`): the dotted OID and the raw
/// value of each, in order.
#[verifier::external_body]
pub fn extensions(der: &[u8]) -> (r: Vec<(String, Vec<u8>)>)
    requires
        x509_parses(der@),
    ensures
        r@.len() == x509_extensions(der@).len(),
        forall|i: int| 0 <= i < r@.len() ==> (#[trigger] r@[i].0@, r@[i].1@) == x509_extensions(der@)[i],
{
    let mut out = Vec::new();
    if let Ok((_, c)) = x509_parser::parse_x509_certificate(der) {
        for e in c.tbs_certificate.extensions() {
            out.push((e.oid.to_string(), e.value.to_vec()));
        }
    }
    out
}

/// `X509Extension::parsed_extension` of each extension, in order, for the
/// subject and authority key identifiers and the basic constraints. It walks
/// the same list as `extensions`, so the two have the same length.
#[verifier::external_body]
pub fn extension_kinds(der: &[u8]) -> (r: Vec<ExtensionKind>)
    requires
        x509_parses(der@),
    ensures
        r@.len() == x509_extension_kinds(der@).len(),
        r@.len() == x509_extensions(der@).len(),
        forall|i: int| 0 <= i < r@.len() ==> (#[trigger] r@[i])@ == x509_extension_kinds(der@)[i],
{
    let mut out = Vec::new();
    if let Ok((_, c)) = x509_parser::parse_x509_certificate(der) {
        for e in c.tbs_certificate.extensions() {
            out.push(match e.parsed_extension() {
                ParsedExtension::SubjectKeyIdentifier(k) => ExtensionKind::SubjectKeyIdentifier(k.0.to_vec()),
                ParsedExtension::AuthorityKeyIdentifier(a) => ExtensionKind::AuthorityKeyIdentifier(a.key_identifier.as_ref().map(|k| k.0.to_vec())),
                ParsedExtension::BasicConstraints(b) => ExtensionKind::BasicConstraints(b.ca),
                _ => ExtensionKind::Other,
            });
        }
    }
    out
}

} // verus!
