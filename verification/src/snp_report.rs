//! The text of the SEV-SNP information report: the TCB line, the report's
//! header, measurement, identity and policy sections, the certificate
//! chain's entries, and a summary of the raw report.
//!
//! Some values are cut at byte positions (`&s[..32]`); where such a cut
//! would split a character, the functions require that it does not, and a
//! check function says whether it does.

use vstd::prelude::*;
use vstd::string::*;
use crate::json::{JsonValue, JsonNumber, json_get, json_index, json_as_str, json_as_u64, json_as_bool};
use crate::text::{
    dec_spec, push_decimal, push_decimal_wide, utf8_len, byte_prefix, byte_suffix, prefix_cut_ok, suffix_cut_ok,
    str_byte_prefix, str_byte_suffix, utf8_len_of, prefix_cut_check, suffix_cut_check, chars_of, string_from_chars,
    split_from,
};
use crate::hex::{self, hex_encode_spec, hex_decode_str, lower_hex_spec, lower_hex_padded, zero_pad};
use crate::crypto::{sha256, spec_sha256};
use crate::report::{pad_right, bool_text, string_items, line_views, push_line, label_column, bool_string};
use crate::quote_certs::{CertInfo, platform_text};
use crate::certificates::{TeeExtension, QuoteSignatureError, signature_error_text, split_pem_chain, pem_certs, PEM_END};

verus! {

/// The label column of a line: `label:` padded to 14 characters, then a
/// space (`{:14} ` of `label:`).
pub open spec fn column(label: Seq<char>) -> Seq<char> {
    pad_right(label + ":"@, 14) + " "@
}

/// The line, if any, as a list of lines.
pub open spec fn opt_line(o: Option<Seq<char>>) -> Seq<Seq<char>> {
    match o {
        Some(l) => seq![l],
        None => Seq::empty(),
    }
}

/// The text of an optional line.
pub open spec fn opt_view(o: Option<String>) -> Option<Seq<char>> {
    match o {
        Some(s) => Some(s@),
        None => None,
    }
}

/// `value[key].as_u64().unwrap_or(0)`.
pub open spec fn u64_or_zero(v: JsonValue, key: Seq<char>) -> u64 {
    match json_as_u64(json_index(v, key)) {
        Some(n) => n,
        None => 0,
    }
}

/// The TCB line: the reported TCB components, 0 where the claims lack one.
pub open spec fn tcb_status_text(claims: JsonValue) -> Seq<char> {
    "tcb_status:     bootloader="@ + dec_spec(u64_or_zero(claims, "reported_tcb_bootloader"@) as nat) + ", tee="@
        + dec_spec(u64_or_zero(claims, "reported_tcb_tee"@) as nat) + ", snp="@
        + dec_spec(u64_or_zero(claims, "reported_tcb_snp"@) as nat) + ", microcode="@
        + dec_spec(u64_or_zero(claims, "reported_tcb_microcode"@) as nat)
}

/// The line of a plain field: its number in decimal, or its text.
#[verifier::opaque]
pub open spec fn field_line(obj: JsonValue, key: Seq<char>, label: Seq<char>) -> Option<Seq<char>> {
    match json_get(obj, key) {
        Some(v) => match json_as_u64(v) {
            Some(n) => Some(column(label) + dec_spec(n as nat)),
            None => match json_as_str(v) {
                Some(s) => Some(column(label) + s),
                None => None,
            },
        },
        None => None,
    }
}

/// The bytes of a list: each non-negative integer item, truncated to a
/// byte; other items are skipped.
pub open spec fn item_bytes(items: Seq<JsonValue>) -> Seq<u8>
    decreases items.len(),
{
    if items.len() == 0 {
        Seq::empty()
    } else {
        item_bytes(items.drop_last()) + match json_as_u64(items.last()) {
            Some(n) => seq![(n % 256) as u8],
            None => Seq::<u8>::empty(),
        }
    }
}

/// Hex text longer than 64 characters shown by its first and last 32.
pub open spec fn shorten_hex(h: Seq<char>) -> Seq<char> {
    if h.len() > 64 {
        h.subrange(0, 32) + "..."@ + h.subrange(h.len() - 32, h.len() as int)
    } else {
        h
    }
}

/// How a hex field is shown: a text longer than 64 bytes by its first and
/// last 32 bytes; a number as `0x` and lowercase hex; a list of bytes in
/// hex (shortened); nothing for anything else.
pub open spec fn hex_display(v: JsonValue) -> Option<Seq<char>> {
    match v {
        JsonValue::String(s) => Some(
            if utf8_len(s@) > 64 {
                byte_prefix(s@, 32) + "..."@ + byte_suffix(s@, 32)
            } else {
                s@
            },
        ),
        JsonValue::Number(JsonNumber::PosInt(n)) => Some("0x"@ + lower_hex_spec(n as nat)),
        JsonValue::Array(items) => Some(shorten_hex(hex_encode_spec(item_bytes(items@)))),
        _ => None,
    }
}

/// Whether the cuts of a long text fall on character boundaries.
pub open spec fn display_cut_ok(v: JsonValue) -> bool {
    match v {
        JsonValue::String(s) => utf8_len(s@) > 64 ==> prefix_cut_ok(s@, 32) && suffix_cut_ok(s@, 32),
        _ => true,
    }
}

/// Whether a member, if present, can be shown (see `display_cut_ok`).
#[verifier::opaque]
pub open spec fn member_cut_ok(obj: JsonValue, key: Seq<char>) -> bool {
    match json_get(obj, key) {
        Some(v) => display_cut_ok(v),
        None => true,
    }
}

/// The line of a hex field (see `hex_display`).
#[verifier::opaque]
pub open spec fn hex_line(obj: JsonValue, key: Seq<char>, label: Seq<char>) -> Option<Seq<char>> {
    match json_get(obj, key) {
        Some(v) => match hex_display(v) {
            Some(d) => Some(column(label) + d),
            None => None,
        },
        None => None,
    }
}

/// The attestation report of the evidence (`evidence["attestation_report"]`).
pub open spec fn report_of(evidence: JsonValue) -> JsonValue {
    json_index(evidence, "attestation_report"@)
}

/// Whether every hex field of the report can be shown.
pub open spec fn report_cuts_ok(evidence: JsonValue) -> bool {
    let r = report_of(evidence);
    &&& member_cut_ok(r, "policy"@)
    &&& member_cut_ok(r, "family_id"@)
    &&& member_cut_ok(r, "image_id"@)
    &&& member_cut_ok(r, "platform_version"@)
    &&& member_cut_ok(r, "platform_info"@)
    &&& member_cut_ok(r, "measurement"@)
    &&& member_cut_ok(r, "host_data"@)
    &&& member_cut_ok(r, "report_id"@)
    &&& member_cut_ok(r, "report_id_ma"@)
    &&& member_cut_ok(r, "report_data"@)
    &&& member_cut_ok(r, "id_key_digest"@)
    &&& member_cut_ok(r, "author_key_digest"@)
    &&& member_cut_ok(r, "chip_id"@)
}

/// The report header section, or a note when the evidence has no report.
pub open spec fn header_section(evidence: JsonValue) -> Seq<Seq<char>> {
    let r = report_of(evidence);
    if r is Null {
        seq!["(attestation_report not found in evidence)"@]
    } else {
        seq![Seq::<char>::empty(), "── Report Header ──"@] + opt_line(field_line(r, "version"@, "version"@))
            + opt_line(field_line(r, "guest_svn"@, "guest_svn"@)) + opt_line(hex_line(r, "policy"@, "policy"@))
            + opt_line(hex_line(r, "family_id"@, "family_id"@)) + opt_line(hex_line(r, "image_id"@, "image_id"@))
            + opt_line(field_line(r, "vmpl"@, "vmpl"@)) + opt_line(field_line(r, "signature_algo"@, "sig_algo"@))
            + opt_line(hex_line(r, "platform_version"@, "platform_tcb"@))
            + opt_line(hex_line(r, "platform_info"@, "platform_info"@))
    }
}

/// The bytes of a field: hex text decoded, or a list of bytes.
pub open spec fn extracted_bytes(obj: JsonValue, key: Seq<char>) -> Option<Seq<u8>> {
    match json_get(obj, key) {
        Some(JsonValue::String(s)) => match hex_decode_str(s@) {
            Ok(b) => Some(b),
            Err(_) => None,
        },
        Some(JsonValue::Array(items)) => Some(item_bytes(items@)),
        _ => None,
    }
}

/// Whether some byte is not zero.
pub open spec fn any_nonzero(b: Seq<u8>) -> bool {
    exists|i: int| 0 <= i < b.len() && b[i] != 0
}

/// The measurement hash line: SHA-256 of the measurement, followed by the
/// host data when it is not all zero; shown when both fields have bytes.
pub open spec fn meas_hash_lines(r: JsonValue) -> Seq<Seq<char>> {
    match (extracted_bytes(r, "measurement"@), extracted_bytes(r, "host_data"@)) {
        (Some(m), Some(h)) => seq![
            column("meas_hash"@) + hex_encode_spec(spec_sha256(m + if any_nonzero(h) { h } else { Seq::<u8>::empty() })),
        ],
        _ => Seq::empty(),
    }
}

/// The measurement and identity sections, when the evidence has a report.
pub open spec fn measurement_section(evidence: JsonValue) -> Seq<Seq<char>> {
    let r = report_of(evidence);
    if r is Null {
        Seq::empty()
    } else {
        seq![Seq::<char>::empty(), "── Measurement ──"@] + opt_line(hex_line(r, "measurement"@, "measurement"@))
            + opt_line(hex_line(r, "host_data"@, "host_data"@)) + meas_hash_lines(r) + seq![
            Seq::<char>::empty(),
            "── Identity ──"@,
        ] + opt_line(hex_line(r, "report_id"@, "report_id"@)) + opt_line(hex_line(r, "report_id_ma"@, "report_id_ma"@))
            + opt_line(hex_line(r, "report_data"@, "report_data"@))
            + opt_line(hex_line(r, "id_key_digest"@, "id_key_digest"@))
            + opt_line(hex_line(r, "author_key_digest"@, "author_key"@)) + opt_line(hex_line(r, "chip_id"@, "chip_id"@))
    }
}

/// Bit `k` of the guest policy.
pub open spec fn policy_bit(p: u64, k: u64) -> bool {
    (p >> k) & 1u64 != 0
}

/// `obj.get(key)?.as_u64()`.
pub open spec fn member_u64(obj: JsonValue, key: Seq<char>) -> Option<u64> {
    match json_get(obj, key) {
        Some(v) => json_as_u64(v),
        None => None,
    }
}

/// The policy section: the flags of the guest policy (0 when the report has
/// none), the platform's SMT state when the claims give it, and the VMPL.
pub open spec fn policy_section(evidence: JsonValue, claims: JsonValue) -> Seq<Seq<char>> {
    let r = report_of(evidence);
    if r is Null {
        Seq::empty()
    } else {
        let p = match member_u64(r, "policy"@) {
            Some(n) => n,
            None => 0,
        };
        seq![
            Seq::<char>::empty(),
            "── Policy Flags ──"@,
            column("DEBUG"@) + bool_text(policy_bit(p, 19)),
            column("DEBUG_ALLOWED"@) + bool_text(policy_bit(p, 17)),
            column("SMT_ALLOWED"@) + bool_text(policy_bit(p, 4)),
            column("MIGRATE_MA"@) + bool_text(policy_bit(p, 16)),
            column("SINGLE_SOCKET"@) + bool_text(policy_bit(p, 18)),
            column("ABI_VERSION"@) + dec_spec(((p >> 8u64) & 0xffu64) as nat) + "."@ + dec_spec((p & 0xfu64) as nat),
        ] + (match json_get(claims, "platform_smt_enabled"@) {
            Some(v) => match json_as_bool(v) {
                Some(b) => seq![column("SMT_ENABLED"@) + bool_text(b)],
                None => Seq::<Seq<char>>::empty(),
            },
            None => Seq::<Seq<char>>::empty(),
        }) + (match member_u64(r, "vmpl"@) {
            Some(n) => seq![column("VMPL"@) + dec_spec(n as nat)],
            None => Seq::<Seq<char>>::empty(),
        })
    }
}

/// The PEM certificates of the evidence's chain (a PEM text split into
/// certificates, or a list of texts), or the note shown instead: no chain,
/// a chain of another form, or no certificate.
pub open spec fn chain_pems_of(evidence: JsonValue) -> Result<Seq<Seq<char>>, Seq<char>> {
    let c = json_index(evidence, "cert_chain"@);
    if c is Null {
        Err("(no certificate chain in evidence)"@)
    } else {
        let pems = match c {
            JsonValue::String(s) => Some(pem_certs(split_from(s@, PEM_END@, 0))),
            JsonValue::Array(items) => Some(string_items(items@)),
            _ => None,
        };
        match pems {
            None => Err("(unrecognized cert_chain format)"@),
            Some(p) => if p.len() == 0 {
                Err("(no certificates found)"@)
            } else {
                Ok(p)
            },
        }
    }
}

/// The label of the `i`-th of `n` certificates of a VCEK chain.
pub open spec fn vcek_label(i: int, n: int) -> Seq<char> {
    if i == 0 {
        "VCEK (Leaf)"@
    } else if i == n - 1 {
        "Root CA"@
    } else {
        "Intermediate"@
    }
}

/// The title of the `i`-th (from 0) of `n` certificates.
pub open spec fn cert_title_text(i: int, n: int) -> Seq<char> {
    "── "@ + dec_spec((i + 1) as nat) + " "@ + vcek_label(i, n) + " ──"@
}

/// An extension value longer than 40 bytes shown by its first 40.
pub open spec fn ext_value_display(v: Seq<char>) -> Seq<char> {
    if utf8_len(v) > 40 {
        byte_prefix(v, 40) + "..."@
    } else {
        v
    }
}

/// The lines of TEE extensions: name (padded to 12), value and vendor.
pub open spec fn ext_lines(exts: Seq<TeeExtension>) -> Seq<Seq<char>>
    decreases exts.len(),
{
    if exts.len() == 0 {
        Seq::empty()
    } else {
        let e = exts.last();
        ext_lines(exts.drop_last()).push(
            "    "@ + pad_right(e.name@, 12) + " "@ + ext_value_display(e.value@) + " ("@ + platform_text(e.platform) + ")"@,
        )
    }
}

/// The optional key identifier line, cut to 32 bytes.
pub open spec fn key_id_lines(label: Seq<char>, k: Option<String>) -> Seq<Seq<char>> {
    match k {
        Some(s) => seq![column(label) + byte_prefix(s@, 32)],
        None => Seq::empty(),
    }
}

/// The lines of a certificate: subject and issuer names, serial (first 32
/// bytes), validity, key, signature algorithm, CA flag, size, key
/// identifiers and TEE extensions.
pub open spec fn cert_info_lines(c: CertInfo) -> Seq<Seq<char>> {
    seq![
        column("subject"@) + c.subject_cn@,
        column("issuer"@) + c.issuer_cn@,
        column("serial"@) + byte_prefix(c.serial@, 32),
        column("validity"@) + c.not_before@ + " to "@ + c.not_after@,
        column("key"@) + c.key_alg@ + " ("@ + dec_spec(c.key_bits as nat) + " bits)"@,
        column("sig_alg"@) + c.sig_alg@,
        column("is_ca"@) + bool_text(c.is_ca),
        column("size"@) + dec_spec(c.der_size as nat) + " bytes"@,
    ] + key_id_lines("SKI"@, c.ski) + key_id_lines("AKI"@, c.aki) + if c.tee_extensions@.len() == 0 {
        Seq::<Seq<char>>::empty()
    } else {
        seq![Seq::<char>::empty(), "  TEE Extensions:"@] + ext_lines(c.tee_extensions@)
    }
}

/// Whether the cuts of a certificate's lines fall on character boundaries.
pub open spec fn cert_cuts_ok(c: CertInfo) -> bool {
    &&& prefix_cut_ok(c.serial@, 32)
    &&& (c.ski matches Some(k) ==> prefix_cut_ok(k@, 32))
    &&& (c.aki matches Some(k) ==> prefix_cut_ok(k@, 32))
    &&& forall|i: int| 0 <= i < c.tee_extensions@.len()
        ==> (utf8_len((#[trigger] c.tee_extensions@[i]).value@) > 40 ==> prefix_cut_ok(c.tee_extensions@[i].value@, 40))
}

/// The raw report summary: the first and last 40 bytes of its JSON text,
/// and its size.
pub open spec fn raw_report_lines(evidence: JsonValue, report_json: Seq<char>) -> Seq<Seq<char>> {
    if report_of(evidence) is Null {
        Seq::empty()
    } else {
        seq![
            "── Raw Report ──"@,
            byte_prefix(report_json, 40) + "..."@ + byte_suffix(report_json, 40) + " (JSON: "@
                + dec_spec(utf8_len(report_json) as nat) + " bytes, binary: 1184 bytes)"@,
        ]
    }
}

// ---- executable ----

fn column_of(label: &str) -> (r: String)
    ensures
        r@ == column(label@),
{
    let mut s = label_column(label);
    s.append(" ");
    s
}

fn push_opt(lines: &mut Vec<String>, o: Option<String>)
    ensures
        line_views(final(lines)@) == line_views(old(lines)@) + opt_line(opt_view(o)),
{
    let ghost before = line_views(lines@);
    match o {
        Some(s) => {
            push_line(lines, s);
            assert(line_views(lines@) =~= before + seq![s@]);
        },
        None => {
            assert(line_views(lines@) =~= before + Seq::<Seq<char>>::empty());
        },
    }
}

/// The TCB line of the claims.
pub fn print_tcb_status(claims: &JsonValue) -> (s: String)
    ensures
        s@ == tcb_status_text(*claims),
{
    let b = match claims.u64_at("reported_tcb_bootloader") {
        Some(n) => n,
        None => 0,
    };
    let t = match claims.u64_at("reported_tcb_tee") {
        Some(n) => n,
        None => 0,
    };
    let p = match claims.u64_at("reported_tcb_snp") {
        Some(n) => n,
        None => 0,
    };
    let m = match claims.u64_at("reported_tcb_microcode") {
        Some(n) => n,
        None => 0,
    };
    let mut s = String::from_str("tcb_status:     bootloader=");
    push_decimal(&mut s, b);
    s.append(", tee=");
    push_decimal(&mut s, t);
    s.append(", snp=");
    push_decimal(&mut s, p);
    s.append(", microcode=");
    push_decimal(&mut s, m);
    s
}

/// The line of a plain field (see `field_line`).
pub fn print_field(obj: &JsonValue, key: &str, label: &str) -> (r: Option<String>)
    ensures
        opt_view(r) == field_line(*obj, key@, label@),
{
    reveal(field_line);
    match obj.get(key) {
        Some(v) => match v.as_u64() {
            Some(n) => {
                let mut s = column_of(label);
                push_decimal(&mut s, n);
                Some(s)
            },
            None => match v.as_str() {
                Some(t) => {
                    let mut s = column_of(label);
                    s.append(t.as_str());
                    Some(s)
                },
                None => None,
            },
        },
        None => None,
    }
}

/// The bytes of a list (see `item_bytes`).
pub fn item_bytes_of(items: &Vec<JsonValue>) -> (r: Vec<u8>)
    ensures
        r@ == item_bytes(items@),
{
    let mut out: Vec<u8> = Vec::new();
    let mut i: usize = 0;
    while i < items.len()
        invariant
            i <= items@.len(),
            out@ == item_bytes(items@.subrange(0, i as int)),
        decreases items.len() - i,
    {
        let ghost sub = items@.subrange(0, i + 1);
        assert(sub.drop_last() =~= items@.subrange(0, i as int));
        assert(sub.last() == items@[i as int]);
        match items[i].as_u64() {
            Some(n) => {
                out.push((n % 256) as u8);
            },
            None => {},
        }
        i = i + 1;
        assert(out@ =~= item_bytes(items@.subrange(0, i as int)));
    }
    assert(items@.subrange(0, i as int) =~= items@);
    out
}

fn shortened_hex(h: String) -> (r: String)
    ensures
        r@ == shorten_hex(h@),
{
    let cs = chars_of(h.as_str());
    let n = cs.len();
    if n > 64 {
        let mut out: Vec<char> = Vec::new();
        let mut i: usize = 0;
        while i < 32
            invariant
                n == cs@.len(),
                n > 64,
                i <= 32,
                out@ == cs@.subrange(0, i as int),
            decreases 32 - i,
        {
            out.push(cs[i]);
            i = i + 1;
            assert(out@ =~= cs@.subrange(0, i as int));
        }
        out.push('.');
        out.push('.');
        out.push('.');
        let ghost mid = out@;
        let mut j: usize = n - 32;
        while j < n
            invariant
                n == cs@.len(),
                n > 64,
                n - 32 <= j <= n,
                out@ == mid + cs@.subrange(n - 32, j as int),
            decreases n - j,
        {
            out.push(cs[j]);
            j = j + 1;
            assert(out@ =~= mid + cs@.subrange(n - 32, j as int));
        }
        assert(out@ =~= shorten_hex(h@)) by {
            reveal_strlit("...");
        }
        string_from_chars(&out)
    } else {
        h
    }
}

/// How a value is shown as a hex field (see `hex_display`).
pub fn hex_display_of(v: &JsonValue) -> (r: Option<String>)
    requires
        display_cut_ok(*v),
    ensures
        match r {
            Some(d) => hex_display(*v) == Some(d@),
            None => hex_display(*v) is None,
        },
{
    match v {
        JsonValue::String(s) => {
            if utf8_len_of(s.as_str()) > 64 {
                let mut out = str_byte_prefix(s.as_str(), 32);
                out.append("...");
                let tail = str_byte_suffix(s.as_str(), 32);
                out.append(tail.as_str());
                Some(out)
            } else {
                Some(s.clone())
            }
        },
        JsonValue::Number(JsonNumber::PosInt(n)) => {
            let mut out = String::from_str("0x");
            let h = lower_hex_padded(*n, 0);
            assert(zero_pad(lower_hex_spec(*n as nat), 0) == lower_hex_spec(*n as nat));
            out.append(h.as_str());
            Some(out)
        },
        JsonValue::Array(items) => {
            let bytes = item_bytes_of(items);
            let h = hex::encode(bytes.as_slice());
            Some(shortened_hex(h))
        },
        _ => None,
    }
}

/// The line of a hex field (see `hex_line`).
pub fn print_hex_field(obj: &JsonValue, key: &str, label: &str) -> (r: Option<String>)
    requires
        member_cut_ok(*obj, key@),
    ensures
        opt_view(r) == hex_line(*obj, key@, label@),
{
    reveal(hex_line);
    reveal(member_cut_ok);
    match obj.get(key) {
        Some(v) => match hex_display_of(v) {
            Some(d) => {
                let mut s = column_of(label);
                s.append(d.as_str());
                Some(s)
            },
            None => None,
        },
        None => None,
    }
}

/// Whether a member, if present, can be shown (see `member_cut_ok`).
pub fn member_cut_check(obj: &JsonValue, key: &str) -> (r: bool)
    ensures
        r == member_cut_ok(*obj, key@),
{
    reveal(member_cut_ok);
    match obj.get(key) {
        Some(JsonValue::String(s)) => {
            !(utf8_len_of(s.as_str()) > 64) || (prefix_cut_check(s.as_str(), 32) && suffix_cut_check(s.as_str(), 32))
        },
        _ => true,
    }
}

fn report_in(evidence: &JsonValue) -> (r: Option<&JsonValue>)
    ensures
        match r {
            Some(x) => *x == report_of(*evidence) && !(*x is Null),
            None => report_of(*evidence) is Null,
        },
{
    match evidence.get("attestation_report") {
        Some(x) => if x.is_null() {
            None
        } else {
            Some(x)
        },
        None => None,
    }
}

/// Whether every hex field of the evidence's report can be shown (see
/// `report_cuts_ok`).
pub fn report_cuts_check(evidence: &JsonValue) -> (r: bool)
    ensures
        r == report_cuts_ok(*evidence),
{
    reveal(member_cut_ok);
    let r = match evidence.get("attestation_report") {
        Some(x) => x,
        None => {
            return true;
        },
    };
    member_cut_check(r, "policy") && member_cut_check(r, "family_id") && member_cut_check(r, "image_id")
        && member_cut_check(r, "platform_version") && member_cut_check(r, "platform_info")
        && member_cut_check(r, "measurement") && member_cut_check(r, "host_data") && member_cut_check(r, "report_id")
        && member_cut_check(r, "report_id_ma") && member_cut_check(r, "report_data")
        && member_cut_check(r, "id_key_digest") && member_cut_check(r, "author_key_digest")
        && member_cut_check(r, "chip_id")
}

/// The report header section (see `header_section`).
pub fn print_report_header(evidence: &JsonValue) -> (lines: Vec<String>)
    requires
        report_cuts_ok(*evidence),
    ensures
        line_views(lines@) == header_section(*evidence),
{
    let mut lines: Vec<String> = Vec::new();
    let r = match report_in(evidence) {
        Some(r) => r,
        None => {
            push_line(&mut lines, String::from_str("(attestation_report not found in evidence)"));
            assert(line_views(lines@) =~= header_section(*evidence));
            return lines;
        },
    };
    push_line(&mut lines, String::new());
    push_line(&mut lines, String::from_str("── Report Header ──"));
    assert(line_views(lines@) =~= seq![Seq::<char>::empty(), "── Report Header ──"@]);
    push_opt(&mut lines, print_field(r, "version", "version"));
    push_opt(&mut lines, print_field(r, "guest_svn", "guest_svn"));
    push_opt(&mut lines, print_hex_field(r, "policy", "policy"));
    push_opt(&mut lines, print_hex_field(r, "family_id", "family_id"));
    push_opt(&mut lines, print_hex_field(r, "image_id", "image_id"));
    push_opt(&mut lines, print_field(r, "vmpl", "vmpl"));
    push_opt(&mut lines, print_field(r, "signature_algo", "sig_algo"));
    push_opt(&mut lines, print_hex_field(r, "platform_version", "platform_tcb"));
    push_opt(&mut lines, print_hex_field(r, "platform_info", "platform_info"));
    assert(line_views(lines@) == header_section(*evidence));
    lines
}

/// The bytes of a field (see `extracted_bytes`).
pub fn extract_bytes(obj: &JsonValue, key: &str) -> (r: Option<Vec<u8>>)
    ensures
        match r {
            Some(b) => extracted_bytes(*obj, key@) == Some(b@),
            None => extracted_bytes(*obj, key@) is None,
        },
{
    match obj.get(key) {
        Some(JsonValue::String(s)) => match hex::decode(s.as_str()) {
            Ok(b) => Some(b),
            Err(_) => None,
        },
        Some(JsonValue::Array(items)) => Some(item_bytes_of(items)),
        _ => None,
    }
}

/// A number member (see `member_u64`).
pub fn extract_u64(obj: &JsonValue, key: &str) -> (r: Option<u64>)
    ensures
        r == member_u64(*obj, key@),
{
    match obj.get(key) {
        Some(v) => v.as_u64(),
        None => None,
    }
}

fn any_nonzero_of(b: &Vec<u8>) -> (r: bool)
    ensures
        r == any_nonzero(b@),
{
    let mut i: usize = 0;
    while i < b.len()
        invariant
            i <= b@.len(),
            forall|j: int| 0 <= j < i ==> b@[j] == 0,
        decreases b.len() - i,
    {
        if b[i] != 0 {
            return true;
        }
        i = i + 1;
    }
    false
}

fn push_meas_hash(lines: &mut Vec<String>, r: &JsonValue)
    ensures
        line_views(final(lines)@) == line_views(old(lines)@) + meas_hash_lines(*r),
{
    let ghost before = line_views(lines@);
    match (extract_bytes(r, "measurement"), extract_bytes(r, "host_data")) {
        (Some(m), Some(h)) => {
            let mut data = m.clone();
            let nonzero = any_nonzero_of(&h);
            if nonzero {
                crate::bytes::append_bytes(&mut data, h.as_slice());
            }
            assert(data@ =~= m@ + if any_nonzero(h@) { h@ } else { Seq::<u8>::empty() });
            let digest = sha256(data.as_slice());
            let mut s = column_of("meas_hash");
            let t = hex::encode(&digest);
            s.append(t.as_str());
            push_line(lines, s);
            assert(line_views(lines@) =~= before + meas_hash_lines(*r));
        },
        _ => {
            assert(line_views(lines@) =~= before + meas_hash_lines(*r));
        },
    }
}

/// The measurement and identity sections (see `measurement_section`).
pub fn print_measurement(evidence: &JsonValue) -> (lines: Vec<String>)
    requires
        report_cuts_ok(*evidence),
    ensures
        line_views(lines@) == measurement_section(*evidence),
{
    let mut lines: Vec<String> = Vec::new();
    let r = match report_in(evidence) {
        Some(r) => r,
        None => {
            assert(line_views(lines@) =~= measurement_section(*evidence));
            return lines;
        },
    };
    push_line(&mut lines, String::new());
    push_line(&mut lines, String::from_str("── Measurement ──"));
    assert(line_views(lines@) =~= seq![Seq::<char>::empty(), "── Measurement ──"@]);
    push_opt(&mut lines, print_hex_field(r, "measurement", "measurement"));
    push_opt(&mut lines, print_hex_field(r, "host_data", "host_data"));
    push_meas_hash(&mut lines, r);
    let ghost before_id = line_views(lines@);
    push_line(&mut lines, String::new());
    push_line(&mut lines, String::from_str("── Identity ──"));
    assert(line_views(lines@) =~= before_id + seq![Seq::<char>::empty(), "── Identity ──"@]);
    push_opt(&mut lines, print_hex_field(r, "report_id", "report_id"));
    push_opt(&mut lines, print_hex_field(r, "report_id_ma", "report_id_ma"));
    push_opt(&mut lines, print_hex_field(r, "report_data", "report_data"));
    push_opt(&mut lines, print_hex_field(r, "id_key_digest", "id_key_digest"));
    push_opt(&mut lines, print_hex_field(r, "author_key_digest", "author_key"));
    push_opt(&mut lines, print_hex_field(r, "chip_id", "chip_id"));
    assert(line_views(lines@) == measurement_section(*evidence));
    lines
}

fn flag_line(label: &str, on: bool) -> (r: String)
    ensures
        r@ == column(label@) + bool_text(on),
{
    let mut s = column_of(label);
    let b = bool_string(on);
    s.append(b.as_str());
    s
}

/// The policy section (see `policy_section`).
pub fn print_policy(evidence: &JsonValue, claims: &JsonValue) -> (lines: Vec<String>)
    ensures
        line_views(lines@) == policy_section(*evidence, *claims),
{
    let mut lines: Vec<String> = Vec::new();
    let r = match report_in(evidence) {
        Some(r) => r,
        None => {
            assert(line_views(lines@) =~= policy_section(*evidence, *claims));
            return lines;
        },
    };
    let policy = match extract_u64(r, "policy") {
        Some(n) => n,
        None => 0,
    };
    push_line(&mut lines, String::new());
    push_line(&mut lines, String::from_str("── Policy Flags ──"));
    push_line(&mut lines, flag_line("DEBUG", (policy >> 19u64) & 1u64 != 0));
    push_line(&mut lines, flag_line("DEBUG_ALLOWED", (policy >> 17u64) & 1u64 != 0));
    push_line(&mut lines, flag_line("SMT_ALLOWED", (policy >> 4u64) & 1u64 != 0));
    push_line(&mut lines, flag_line("MIGRATE_MA", (policy >> 16u64) & 1u64 != 0));
    push_line(&mut lines, flag_line("SINGLE_SOCKET", (policy >> 18u64) & 1u64 != 0));
    let mut abi = column_of("ABI_VERSION");
    push_decimal(&mut abi, (policy >> 8u64) & 0xffu64);
    abi.append(".");
    push_decimal(&mut abi, policy & 0xfu64);
    push_line(&mut lines, abi);
    let ghost mid = line_views(lines@);
    match claims.get("platform_smt_enabled") {
        Some(v) => match v.as_bool() {
            Some(b) => push_line(&mut lines, flag_line("SMT_ENABLED", b)),
            None => {},
        },
        None => {},
    }
    let ghost mid2 = line_views(lines@);
    match extract_u64(r, "vmpl") {
        Some(n) => {
            let mut s = column_of("VMPL");
            push_decimal(&mut s, n);
            push_line(&mut lines, s);
        },
        None => {},
    }
    assert(line_views(lines@) =~= policy_section(*evidence, *claims));
    lines
}

/// The certificates of the evidence's chain, or the note shown instead
/// (see `chain_pems_of`).
pub fn cert_chain_pems(evidence: &JsonValue) -> (r: Result<Vec<String>, String>)
    ensures
        match r {
            Ok(p) => chain_pems_of(*evidence) == Ok::<Seq<Seq<char>>, Seq<char>>(line_views(p@)),
            Err(m) => chain_pems_of(*evidence) == Err::<Seq<Seq<char>>, Seq<char>>(m@),
        },
{
    let c = match evidence.get("cert_chain") {
        Some(c) => c,
        None => {
            return Err(String::from_str("(no certificate chain in evidence)"));
        },
    };
    let pems: Vec<String> = match c {
        JsonValue::Null => {
            return Err(String::from_str("(no certificate chain in evidence)"));
        },
        JsonValue::String(s) => {
            let p = split_pem_chain(s.as_str());
            assert(line_views(p@) =~= p@.map_values(|c: String| c@));
            p
        },
        JsonValue::Array(items) => {
            let mut out: Vec<String> = Vec::new();
            let mut i: usize = 0;
            while i < items.len()
                invariant
                    i <= items@.len(),
                    line_views(out@) == string_items(items@.subrange(0, i as int)),
                decreases items.len() - i,
            {
                let ghost sub = items@.subrange(0, i + 1);
                assert(sub.drop_last() =~= items@.subrange(0, i as int));
                assert(sub.last() == items@[i as int]);
                match items[i].as_str() {
                    Some(t) => push_line(&mut out, t.clone()),
                    None => {},
                }
                i = i + 1;
                assert(line_views(out@) =~= string_items(items@.subrange(0, i as int)));
            }
            assert(items@.subrange(0, i as int) =~= items@);
            out
        },
        _ => {
            return Err(String::from_str("(unrecognized cert_chain format)"));
        },
    };
    if pems.len() == 0 {
        return Err(String::from_str("(no certificates found)"));
    }
    Ok(pems)
}

/// The title of the `i`-th (from 0) of `n` certificates (see
/// `cert_title_text`).
pub fn cert_title(i: usize, n: usize) -> (s: String)
    requires
        i < n,
    ensures
        s@ == cert_title_text(i as int, n as int),
{
    let mut s = String::from_str("── ");
    push_decimal(&mut s, i as u64 + 1);
    s.append(" ");
    if i == 0 {
        s.append("VCEK (Leaf)");
    } else if i == n - 1 {
        s.append("Root CA");
    } else {
        s.append("Intermediate");
    }
    s.append(" ──");
    s
}

fn key_id_line(lines: &mut Vec<String>, label: &str, k: &Option<String>)
    requires
        k matches Some(s) ==> prefix_cut_ok(s@, 32),
    ensures
        line_views(final(lines)@) == line_views(old(lines)@) + key_id_lines(label@, *k),
{
    let ghost before = line_views(lines@);
    match k {
        Some(s) => {
            let mut l = column_of(label);
            let p = str_byte_prefix(s.as_str(), 32);
            l.append(p.as_str());
            push_line(lines, l);
        },
        None => {},
    }
    assert(line_views(lines@) =~= before + key_id_lines(label@, *k));
}

/// Whether a certificate's lines can be shown (see `cert_cuts_ok`).
pub fn cert_cuts_check(cert: &CertInfo) -> (r: bool)
    ensures
        r == cert_cuts_ok(*cert),
{
    if !prefix_cut_check(cert.serial.as_str(), 32) {
        return false;
    }
    match &cert.ski {
        Some(k) => if !prefix_cut_check(k.as_str(), 32) {
            return false;
        },
        None => {},
    }
    match &cert.aki {
        Some(k) => if !prefix_cut_check(k.as_str(), 32) {
            return false;
        },
        None => {},
    }
    let exts = &cert.tee_extensions;
    let mut i: usize = 0;
    while i < exts.len()
        invariant
            *exts == cert.tee_extensions,
            i <= exts@.len(),
            forall|j: int| 0 <= j < i ==> (utf8_len((#[trigger] exts@[j]).value@) > 40 ==> prefix_cut_ok(exts@[j].value@, 40)),
        decreases exts.len() - i,
    {
        let v = exts[i].value.as_str();
        if utf8_len_of(v) > 40 && !prefix_cut_check(v, 40) {
            return false;
        }
        i = i + 1;
    }
    true
}

/// The lines of a certificate (see `cert_info_lines`).
pub fn print_cert_info(cert: &CertInfo) -> (lines: Vec<String>)
    requires
        cert_cuts_ok(*cert),
    ensures
        line_views(lines@) == cert_info_lines(*cert),
{
    let mut lines: Vec<String> = Vec::new();
    let mut l = column_of("subject");
    l.append(cert.subject_cn.as_str());
    push_line(&mut lines, l);
    let mut l = column_of("issuer");
    l.append(cert.issuer_cn.as_str());
    push_line(&mut lines, l);
    let mut l = column_of("serial");
    let p = str_byte_prefix(cert.serial.as_str(), 32);
    l.append(p.as_str());
    push_line(&mut lines, l);
    let mut l = column_of("validity");
    l.append(cert.not_before.as_str());
    l.append(" to ");
    l.append(cert.not_after.as_str());
    push_line(&mut lines, l);
    let mut l = column_of("key");
    l.append(cert.key_alg.as_str());
    l.append(" (");
    push_decimal(&mut l, cert.key_bits as u64);
    l.append(" bits)");
    push_line(&mut lines, l);
    let mut l = column_of("sig_alg");
    l.append(cert.sig_alg.as_str());
    push_line(&mut lines, l);
    push_line(&mut lines, flag_line("is_ca", cert.is_ca));
    let mut l = column_of("size");
    push_decimal(&mut l, cert.der_size as u64);
    l.append(" bytes");
    push_line(&mut lines, l);
    key_id_line(&mut lines, "SKI", &cert.ski);
    key_id_line(&mut lines, "AKI", &cert.aki);
    let ghost head = line_views(lines@);
    let exts = &cert.tee_extensions;
    if exts.len() > 0 {
        push_line(&mut lines, String::new());
        push_line(&mut lines, String::from_str("  TEE Extensions:"));
        let ghost top = line_views(lines@);
        let mut i: usize = 0;
        while i < exts.len()
            invariant
                *exts == cert.tee_extensions,
                cert_cuts_ok(*cert),
                i <= exts@.len(),
                line_views(lines@) == top + ext_lines(exts@.subrange(0, i as int)),
            decreases exts.len() - i,
        {
            let e = &exts[i];
            let mut l = String::from_str("    ");
            let mut name = chars_of(e.name.as_str());
            let ghost n0 = name@;
            while name.len() < 12
                invariant
                    n0.len() <= name@.len() <= if n0.len() < 12 { 12 } else { n0.len() },
                    name@ == n0 + Seq::new((name@.len() - n0.len()) as nat, |k: int| ' '),
                decreases 12 - name.len(),
            {
                name.push(' ');
                assert(name@ =~= n0 + Seq::new((name@.len() - n0.len()) as nat, |k: int| ' '));
            }
            proof {
                if n0.len() >= 12 {
                    assert(name@ =~= n0);
                }
            }
            let padded = string_from_chars(&name);
            l.append(padded.as_str());
            l.append(" ");
            if utf8_len_of(e.value.as_str()) > 40 {
                let p = str_byte_prefix(e.value.as_str(), 40);
                l.append(p.as_str());
                l.append("...");
            } else {
                l.append(e.value.as_str());
            }
            l.append(" (");
            let pt = e.platform.to_string();
            l.append(pt.as_str());
            l.append(")");
            assert(padded@ == pad_right(e.name@, 12));
            assert(l@ =~= "    "@ + pad_right(e.name@, 12) + " "@ + ext_value_display(e.value@) + " ("@
                + platform_text(e.platform) + ")"@);
            push_line(&mut lines, l);
            proof {
                let sub = exts@.subrange(0, i + 1);
                assert(sub.drop_last() =~= exts@.subrange(0, i as int));
                assert(sub.last() == *e);
            }
            i = i + 1;
        }
        assert(exts@.subrange(0, i as int) =~= exts@);
    }
    assert(line_views(lines@) =~= cert_info_lines(*cert));
    lines
}

/// The lines shown for a certificate that did not parse: the error, and the
/// first 60 characters of its PEM text.
pub fn cert_parse_error_lines(e: &QuoteSignatureError, pem: &str) -> (lines: Vec<String>)
    ensures
        line_views(lines@) == seq![
            "  Parse error: "@ + signature_error_text(*e),
            "  PEM preview: "@ + pem@.subrange(0, if pem@.len() < 60 { pem@.len() as int } else { 60 }) + "..."@,
        ],
{
    let mut lines: Vec<String> = Vec::new();
    let mut l = String::from_str("  Parse error: ");
    let t = e.to_string();
    l.append(t.as_str());
    push_line(&mut lines, l);
    let cs = chars_of(pem);
    let n: usize = if cs.len() < 60 { cs.len() } else { 60 };
    let mut head: Vec<char> = Vec::new();
    let mut i: usize = 0;
    while i < n
        invariant
            cs@ == pem@,
            n <= cs@.len(),
            i <= n,
            head@ == cs@.subrange(0, i as int),
        decreases n - i,
    {
        head.push(cs[i]);
        i = i + 1;
        assert(head@ =~= cs@.subrange(0, i as int));
    }
    let mut l = String::from_str("  PEM preview: ");
    let h = string_from_chars(&head);
    l.append(h.as_str());
    l.append("...");
    push_line(&mut lines, l);
    assert(line_views(lines@) =~= seq![
        "  Parse error: "@ + signature_error_text(*e),
        "  PEM preview: "@ + pem@.subrange(0, n as int) + "..."@,
    ]);
    lines
}

/// The raw report summary (see `raw_report_lines`); `report_json` is the
/// compact JSON text of the report.
pub fn print_raw_report(evidence: &JsonValue, report_json: &str) -> (lines: Vec<String>)
    requires
        prefix_cut_ok(report_json@, 40),
        suffix_cut_ok(report_json@, 40),
    ensures
        line_views(lines@) == raw_report_lines(*evidence, report_json@),
{
    let mut lines: Vec<String> = Vec::new();
    if report_in(evidence).is_none() {
        assert(line_views(lines@) =~= raw_report_lines(*evidence, report_json@));
        return lines;
    }
    push_line(&mut lines, String::from_str("── Raw Report ──"));
    let mut l = str_byte_prefix(report_json, 40);
    l.append("...");
    let tail = str_byte_suffix(report_json, 40);
    l.append(tail.as_str());
    l.append(" (JSON: ");
    push_decimal_wide(&mut l, utf8_len_of(report_json));
    l.append(" bytes, binary: 1184 bytes)");
    push_line(&mut lines, l);
    assert(line_views(lines@) =~= raw_report_lines(*evidence, report_json@));
    lines
}

} // verus!
