//! The text of the TDX information report: the lines that show a quote's
//! verified claims, the labels of its certificate chain, and a summary of
//! the raw quote.

use vstd::prelude::*;
use vstd::string::*;
use crate::json::{JsonValue, json_get, json_as_str, json_as_bool};
use crate::text::{chars_of, string_from_chars, dec_spec, push_decimal, prefix_cut_ok};
use crate::hex::{self, hex_encode_spec};
use crate::certificates::{cert_data_type_name, cert_data_type_number};
use crate::quote_certs::{CertInfo, QuoteSignature, cert_info_text};

verus! {

/// The text of a string member of an object.
pub open spec fn str_member(v: JsonValue, key: Seq<char>) -> Option<Seq<char>> {
    match json_get(v, key) {
        Some(x) => json_as_str(x),
        None => None,
    }
}

/// The value of a boolean member of an object.
pub open spec fn bool_member(v: JsonValue, key: Seq<char>) -> Option<bool> {
    match json_get(v, key) {
        Some(x) => json_as_bool(x),
        None => None,
    }
}

/// Spaces that pad `s` on the right to `width` characters (`{:width}`).
pub open spec fn pad_right(s: Seq<char>, width: int) -> Seq<char> {
    if s.len() < width {
        s + Seq::new((width - s.len()) as nat, |i: int| ' ')
    } else {
        s
    }
}

/// The line of a hex field, when the object has it as a string:
/// `label:` padded to 14 characters, a space, and the value.
pub open spec fn hex_field_lines(obj: JsonValue, key: Seq<char>, label: Seq<char>) -> Seq<Seq<char>> {
    match str_member(obj, key) {
        Some(v) => seq![pad_right(label + ":"@, 14) + " "@ + v],
        None => Seq::empty(),
    }
}

/// The texts of the string items of a list, in order.
pub open spec fn string_items(items: Seq<JsonValue>) -> Seq<Seq<char>>
    decreases items.len(),
{
    if items.len() == 0 {
        Seq::empty()
    } else {
        string_items(items.drop_last()) + match json_as_str(items.last()) {
            Some(s) => seq![s],
            None => Seq::<Seq<char>>::empty(),
        }
    }
}

/// The parts joined by `sep`.
pub open spec fn join(parts: Seq<Seq<char>>, sep: Seq<char>) -> Seq<char>
    decreases parts.len(),
{
    if parts.len() == 0 {
        Seq::empty()
    } else if parts.len() == 1 {
        parts[0]
    } else {
        join(parts.drop_last(), sep) + sep + parts.last()
    }
}

/// The text of a boolean (`true` or `false`).
pub open spec fn bool_text(b: bool) -> Seq<char> {
    if b {
        "true"@
    } else {
        "false"@
    }
}

/// The lines about the TCB: its status and date, and the advisory ids
/// when there are any.
pub open spec fn tcb_lines(claims: JsonValue) -> Seq<Seq<char>> {
    (match str_member(claims, "tcb_status"@) {
        Some(t) => seq!["tcb_status:     "@ + t],
        None => Seq::<Seq<char>>::empty(),
    }) + (match str_member(claims, "tcb_date"@) {
        Some(d) => seq!["tcb_date:       "@ + d],
        None => Seq::<Seq<char>>::empty(),
    }) + (match json_get(claims, "advisory_ids"@) {
        Some(JsonValue::Array(ids)) => if ids@.len() > 0 {
            seq!["advisory_ids:   "@ + join(string_items(ids@), ", "@)]
        } else {
            Seq::<Seq<char>>::empty()
        },
        _ => Seq::<Seq<char>>::empty(),
    })
}

/// The quote header's section, when the claims have one.
pub open spec fn header_lines(claims: JsonValue) -> Seq<Seq<char>> {
    match json_get(claims, "quote"@) {
        Some(q) => match json_get(q, "header"@) {
            Some(h) => seq![Seq::<char>::empty(), "── Quote Header ──"@] + hex_field_lines(h, "version"@, "version"@)
                + hex_field_lines(h, "tee_type"@, "tee_type"@) + hex_field_lines(h, "att_key_type"@, "att_key_type"@)
                + hex_field_lines(h, "vendor_id"@, "vendor_id"@),
            None => Seq::empty(),
        },
        None => Seq::empty(),
    }
}

/// The TD report section of a quote body.
pub open spec fn td_report_lines(b: JsonValue) -> Seq<Seq<char>> {
    seq![Seq::<char>::empty(), "── TD Report ──"@] + hex_field_lines(b, "tcb_svn"@, "tcb_svn"@)
        + hex_field_lines(b, "mr_td"@, "mr_td"@) + hex_field_lines(b, "mr_seam"@, "mr_seam"@)
        + hex_field_lines(b, "td_attributes"@, "td_attributes"@) + hex_field_lines(b, "xfam"@, "xfam"@)
}

/// The RTMR section of a quote body.
pub open spec fn rtmr_lines(b: JsonValue) -> Seq<Seq<char>> {
    seq![Seq::<char>::empty(), "── RTMRs ──"@] + hex_field_lines(b, "rtmr_0"@, "RTMR[0]"@)
        + hex_field_lines(b, "rtmr_1"@, "RTMR[1]"@) + hex_field_lines(b, "rtmr_2"@, "RTMR[2]"@)
        + hex_field_lines(b, "rtmr_3"@, "RTMR[3]"@)
}

/// The report data section of a quote body.
pub open spec fn report_data_lines(b: JsonValue) -> Seq<Seq<char>> {
    seq![Seq::<char>::empty(), "── Report Data ──"@] + hex_field_lines(b, "report_data"@, "report_data"@)
}

/// The TD report's sections (report, RTMRs, report data), when the claims
/// have a quote body.
pub open spec fn body_lines(claims: JsonValue) -> Seq<Seq<char>> {
    match json_get(claims, "quote"@) {
        Some(q) => match json_get(q, "body"@) {
            Some(b) => td_report_lines(b) + rtmr_lines(b) + report_data_lines(b),
            None => Seq::empty(),
        },
        None => Seq::empty(),
    }
}

/// The TD attributes section, when the claims have one.
pub open spec fn attribute_lines(claims: JsonValue) -> Seq<Seq<char>> {
    match json_get(claims, "td_attributes"@) {
        Some(a) => seq![Seq::<char>::empty(), "── TD Attributes ──"@] + (match bool_member(a, "debug"@) {
            Some(d) => seq!["DEBUG:          "@ + bool_text(d)],
            None => Seq::<Seq<char>>::empty(),
        }) + (match bool_member(a, "septve_disable"@) {
            Some(s) => seq!["SEPT_VE_DIS:    "@ + bool_text(s)],
            None => Seq::<Seq<char>>::empty(),
        }),
        None => Seq::empty(),
    }
}

/// The lines that show verified TDX claims.
pub open spec fn claims_report(claims: JsonValue) -> Seq<Seq<char>> {
    tcb_lines(claims) + header_lines(claims) + body_lines(claims) + attribute_lines(claims)
}

/// The characters of each line.
pub open spec fn line_views(lines: Seq<String>) -> Seq<Seq<char>> {
    lines.map_values(|l: String| l@)
}

pub(crate) fn push_line(lines: &mut Vec<String>, line: String)
    ensures
        line_views(final(lines)@) == line_views(old(lines)@).push(line@),
{
    lines.push(line);
    assert(line_views(lines@) =~= line_views(old(lines)@).push(line@));
}

fn push_prefixed(lines: &mut Vec<String>, prefix: &str, value: &str)
    ensures
        line_views(final(lines)@) == line_views(old(lines)@).push(prefix@ + value@),
{
    let mut s = String::from_str(prefix);
    s.append(value);
    push_line(lines, s);
}

pub(crate) fn label_column(label: &str) -> (r: String)
    ensures
        r@ == pad_right(label@ + ":"@, 14),
{
    let mut cs = chars_of(label);
    cs.push(':');
    let ghost start = cs@;
    assert(start =~= label@ + ":"@) by {
        reveal_strlit(":");
    }
    while cs.len() < 14
        invariant
            start.len() <= cs@.len() <= if start.len() < 14 { 14 } else { start.len() },
            cs@ == start + Seq::new((cs@.len() - start.len()) as nat, |i: int| ' '),
        decreases 14 - cs.len(),
    {
        let ghost before = cs@;
        cs.push(' ');
        assert(cs@ =~= start + Seq::new((cs@.len() - start.len()) as nat, |i: int| ' '));
    }
    proof {
        if start.len() >= 14 {
            assert(cs@ =~= start);
        }
    }
    string_from_chars(&cs)
}

fn push_hex_field(lines: &mut Vec<String>, obj: &JsonValue, key: &str, label: &str)
    ensures
        line_views(final(lines)@) == line_views(old(lines)@) + hex_field_lines(*obj, key@, label@),
{
    let ghost before = line_views(lines@);
    match obj.get(key) {
        Some(v) => match v.as_str() {
            Some(t) => {
                let mut s = label_column(label);
                s.append(" ");
                s.append(t.as_str());
                push_line(lines, s);
                assert(line_views(lines@) =~= before + hex_field_lines(*obj, key@, label@));
            },
            None => {
                assert(line_views(lines@) =~= before + hex_field_lines(*obj, key@, label@));
            },
        },
        None => {
            assert(line_views(lines@) =~= before + hex_field_lines(*obj, key@, label@));
        },
    }
}

pub(crate) fn bool_string(b: bool) -> (r: String)
    ensures
        r@ == bool_text(b),
{
    if b {
        String::from_str("true")
    } else {
        String::from_str("false")
    }
}

fn joined_strings(items: &Vec<JsonValue>) -> (r: String)
    ensures
        r@ == join(string_items(items@), ", "@),
{
    let mut out = String::new();
    let mut any = false;
    let mut i: usize = 0;
    while i < items.len()
        invariant
            i <= items@.len(),
            any == (string_items(items@.subrange(0, i as int)).len() > 0),
            out@ == join(string_items(items@.subrange(0, i as int)), ", "@),
        decreases items.len() - i,
    {
        let ghost pre = string_items(items@.subrange(0, i as int));
        proof {
            assert(items@.subrange(0, i + 1).drop_last() =~= items@.subrange(0, i as int));
        }
        match items[i].as_str() {
            Some(t) => {
                if any {
                    out.append(", ");
                }
                out.append(t.as_str());
                proof {
                    let post = string_items(items@.subrange(0, i + 1));
                    assert(post =~= pre.push(t@));
                    assert(post.drop_last() =~= pre);
                }
                any = true;
            },
            None => {
                proof {
                    assert(string_items(items@.subrange(0, i + 1)) =~= pre);
                }
            },
        }
        i = i + 1;
    }
    assert(items@.subrange(0, i as int) =~= items@);
    out
}


fn push_str_member(lines: &mut Vec<String>, obj: &JsonValue, key: &str, prefix: &str)
    ensures
        line_views(final(lines)@) == line_views(old(lines)@) + match str_member(*obj, key@) {
            Some(t) => seq![prefix@ + t],
            None => Seq::<Seq<char>>::empty(),
        },
{
    let ghost before = line_views(lines@);
    match obj.get(key) {
        Some(v) => match v.as_str() {
            Some(t) => {
                push_prefixed(lines, prefix, t.as_str());
            },
            None => {
                assert(line_views(lines@) =~= before + Seq::<Seq<char>>::empty());
            },
        },
        None => {
            assert(line_views(lines@) =~= before + Seq::<Seq<char>>::empty());
        },
    }
}

fn push_bool_member(lines: &mut Vec<String>, obj: &JsonValue, key: &str, prefix: &str)
    ensures
        line_views(final(lines)@) == line_views(old(lines)@) + match bool_member(*obj, key@) {
            Some(b) => seq![prefix@ + bool_text(b)],
            None => Seq::<Seq<char>>::empty(),
        },
{
    let ghost before = line_views(lines@);
    match obj.get(key) {
        Some(v) => match v.as_bool() {
            Some(b) => {
                let t = bool_string(b);
                push_prefixed(lines, prefix, t.as_str());
            },
            None => {
                assert(line_views(lines@) =~= before + Seq::<Seq<char>>::empty());
            },
        },
        None => {
            assert(line_views(lines@) =~= before + Seq::<Seq<char>>::empty());
        },
    }
}

fn push_tcb_lines(lines: &mut Vec<String>, claims: &JsonValue)
    ensures
        line_views(final(lines)@) == line_views(old(lines)@) + tcb_lines(*claims),
{
    let ghost before = line_views(lines@);
    push_str_member(lines, claims, "tcb_status", "tcb_status:     ");
    push_str_member(lines, claims, "tcb_date", "tcb_date:       ");
    let ghost mid = line_views(lines@);
    match claims.get("advisory_ids") {
        Some(JsonValue::Array(ids)) => {
            if ids.len() > 0 {
                let joined = joined_strings(ids);
                push_prefixed(lines, "advisory_ids:   ", joined.as_str());
            }
        },
        _ => {},
    }
    assert(line_views(lines@) =~= before + tcb_lines(*claims));
}

fn push_header_lines(lines: &mut Vec<String>, claims: &JsonValue)
    ensures
        line_views(final(lines)@) == line_views(old(lines)@) + header_lines(*claims),
{
    let ghost before = line_views(lines@);
    match claims.get("quote") {
        Some(q) => match q.get("header") {
            Some(h) => {
                push_line(lines, String::new());
                push_line(lines, String::from_str("── Quote Header ──"));
                push_hex_field(lines, h, "version", "version");
                push_hex_field(lines, h, "tee_type", "tee_type");
                push_hex_field(lines, h, "att_key_type", "att_key_type");
                push_hex_field(lines, h, "vendor_id", "vendor_id");
            },
            None => {},
        },
        None => {},
    }
    assert(line_views(lines@) =~= before + header_lines(*claims));
}

fn push_td_report(lines: &mut Vec<String>, b: &JsonValue)
    ensures
        line_views(final(lines)@) == line_views(old(lines)@) + td_report_lines(*b),
{
    let ghost before = line_views(lines@);
    push_line(lines, String::new());
    push_line(lines, String::from_str("── TD Report ──"));
    push_hex_field(lines, b, "tcb_svn", "tcb_svn");
    push_hex_field(lines, b, "mr_td", "mr_td");
    push_hex_field(lines, b, "mr_seam", "mr_seam");
    push_hex_field(lines, b, "td_attributes", "td_attributes");
    push_hex_field(lines, b, "xfam", "xfam");
    assert(line_views(lines@) =~= before + td_report_lines(*b));
}

fn push_rtmrs(lines: &mut Vec<String>, b: &JsonValue)
    ensures
        line_views(final(lines)@) == line_views(old(lines)@) + rtmr_lines(*b),
{
    let ghost before = line_views(lines@);
    push_line(lines, String::new());
    push_line(lines, String::from_str("── RTMRs ──"));
    push_hex_field(lines, b, "rtmr_0", "RTMR[0]");
    push_hex_field(lines, b, "rtmr_1", "RTMR[1]");
    push_hex_field(lines, b, "rtmr_2", "RTMR[2]");
    push_hex_field(lines, b, "rtmr_3", "RTMR[3]");
    assert(line_views(lines@) =~= before + rtmr_lines(*b));
}

fn push_report_data(lines: &mut Vec<String>, b: &JsonValue)
    ensures
        line_views(final(lines)@) == line_views(old(lines)@) + report_data_lines(*b),
{
    let ghost before = line_views(lines@);
    push_line(lines, String::new());
    push_line(lines, String::from_str("── Report Data ──"));
    push_hex_field(lines, b, "report_data", "report_data");
    assert(line_views(lines@) =~= before + report_data_lines(*b));
}

fn push_body_lines(lines: &mut Vec<String>, claims: &JsonValue)
    ensures
        line_views(final(lines)@) == line_views(old(lines)@) + body_lines(*claims),
{
    let ghost before = line_views(lines@);
    match claims.get("quote") {
        Some(q) => match q.get("body") {
            Some(b) => {
                push_td_report(lines, b);
                push_rtmrs(lines, b);
                push_report_data(lines, b);
            },
            None => {},
        },
        None => {},
    }
    assert(line_views(lines@) =~= before + body_lines(*claims));
}

fn push_attribute_lines(lines: &mut Vec<String>, claims: &JsonValue)
    ensures
        line_views(final(lines)@) == line_views(old(lines)@) + attribute_lines(*claims),
{
    let ghost before = line_views(lines@);
    match claims.get("td_attributes") {
        Some(a) => {
            push_line(lines, String::new());
            push_line(lines, String::from_str("── TD Attributes ──"));
            push_bool_member(lines, a, "debug", "DEBUG:          ");
            push_bool_member(lines, a, "septve_disable", "SEPT_VE_DIS:    ");
        },
        None => {},
    }
    assert(line_views(lines@) =~= before + attribute_lines(*claims));
}

/// The lines that show a quote's verified claims (see `claims_report`).
pub fn print_claims(claims: &JsonValue) -> (r: Vec<String>)
    ensures
        line_views(r@) == claims_report(*claims),
{
    let mut lines: Vec<String> = Vec::new();
    assert(line_views(lines@) =~= Seq::<Seq<char>>::empty());
    push_tcb_lines(&mut lines, claims);
    push_header_lines(&mut lines, claims);
    push_body_lines(&mut lines, claims);
    push_attribute_lines(&mut lines, claims);
    assert(line_views(lines@) =~= claims_report(*claims));
    lines
}

/// The label of the `i`-th of `n` certificates of a chain: the leaf first,
/// the root last, intermediates between.
pub open spec fn chain_label(i: int, n: int) -> Seq<char> {
    if i == 0 {
        "PCK (Leaf)"@
    } else if i == n - 1 {
        "Root CA"@
    } else {
        "Intermediate"@
    }
}

/// The label of a certificate of a chain (see `chain_label`).
pub fn cert_chain_label(i: usize, n: usize) -> (s: String)
    ensures
        s@ == chain_label(i as int, n as int),
{
    if i == 0 {
        String::from_str("PCK (Leaf)")
    } else if n > 0 && i == n - 1 {
        String::from_str("Root CA")
    } else {
        String::from_str("Intermediate")
    }
}


/// The text of a certificate chain: for each certificate, a title with its
/// number (from 1) and label, its display text, and an empty line.
pub open spec fn chain_text(certs: Seq<CertInfo>, n: int) -> Seq<char>
    decreases certs.len(),
{
    if certs.len() == 0 {
        Seq::empty()
    } else {
        chain_text(certs.drop_last(), n) + chain_entry_text(certs.len() - 1, n, certs.last())
    }
}

/// The part of a chain's text for its `i`-th certificate (from 0).
pub open spec fn chain_entry_text(i: int, n: int, c: CertInfo) -> Seq<char> {
    "── "@ + dec_spec((i + 1) as nat) + " "@ + chain_label(i, n) + " ──\n"@ + cert_info_text(c) + "\n"@
}

fn append_chain_entry(s: &mut String, i: usize, n: usize, c: &CertInfo)
    requires
        i < n,
        prefix_cut_ok(c.serial@, 40),
    ensures
        final(s)@ == old(s)@ + chain_entry_text(i as int, n as int, *c),
{
    s.append("── ");
    push_decimal(s, (i + 1) as u64);
    s.append(" ");
    let label = cert_chain_label(i, n);
    s.append(label.as_str());
    s.append(" ──\n");
    let body = c.to_string();
    s.append(body.as_str());
    s.append("\n");
}

/// The first 16 bytes in hex, `...`, and the size: `hex... (n bytes)`.
pub open spec fn key_summary(b: Seq<u8>) -> Seq<char> {
    hex_encode_spec(b.subrange(0, 16)) + "... ("@ + dec_spec(b.len()) + " bytes)\n"@
}

/// The text of a quote's signature data: signature and attestation key
/// summaries, the certification data type and size when the type is
/// known, and the certificate chain when there is one.
pub open spec fn signature_text(sig: QuoteSignature) -> Seq<char> {
    "signature:      "@ + key_summary(sig.signature@) + "attest_key:     "@ + key_summary(sig.attest_pub_key@)
        + (match sig.cert_data_type {
        Some(t) => cert_type_text(t, sig.cert_data_size),
        None => Seq::<char>::empty(),
    }) + (match sig.cert_chain {
        Some(c) => "\n"@ + chain_text(c.certs@, c.certs@.len() as int),
        None => Seq::<char>::empty(),
    })
}

fn append_key_summary(s: &mut String, b: &Vec<u8>)
    requires
        b@.len() >= 16,
    ensures
        final(s)@ == old(s)@ + key_summary(b@),
{
    let bs = b.as_slice();
    let h = hex::encode(&bs[0..16]);
    s.append(h.as_str());
    s.append("... (");
    push_decimal(s, b.len() as u64);
    s.append(" bytes)\n");
}

/// The certification data type and size lines.
pub open spec fn cert_type_text(t: crate::certificates::CertDataType, size: usize) -> Seq<char> {
    "cert_type:      "@ + cert_data_type_name(t) + " ("@ + dec_spec(cert_data_type_number(t) as nat) + ")\n"@
        + "cert_size:      "@ + dec_spec(size as nat) + " bytes\n"@
}

fn append_cert_type(s: &mut String, t: crate::certificates::CertDataType, size: usize)
    ensures
        final(s)@ == old(s)@ + cert_type_text(t, size),
{
    s.append("cert_type:      ");
    let name = t.to_string();
    s.append(name.as_str());
    s.append(" (");
    push_decimal(s, t.as_u16() as u64);
    s.append(")\n");
    s.append("cert_size:      ");
    push_decimal(s, size as u64);
    s.append(" bytes\n");
}

fn append_chain(s: &mut String, certs: &Vec<CertInfo>)
    requires
        forall|i: int| 0 <= i < certs@.len() ==> prefix_cut_ok(#[trigger] certs@[i].serial@, 40),
    ensures
        final(s)@ == old(s)@ + chain_text(certs@, certs@.len() as int),
{
    let ghost top = s@;
    let n = certs.len();
    let mut i: usize = 0;
    while i < n
        invariant
            n == certs@.len(),
            i <= n,
            s@ == top + chain_text(certs@.subrange(0, i as int), n as int),
            forall|k: int| 0 <= k < certs@.len() ==> prefix_cut_ok(#[trigger] certs@[k].serial@, 40),
        decreases n - i,
    {
        append_chain_entry(s, i, n, &certs[i]);
        proof {
            let sub = certs@.subrange(0, i + 1);
            assert(sub.drop_last() =~= certs@.subrange(0, i as int));
            assert(sub.last() == certs@[i as int]);
        }
        i = i + 1;
    }
    assert(certs@.subrange(0, i as int) =~= certs@);
}

/// The text of a quote's signature data (see `signature_text`). The
/// signature and the key hold at least 16 bytes, and each certificate's
/// serial can be cut at 40 bytes.
pub fn signature_report(sig: &QuoteSignature) -> (s: String)
    requires
        sig.signature@.len() >= 16,
        sig.attest_pub_key@.len() >= 16,
        sig.cert_chain matches Some(c) ==> forall|i: int| 0 <= i < c.certs@.len() ==> prefix_cut_ok(#[trigger] c.certs@[i].serial@, 40),
    ensures
        s@ == signature_text(*sig),
{
    let mut s = String::from_str("signature:      ");
    append_key_summary(&mut s, &sig.signature);
    s.append("attest_key:     ");
    append_key_summary(&mut s, &sig.attest_pub_key);
    let ghost head = s@;
    match sig.cert_data_type {
        Some(t) => {
            append_cert_type(&mut s, t, sig.cert_data_size);
        },
        None => {},
    }
    let ghost mid = s@;
    match &sig.cert_chain {
        Some(c) => {
            s.append("\n");
            append_chain(&mut s, &c.certs);
        },
        None => {},
    }
    s
}

/// A summary of a raw quote: the first and the last 40 hex digits and the
/// size, `first...last (n bytes)`.
pub open spec fn quote_summary_text(q: Seq<u8>) -> Seq<char> {
    let h = hex_encode_spec(q);
    h.subrange(0, if h.len() < 40 { h.len() as int } else { 40 }) + "..."@
        + h.subrange(if h.len() < 40 { 0 } else { h.len() - 40 }, h.len() as int) + " ("@ + dec_spec(q.len()) + " bytes)"@
}

/// The summary of a raw quote (see `quote_summary_text`).
pub fn raw_quote_summary(quote: &[u8]) -> (s: String)
    ensures
        s@ == quote_summary_text(quote@),
{
    let h = hex::encode(quote);
    let cs = chars_of(h.as_str());
    let n = cs.len();
    let head_end: usize = if n < 40 { n } else { 40 };
    let tail_start: usize = if n < 40 { 0 } else { n - 40 };
    let mut out: Vec<char> = Vec::new();
    let mut i: usize = 0;
    while i < head_end
        invariant
            cs@ == h@,
            n == cs@.len(),
            head_end <= n,
            i <= head_end,
            out@ == cs@.subrange(0, i as int),
        decreases head_end - i,
    {
        out.push(cs[i]);
        i = i + 1;
        assert(out@ =~= cs@.subrange(0, i as int));
    }
    let mut head = string_from_chars(&out);
    let mut tail: Vec<char> = Vec::new();
    let mut j: usize = tail_start;
    while j < n
        invariant
            cs@ == h@,
            n == cs@.len(),
            tail_start <= j <= n,
            tail@ == cs@.subrange(tail_start as int, j as int),
        decreases n - j,
    {
        tail.push(cs[j]);
        j = j + 1;
        assert(tail@ =~= cs@.subrange(tail_start as int, j as int));
    }
    let tail_s = string_from_chars(&tail);
    head.append("...");
    head.append(tail_s.as_str());
    head.append(" (");
    push_decimal(&mut head, quote.len() as u64);
    head.append(" bytes)");
    head
}

} // verus!
