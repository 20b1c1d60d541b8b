//! Intel TDX quotes: the TD_ATTRIBUTES bitmap, structural parsing of v4/v5
//! quotes, and the policy checks on a quote whose signature was verified.
//!
//! Layout of the parts that are read (offsets in the quote body, which
//! starts after a 48-byte header, or 54 bytes for version 5):
//! `td_attributes` at 120 (8 bytes), `rtmr_0..3` at 328 (4 × 48 bytes),
//! `report_data` at 520 (64 bytes: binding, then instance identity).
//! The measurement hash is `SHA256(RTMR0 || RTMR1 || RTMR2 || RTMR3)`.

use vstd::prelude::*;
use vstd::string::*;
use vstd::utf8::encode_utf8;
use crate::bytes::{Bytes32, Bytes48, Bytes64};
use crate::crypto::{sha256, spec_sha256, spec_base64_decode, base64_decode, base64_error_text};
use crate::errors::{concat_str, VerificationError};
use crate::hex::{self, hex_encode_spec, lower_hex_spec, zero_pad, lower_hex_padded};
use crate::identity::InstanceId;
use crate::json::{JsonValue, json_index, json_as_str, text_at_path};
use crate::measurement::{TdxMeasurement, TdxMinimumTcb, TdxPlatformConstraints};
use crate::tee::{ParsedAttestation, Tee};
use crate::text::{byte_prefix, prefix_cut_ok, eq_ignore_ascii_case_spec, eq_ignore_ascii_case, str_byte_prefix};
use crate::hex::{hex_decode_str, hex_error_text, FromHexError};
use crate::text::{dec_spec, push_decimal};

verus! {

/// Size of the quote header (version 4).
pub const HEADER_SIZE: usize = 48;
/// Size of the TD quote body.
pub const BODY_SIZE: usize = 584;
/// Offset of REPORTDATA within the body.
pub const REPORT_DATA_OFFSET: usize = 520;

/// The little-endian value of eight bytes.
pub open spec fn le_u64(b: Seq<u8>) -> int {
    b[0] + b[1] * 0x100 + b[2] * 0x1_0000 + b[3] * 0x100_0000 + b[4] * 0x1_0000_0000
        + b[5] * 0x100_0000_0000 + b[6] * 0x1_0000_0000_0000 + b[7] * 0x100_0000_0000_0000
}

/// Byte `i` (from the least significant) of `x`.
pub open spec fn le_byte(x: u64, i: int) -> u8 {
    ((x >> (8 * i) as u64) & 0xff) as u8
}

/// TDX TD_ATTRIBUTES bitmap (64 bits).
///
/// Known bits: 0 DEBUG, 4 SEPT_VE_DISABLE, 27 MIGRATABLE, 28 PKS, 30 KL,
/// 31 PERFMON; the others are reserved.
#[derive(Clone, Copy, Debug, PartialEq, Eq, Hash, Structural)]
pub struct TdAttributes(pub u64);

impl TdAttributes {
    /// Bit 0: the TD is debuggable.
    pub const DEBUG: u64 = 0x1;
    /// Bit 4: EPT violations are not converted to #VE.
    pub const SEPT_VE_DISABLE: u64 = 0x10;
    /// Bit 27: the TD supports migration.
    pub const MIGRATABLE: u64 = 0x800_0000;
    /// Bit 28: protection keys for supervisor pages.
    pub const PKS: u64 = 0x1000_0000;
    /// Bit 30: key locker.
    pub const KL: u64 = 0x4000_0000;
    /// Bit 31: performance monitoring.
    pub const PERFMON: u64 = 0x8000_0000;

    /// Reads the bitmap from eight little-endian bytes.
    pub fn from_bytes(bytes: [u8; 8]) -> (r: Self)
        ensures
            r.0 == le_u64(bytes@),
    {
        let b0 = bytes[0];
        let b1 = bytes[1];
        let b2 = bytes[2];
        let b3 = bytes[3];
        let b4 = bytes[4];
        let b5 = bytes[5];
        let b6 = bytes[6];
        let b7 = bytes[7];
        let v: u64 = (b0 as u64) | ((b1 as u64) << 8u64) | ((b2 as u64) << 16u64) | ((b3 as u64) << 24u64)
            | ((b4 as u64) << 32u64) | ((b5 as u64) << 40u64) | ((b6 as u64) << 48u64) | ((b7 as u64) << 56u64);
        assert(v == b0 + b1 * 0x100 + b2 * 0x1_0000 + b3 * 0x100_0000 + b4 * 0x1_0000_0000
            + b5 * 0x100_0000_0000 + b6 * 0x1_0000_0000_0000 + b7 * 0x100_0000_0000_0000) by (bit_vector)
            requires
                v == (b0 as u64) | ((b1 as u64) << 8u64) | ((b2 as u64) << 16u64) | ((b3 as u64) << 24u64)
                    | ((b4 as u64) << 32u64) | ((b5 as u64) << 40u64) | ((b6 as u64) << 48u64) | ((b7 as u64) << 56u64),
        ;
        TdAttributes(v)
    }

    /// Wraps a raw value.
    pub fn from_raw(value: u64) -> (r: Self)
        ensures
            r.0 == value,
    {
        TdAttributes(value)
    }

    /// The raw value.
    pub fn as_raw(&self) -> (r: u64)
        ensures
            r == self.0,
    {
        self.0
    }

    /// The eight little-endian bytes.
    pub fn as_bytes(&self) -> (r: [u8; 8])
        ensures
            r@.len() == 8,
            forall|i: int| 0 <= i < 8 ==> r@[i] == le_byte(self.0, i),
    {
        let x = self.0;
        let r = [
            (x & 0xff) as u8,
            ((x >> 8u64) & 0xff) as u8,
            ((x >> 16u64) & 0xff) as u8,
            ((x >> 24u64) & 0xff) as u8,
            ((x >> 32u64) & 0xff) as u8,
            ((x >> 40u64) & 0xff) as u8,
            ((x >> 48u64) & 0xff) as u8,
            ((x >> 56u64) & 0xff) as u8,
        ];
        assert(x >> 0u64 == x) by (bit_vector);
        r
    }

    /// Whether any bit of `bit` is set.
    pub fn is_set(&self, bit: u64) -> (r: bool)
        ensures
            r == (self.0 & bit != 0),
    {
        self.0 & bit != 0
    }

    /// Bit 0: the TD is debuggable, which lets the host read and write its
    /// state.
    pub fn is_debug(&self) -> (r: bool)
        ensures
            r == (self.0 & 0x1 != 0),
    {
        self.is_set(Self::DEBUG)
    }

    /// Bit 4.
    pub fn is_sept_ve_disabled(&self) -> (r: bool)
        ensures
            r == (self.0 & 0x10 != 0),
    {
        self.is_set(Self::SEPT_VE_DISABLE)
    }

    /// Bit 27.
    pub fn is_migratable(&self) -> (r: bool)
        ensures
            r == (self.0 & 0x800_0000 != 0),
    {
        self.is_set(Self::MIGRATABLE)
    }

    /// Bit 28.
    pub fn is_pks_enabled(&self) -> (r: bool)
        ensures
            r == (self.0 & 0x1000_0000 != 0),
    {
        self.is_set(Self::PKS)
    }

    /// Bit 30.
    pub fn is_key_locker_enabled(&self) -> (r: bool)
        ensures
            r == (self.0 & 0x4000_0000 != 0),
    {
        self.is_set(Self::KL)
    }

    /// Bit 31.
    pub fn is_perfmon_enabled(&self) -> (r: bool)
        ensures
            r == (self.0 & 0x8000_0000 != 0),
    {
        self.is_set(Self::PERFMON)
    }

    /// Display text: `0x` and sixteen lowercase hex digits.
    pub fn to_string(&self) -> (s: String)
        ensures
            s@ == "0x"@ + zero_pad(lower_hex_spec(self.0 as nat), 16),
    {
        let mut s = String::from_str("0x");
        let h = lower_hex_padded(self.0, 16);
        s.append(h.as_str());
        s
    }
}

/// `acc` with `name` added to a `|`-separated list when `set`.
pub open spec fn add_flag(acc: Seq<char>, set: bool, name: Seq<char>) -> Seq<char> {
    if !set {
        acc
    } else if acc.len() == 0 {
        name
    } else {
        acc + "|"@ + name
    }
}

/// The names of the flags that are set, `|`-separated, in bit order:
/// DEBUG, SEPT_VE_DISABLE, MIGRATABLE, PKS, KL, PERFMON.
pub open spec fn td_flag_names(x: u64) -> Seq<char> {
    add_flag(
        add_flag(
            add_flag(
                add_flag(
                    add_flag(add_flag(Seq::empty(), x & 0x1 != 0, "DEBUG"@), x & 0x10 != 0, "SEPT_VE_DISABLE"@),
                    x & 0x800_0000 != 0,
                    "MIGRATABLE"@,
                ),
                x & 0x1000_0000 != 0,
                "PKS"@,
            ),
            x & 0x4000_0000 != 0,
            "KL"@,
        ),
        x & 0x8000_0000 != 0,
        "PERFMON"@,
    )
}

fn push_flag(s: &mut String, set: bool, name: &str)
    ensures
        final(s)@ == add_flag(old(s)@, set, name@),
{
    if set {
        if !s.as_str().is_empty() {
            s.append("|");
        }
        s.append(name);
    }
    proof {
        if set && old(s)@.len() == 0 {
            assert(final(s)@ =~= name@);
        }
    }
}

impl TdAttributes {
    /// Debug text: `TdAttributes(0x…)` with the sixteen hex digits, and the
    /// names of the flags that are set in brackets when there are any.
    pub fn debug_text(&self) -> (s: String)
        ensures
            s@ == "TdAttributes(0x"@ + zero_pad(lower_hex_spec(self.0 as nat), 16) + if td_flag_names(self.0).len()
                == 0 {
                ")"@
            } else {
                " ["@ + td_flag_names(self.0) + "])"@
            },
    {
        let mut flags = String::new();
        push_flag(&mut flags, self.is_debug(), "DEBUG");
        push_flag(&mut flags, self.is_sept_ve_disabled(), "SEPT_VE_DISABLE");
        push_flag(&mut flags, self.is_migratable(), "MIGRATABLE");
        push_flag(&mut flags, self.is_pks_enabled(), "PKS");
        push_flag(&mut flags, self.is_key_locker_enabled(), "KL");
        push_flag(&mut flags, self.is_perfmon_enabled(), "PERFMON");
        let mut s = String::from_str("TdAttributes(0x");
        let h = lower_hex_padded(self.0, 16);
        s.append(h.as_str());
        if flags.as_str().is_empty() {
            s.append(")");
        } else {
            s.append(" [");
            s.append(flags.as_str());
            s.append("])");
        }
        s
    }
}

/// Reading the bytes of a bitmap back gives the same bitmap.
pub proof fn law_td_attributes_bytes_roundtrip(x: u64)
    ensures
        le_u64(Seq::new(8, |i: int| le_byte(x, i))) == x,
{
    let b = Seq::new(8, |i: int| le_byte(x, i));
    let b0 = le_byte(x, 0);
    let b1 = le_byte(x, 1);
    let b2 = le_byte(x, 2);
    let b3 = le_byte(x, 3);
    let b4 = le_byte(x, 4);
    let b5 = le_byte(x, 5);
    let b6 = le_byte(x, 6);
    let b7 = le_byte(x, 7);
    assert(b[0] == b0 && b[1] == b1 && b[2] == b2 && b[3] == b3);
    assert(b[4] == b4 && b[5] == b5 && b[6] == b6 && b[7] == b7);
    assert(x == ((x >> 0u64) & 0xff) as u8 + (((x >> 8u64) & 0xff) as u8) * 0x100
        + (((x >> 16u64) & 0xff) as u8) * 0x1_0000 + (((x >> 24u64) & 0xff) as u8) * 0x100_0000
        + (((x >> 32u64) & 0xff) as u8) * 0x1_0000_0000 + (((x >> 40u64) & 0xff) as u8) * 0x100_0000_0000
        + (((x >> 48u64) & 0xff) as u8) * 0x1_0000_0000_0000
        + (((x >> 56u64) & 0xff) as u8) * 0x100_0000_0000_0000) by (bit_vector);
}

/// Writing the value of eight bytes back out gives the same bytes.
pub proof fn law_td_attributes_value_roundtrip(b: Seq<u8>)
    requires
        b.len() == 8,
    ensures
        le_u64(b) <= u64::MAX,
        forall|i: int| 0 <= i < 8 ==> #[trigger] le_byte(le_u64(b) as u64, i) == b[i],
{
    let b0 = b[0];
    let b1 = b[1];
    let b2 = b[2];
    let b3 = b[3];
    let b4 = b[4];
    let b5 = b[5];
    let b6 = b[6];
    let b7 = b[7];
    let x: u64 = (b0 + b1 * 0x100 + b2 * 0x1_0000 + b3 * 0x100_0000 + b4 * 0x1_0000_0000
        + b5 * 0x100_0000_0000 + b6 * 0x1_0000_0000_0000 + b7 * 0x100_0000_0000_0000) as u64;
    assert(b0 + b1 * 0x100 + b2 * 0x1_0000 + b3 * 0x100_0000 + b4 * 0x1_0000_0000
        + b5 * 0x100_0000_0000 + b6 * 0x1_0000_0000_0000 + b7 * 0x100_0000_0000_0000 <= u64::MAX) by (bit_vector);
    assert(((x >> 0u64) & 0xff) as u8 == b0 && ((x >> 8u64) & 0xff) as u8 == b1
        && ((x >> 16u64) & 0xff) as u8 == b2 && ((x >> 24u64) & 0xff) as u8 == b3
        && ((x >> 32u64) & 0xff) as u8 == b4 && ((x >> 40u64) & 0xff) as u8 == b5
        && ((x >> 48u64) & 0xff) as u8 == b6 && ((x >> 56u64) & 0xff) as u8 == b7) by (bit_vector)
        requires
            x == (b0 + b1 * 0x100 + b2 * 0x1_0000 + b3 * 0x100_0000 + b4 * 0x1_0000_0000
                + b5 * 0x100_0000_0000 + b6 * 0x1_0000_0000_0000 + b7 * 0x100_0000_0000_0000) as u64,
            b0 + b1 * 0x100 + b2 * 0x1_0000 + b3 * 0x100_0000 + b4 * 0x1_0000_0000
                + b5 * 0x100_0000_0000 + b6 * 0x1_0000_0000_0000 + b7 * 0x100_0000_0000_0000 <= u64::MAX,
    ;
    assert forall|i: int| 0 <= i < 8 implies #[trigger] le_byte(le_u64(b) as u64, i) == b[i] by {
        assert(le_u64(b) as u64 == x);
        if i == 0 {
            assert(le_byte(x, 0) == ((x >> 0u64) & 0xff) as u8);
        }
    }
}

/// Start of the quote body for a quote version.
pub open spec fn body_offset(version: int) -> int {
    if version == 5 { 54 } else { 48 }
}

/// The version field: the first two bytes, little-endian.
pub open spec fn quote_version(raw: Seq<u8>) -> int {
    raw[0] + raw[1] * 256
}

/// The `Quote too short` text for a quote of `n` bytes.
pub open spec fn too_short_text(n: nat) -> Seq<char> {
    "Quote too short: "@ + dec_spec(n) + " bytes (minimum 632)"@
}

/// A parsed TDX quote whose signature has not been checked.
#[derive(Clone, Debug)]
pub struct TdxQuote {
    /// The raw quote bytes.
    pub raw_quote: Vec<u8>,
    /// The quote version (4 or 5).
    pub version: u16,
    /// REPORTDATA (64 bytes).
    pub report_data: Bytes64,
    /// RTMR0..RTMR3.
    pub rtmrs: [Bytes48; 4],
    /// TD_ATTRIBUTES.
    pub td_attributes: TdAttributes,
}

/// `q` holds the fields that `raw` carries, for a quote that parses.
pub open spec fn quote_fields_of(q: TdxQuote, raw: Seq<u8>) -> bool {
    let off = body_offset(quote_version(raw));
    &&& q.raw_quote@ == raw
    &&& q.version == quote_version(raw)
    &&& q.td_attributes.0 == le_u64(raw.subrange(off + 120, off + 128))
    &&& forall|i: int| 0 <= i < 4 ==> (#[trigger] q.rtmrs[i])@ == raw.subrange(off + 328 + 48 * i, off + 376 + 48 * i)
    &&& q.report_data@ == raw.subrange(off + 520, off + 584)
}

/// What parsing `raw` gives: the size, version and body checks in order.
pub open spec fn parse_outcome(raw: Seq<u8>, r: Result<TdxQuote, VerificationError>) -> bool {
    if raw.len() < 632 {
        r matches Err(VerificationError::InvalidQuoteFormat(m)) && m@ == too_short_text(raw.len())
    } else if quote_version(raw) != 4 && quote_version(raw) != 5 {
        r matches Err(VerificationError::InvalidQuoteFormat(m))
            && m@ == "Unsupported TDX quote version: "@ + dec_spec(quote_version(raw) as nat)
    } else if raw.len() < body_offset(quote_version(raw)) + 584 {
        r matches Err(VerificationError::InvalidQuoteFormat(m)) && m@ == "Quote too short for body"@
    } else {
        r matches Ok(q) && quote_fields_of(q, raw)
    }
}

impl TdxQuote {
    /// Parses raw quote bytes: checks the size and the version, then reads
    /// TD_ATTRIBUTES, the RTMRs and REPORTDATA from the body. The signature
    /// is not checked.
    pub fn parse_raw(raw_quote: Vec<u8>) -> (r: Result<TdxQuote, VerificationError>)
        ensures
            parse_outcome(raw_quote@, r),
    {
        let n = raw_quote.len();
        if n < HEADER_SIZE + BODY_SIZE {
            let mut m = String::from_str("Quote too short: ");
            push_decimal(&mut m, n as u64);
            m.append(" bytes (minimum 632)");
            return Err(VerificationError::InvalidQuoteFormat(m));
        }
        let lo = raw_quote[0];
        let hi = raw_quote[1];
        let version: u16 = (lo as u16) | ((hi as u16) << 8u16);
        assert(version == lo + hi * 256) by (bit_vector)
            requires
                version == (lo as u16) | ((hi as u16) << 8u16),
        ;
        if version != 4 && version != 5 {
            let mut m = String::from_str("Unsupported TDX quote version: ");
            push_decimal(&mut m, version as u64);
            return Err(VerificationError::InvalidQuoteFormat(m));
        }
        let off: usize = if version == 4 { HEADER_SIZE } else { HEADER_SIZE + 6 };
        if n < off + BODY_SIZE {
            return Err(VerificationError::InvalidQuoteFormat(String::from_str("Quote too short for body")));
        }
        let raw = raw_quote.as_slice();
        let td_slice = &raw[off + 120..off + 128];
        let td_attributes = TdAttributes::from_bytes(crate::bytes::array8_from_slice(td_slice));
        let r0 = Bytes48::from_slice(&raw[off + 328..off + 376]);
        let r1 = Bytes48::from_slice(&raw[off + 376..off + 424]);
        let r2 = Bytes48::from_slice(&raw[off + 424..off + 472]);
        let r3 = Bytes48::from_slice(&raw[off + 472..off + 520]);
        let report_data = Bytes64::from_slice(&raw[off + REPORT_DATA_OFFSET..off + REPORT_DATA_OFFSET + 64]);
        let rtmrs = [r0, r1, r2, r3];
        let q = TdxQuote { raw_quote, version, report_data, rtmrs, td_attributes };
        assert forall|i: int| 0 <= i < 4 implies (#[trigger] q.rtmrs[i])@ == q.raw_quote@.subrange(off + 328 + 48 * i, off + 376 + 48 * i) by {
            if i == 0 { assert(q.rtmrs[i] == r0); }
            if i == 1 { assert(q.rtmrs[i] == r1); }
            if i == 2 { assert(q.rtmrs[i] == r2); }
            if i == 3 { assert(q.rtmrs[i] == r3); }
        }
        Ok(q)
    }
}

/// The bytes that the measurement hash covers: RTMR0 to RTMR3 in order.
pub open spec fn rtmr_concat(q: TdxQuote) -> Seq<u8> {
    q.rtmrs[0]@ + q.rtmrs[1]@ + q.rtmrs[2]@ + q.rtmrs[3]@
}

/// The measurement hash of a quote: hex of SHA-256 over the four RTMRs.
pub open spec fn tdx_measurement_hash(q: TdxQuote) -> Seq<char> {
    hex_encode_spec(spec_sha256(rtmr_concat(q)))
}

impl TdxQuote {
    /// The quote version (4 or 5).
    pub fn version(&self) -> (r: u16)
        ensures
            r == self.version,
    {
        self.version
    }

    /// The full REPORTDATA.
    pub fn report_data(&self) -> (r: &Bytes64)
        ensures
            *r == self.report_data,
    {
        &self.report_data
    }

    /// REPORTDATA[0:32], the challenge or address binding.
    pub fn report_data_binding(&self) -> (r: Bytes32)
        ensures
            r@ == self.report_data@.subrange(0, 32),
    {
        Bytes32::from_slice(&self.report_data.0.as_slice()[0..32])
    }

    /// The instance identity, REPORTDATA[32:64], which the client chose when
    /// it generated the quote.
    pub fn instance_id(&self) -> (r: InstanceId)
        ensures
            r@ == self.report_data@.subrange(32, 64),
    {
        InstanceId(Bytes32::from_slice(&self.report_data.0.as_slice()[32..64]))
    }

    /// RTMR0..RTMR3.
    pub fn rtmrs(&self) -> (r: &[Bytes48; 4])
        ensures
            *r == self.rtmrs,
    {
        &self.rtmrs
    }

    /// TD_ATTRIBUTES.
    pub fn td_attributes(&self) -> (r: TdAttributes)
        ensures
            r == self.td_attributes,
    {
        self.td_attributes
    }

    /// The measurement hash: lowercase hex of SHA-256(RTMR0 || RTMR1 || RTMR2 || RTMR3).
    pub fn measurement_hash(&self) -> (s: String)
        ensures
            s@ == tdx_measurement_hash(*self),
            s@.len() == 64,
    {
        let mut data: Vec<u8> = Vec::new();
        crate::bytes::append_bytes(&mut data, self.rtmrs[0].0.as_slice());
        crate::bytes::append_bytes(&mut data, self.rtmrs[1].0.as_slice());
        crate::bytes::append_bytes(&mut data, self.rtmrs[2].0.as_slice());
        crate::bytes::append_bytes(&mut data, self.rtmrs[3].0.as_slice());
        assert(data@ =~= rtmr_concat(*self));
        let digest = sha256(data.as_slice());
        hex::encode(digest.as_slice())
    }

    /// Whether the TD is debuggable (TD_ATTRIBUTES bit 0).
    pub fn is_debug(&self) -> (r: bool)
        ensures
            r == (self.td_attributes.0 & 0x1 != 0),
    {
        self.td_attributes.is_debug()
    }

    /// The raw quote bytes.
    pub fn raw_bytes(&self) -> (r: &[u8])
        ensures
            r@ == self.raw_quote@,
    {
        self.raw_quote.as_slice()
    }
}

/// What decoding the base64 text `t` and parsing the bytes gives, with the
/// decoding error worded as `Invalid <what> base64: <error>`.
pub open spec fn decode_then_parse(t: Seq<char>, r: Result<TdxQuote, VerificationError>) -> bool {
    match spec_base64_decode(encode_utf8(t)) {
        Err(e) => r matches Err(VerificationError::InvalidQuoteFormat(m))
            && m@ == "Invalid quote base64: "@ + base64_error_text(e),
        Ok(raw) => parse_outcome(raw, r),
    }
}

/// What reading the quote of TDX evidence `ev` gives.
pub open spec fn tdx_evidence_outcome(ev: JsonValue, r: Result<TdxQuote, VerificationError>) -> bool {
    match json_as_str(json_index(ev, "quote"@)) {
        None => r matches Err(VerificationError::InvalidQuoteFormat(m))
            && m@ == "Missing 'quote' field in TDX evidence"@,
        Some(t) => decode_then_parse(t, r),
    }
}

/// Decodes the outer base64 of TDX or SEV-SNP evidence into the bytes of its
/// JSON document.
pub fn decode_evidence_base64(evidence_b64: &str) -> (r: Result<Vec<u8>, VerificationError>)
    ensures
        match spec_base64_decode(encode_utf8(evidence_b64@)) {
            Err(e) => r matches Err(VerificationError::InvalidQuoteFormat(m))
                && m@ == "Invalid evidence base64: "@ + base64_error_text(e),
            Ok(b) => r matches Ok(v) && v@ == b,
        },
{
    match base64_decode(evidence_b64.as_bytes()) {
        Ok(v) => Ok(v),
        Err(e) => {
            let t = e.to_string();
            Err(VerificationError::InvalidQuoteFormat(concat_str("Invalid evidence base64: ", t.as_str())))
        },
    }
}

impl TdxQuote {
    /// Parses the quote of TDX evidence: the `quote` member holds the raw
    /// quote in base64. The signature is not checked.
    pub fn from_json(evidence: &JsonValue) -> (r: Result<TdxQuote, VerificationError>)
        ensures
            tdx_evidence_outcome(*evidence, r),
    {
        let quote_b64 = match evidence.str_at("quote") {
            Some(q) => q,
            None => {
                return Err(VerificationError::InvalidQuoteFormat(
                    String::from_str("Missing 'quote' field in TDX evidence"),
                ));
            },
        };
        match base64_decode(quote_b64.as_str().as_bytes()) {
            Ok(raw) => Self::parse_raw(raw),
            Err(e) => {
                let t = e.to_string();
                Err(VerificationError::InvalidQuoteFormat(concat_str("Invalid quote base64: ", t.as_str())))
            },
        }
    }
}

/// A TDX quote whose DCAP signature chain was verified, with the claims
/// that the verifier returned for it.
#[derive(Debug)]
pub struct VerifiedTdxQuote {
    pub quote: TdxQuote,
    pub claims: JsonValue,
    /// `claims["tcb_status"]`, when it is a string.
    pub tcb_status: Option<String>,
}

/// Index of the first component, from `i` on, where `a` is below `m`
/// (comparing as far as both reach).
pub open spec fn first_below(a: Seq<u8>, m: Seq<u8>, i: int) -> Option<int>
    decreases a.len() - i,
{
    if i < 0 || i >= a.len() || i >= m.len() {
        None
    } else if a[i] < m[i] {
        Some(i)
    } else {
        first_below(a, m, i + 1)
    }
}

proof fn lemma_first_below_from(a: Seq<u8>, m: Seq<u8>, i: int)
    requires
        0 <= i,
    ensures
        first_below(a, m, i) matches Some(k) ==> i <= k < a.len() && k < m.len() && a[k] < m[k]
            && forall|j: int| i <= j < k ==> a[j] >= m[j],
        first_below(a, m, i) is None <==> forall|j: int| i <= j < a.len() && j < m.len() ==> a[j] >= m[j],
    decreases a.len() - i,
{
    if i < a.len() && i < m.len() && a[i] >= m[i] {
        lemma_first_below_from(a, m, i + 1);
    }
}

/// The TCB comparison finds the first component, among those both the
/// reported and the minimum TCB have, where the reported value is below the
/// minimum: every earlier component is at least its minimum. It finds none
/// exactly when every such component is at least its minimum.
pub proof fn law_first_below(a: Seq<u8>, m: Seq<u8>)
    ensures
        first_below(a, m, 0) matches Some(k) ==> 0 <= k < a.len() && k < m.len() && a[k] < m[k]
            && forall|j: int| 0 <= j < k ==> a[j] >= m[j],
        first_below(a, m, 0) is None <==> forall|j: int| 0 <= j < a.len() && j < m.len() ==> a[j] >= m[j],
{
    lemma_first_below_from(a, m, 0);
}

/// The SEAM SVN check: the first byte of the TCB SVN against the minimum.
pub open spec fn seam_violation(svn_hex: Seq<char>, min_seam: Option<u8>) -> Option<Seq<char>> {
    match min_seam {
        None => None,
        Some(ms) => if svn_hex.len() == 0 {
            None
        } else {
            match hex_decode_str(svn_hex) {
                Err(_) => None,
                Ok(b) => {
                    let a: u8 = if b.len() > 0 { b[0] } else { 0u8 };
                    if a < ms {
                        Some("seam_svn"@ + " "@ + dec_spec(a as nat) + " < minimum "@ + dec_spec(ms as nat))
                    } else {
                        None
                    }
                },
            }
        },
    }
}

/// The TEE TCB SVN check: component by component against the minimum.
pub open spec fn tee_tcb_violation(svn_hex: Seq<char>, min_tee: Option<String>) -> Option<Seq<char>> {
    match min_tee {
        None => None,
        Some(mt) => if svn_hex.len() == 0 {
            None
        } else {
            match (hex_decode_str(svn_hex), hex_decode_str(mt@)) {
                (Ok(a), Ok(m)) => match first_below(a, m, 0) {
                    Some(i) => Some("tee_tcb_svn"@ + "["@ + dec_spec(i as nat) + "] "@ + dec_spec(a[i] as nat)
                        + " < minimum "@ + dec_spec(m[i] as nat)),
                    None => None,
                },
                _ => None,
            }
        },
    }
}

/// When the reported TCB SVN and the minimum both decode, the TEE TCB check
/// passes exactly when every component they both have is at least its
/// minimum; otherwise it names the first component below its minimum, with
/// the reported and the minimum value.
pub proof fn law_tee_tcb_check(svn_hex: Seq<char>, min_tee: String, a: Seq<u8>, m: Seq<u8>)
    requires
        svn_hex.len() > 0,
        hex_decode_str(svn_hex) == Ok::<Seq<u8>, FromHexError>(a),
        hex_decode_str(min_tee@) == Ok::<Seq<u8>, FromHexError>(m),
    ensures
        tee_tcb_violation(svn_hex, Some(min_tee)) is None <==> forall|j: int| 0 <= j < a.len() && j < m.len() ==> a[j] >= m[j],
        tee_tcb_violation(svn_hex, Some(min_tee)) matches Some(msg) ==> exists|k: int| {
            &&& 0 <= k < a.len() && k < m.len()
            &&& #[trigger] a[k] < m[k]
            &&& forall|j: int| 0 <= j < k ==> a[j] >= m[j]
            &&& msg == "tee_tcb_svn"@ + "["@ + dec_spec(k as nat) + "] "@ + dec_spec(a[k] as nat) + " < minimum "@ + dec_spec(m[k] as nat)
        },
{
    law_first_below(a, m);
    if let Some(k) = first_below(a, m, 0) {
        assert(a[k] < m[k]);
    }
}

/// The first TCB requirement that the claims miss, as its message.
pub open spec fn tdx_tcb_violation(claims: JsonValue, minimum: TdxMinimumTcb) -> Option<Seq<char>> {
    let t = text_at_path(claims, "quote"@, "body"@, "tcb_svn"@);
    match seam_violation(t, minimum.seam_svn) {
        Some(m) => Some(m),
        None => tee_tcb_violation(t, minimum.tee_tcb_svn),
    }
}

/// Whether `v` is in the list of allowed values, ignoring ASCII case.
pub open spec fn allowed_ignoring_case(list: Seq<String>, v: Seq<char>) -> bool {
    exists|i: int| 0 <= i < list.len() && eq_ignore_ascii_case_spec(#[trigger] list[i]@, v)
}

/// The vendor ID check.
pub open spec fn vendor_violation(claims: JsonValue, allowed: Option<Vec<String>>) -> Option<Seq<char>> {
    match allowed {
        None => None,
        Some(list) => {
            let v = text_at_path(claims, "quote"@, "header"@, "vendor_id"@);
            if v.len() > 0 && !allowed_ignoring_case(list@, v) {
                Some("vendor_id '"@ + byte_prefix(v, 16) + "' not allowed"@)
            } else {
                None
            }
        },
    }
}

/// The check of one SEAM register against its required value.
pub open spec fn register_violation(label: Seq<char>, expected: Option<String>, actual: Seq<char>) -> Option<Seq<char>> {
    match expected {
        None => None,
        Some(e) => if actual.len() > 0 && !eq_ignore_ascii_case_spec(e@, actual) {
            Some(label + " mismatch: expected '"@ + byte_prefix(e@, 16) + "...', got '"@ + byte_prefix(actual, 16) + "...'"@)
        } else {
            None
        },
    }
}

/// The first platform constraint that the claims violate, as its message.
pub open spec fn tdx_platform_violation(claims: JsonValue, c: TdxPlatformConstraints) -> Option<Seq<char>> {
    match vendor_violation(claims, c.allowed_vendor_ids) {
        Some(m) => Some(m),
        None => match register_violation("mr_seam"@, c.mr_seam, text_at_path(claims, "quote"@, "body"@, "mr_seam"@)) {
            Some(m) => Some(m),
            None => register_violation("mrsigner_seam"@, c.mrsigner_seam, text_at_path(claims, "quote"@, "body"@, "mrsigner_seam"@)),
        },
    }
}

/// Whether the expected value of a violated register check can be cut at 16 bytes.
pub open spec fn expected_cut_ok(expected: Option<String>) -> bool {
    match expected {
        Some(e) => prefix_cut_ok(e@, 16),
        None => true,
    }
}

/// The texts that the first violated platform check quotes are cut at 16
/// bytes; this holds when those cuts fall on character boundaries.
pub open spec fn tdx_platform_cuts_ok(claims: JsonValue, c: TdxPlatformConstraints) -> bool {
    let v = text_at_path(claims, "quote"@, "header"@, "vendor_id"@);
    let seam = text_at_path(claims, "quote"@, "body"@, "mr_seam"@);
    let signer = text_at_path(claims, "quote"@, "body"@, "mrsigner_seam"@);
    if vendor_violation(claims, c.allowed_vendor_ids) is Some {
        prefix_cut_ok(v, 16)
    } else if register_violation("mr_seam"@, c.mr_seam, seam) is Some {
        expected_cut_ok(c.mr_seam) && prefix_cut_ok(seam, 16)
    } else if register_violation("mrsigner_seam"@, c.mrsigner_seam, signer) is Some {
        expected_cut_ok(c.mrsigner_seam) && prefix_cut_ok(signer, 16)
    } else {
        true
    }
}

/// The bytes of the four trusted RTMRs, decoded from hex in order.
pub open spec fn trusted_rtmr_bytes(t: TdxMeasurement) -> Result<Seq<u8>, FromHexError> {
    match hex_decode_str(t.rtmr0@) {
        Err(e) => Err(e),
        Ok(a) => match hex_decode_str(t.rtmr1@) {
            Err(e) => Err(e),
            Ok(b) => match hex_decode_str(t.rtmr2@) {
                Err(e) => Err(e),
                Ok(c) => match hex_decode_str(t.rtmr3@) {
                    Err(e) => Err(e),
                    Ok(d) => Ok(a + b + c + d),
                },
            },
        },
    }
}

fn tcb_message(prefix: &str, i: u64, actual: u8, minimum: u8, bracket: bool) -> (m: String)
    ensures
        m@ == if bracket {
            prefix@ + "["@ + dec_spec(i as nat) + "] "@ + dec_spec(actual as nat) + " < minimum "@ + dec_spec(minimum as nat)
        } else {
            prefix@ + " "@ + dec_spec(actual as nat) + " < minimum "@ + dec_spec(minimum as nat)
        },
{
    let mut m = String::from_str(prefix);
    if bracket {
        m.append("[");
        push_decimal(&mut m, i);
        m.append("] ");
    } else {
        m.append(" ");
    }
    push_decimal(&mut m, actual as u64);
    m.append(" < minimum ");
    push_decimal(&mut m, minimum as u64);
    m
}

fn register_message(label: &str, expected: &str, actual: &str) -> (m: String)
    ensures
        m@ == label@ + " mismatch: expected '"@ + byte_prefix(expected@, 16) + "...', got '"@
            + byte_prefix(actual@, 16) + "...'"@,
{
    let mut m = String::from_str(label);
    m.append(" mismatch: expected '");
    let e = str_byte_prefix(expected, 16);
    m.append(e.as_str());
    m.append("...', got '");
    let a = str_byte_prefix(actual, 16);
    m.append(a.as_str());
    m.append("...'");
    m
}

fn check_register(label: &str, expected: &Option<String>, actual: Option<&String>) -> (r: Result<(), VerificationError>)
    ensures
        match register_violation(label@, *expected, match actual { Some(a) => a@, None => Seq::empty() }) {
            None => r is Ok,
            Some(m) => r matches Err(VerificationError::PlatformConstraint(t)) && t@ == m,
        },
{
    if let Some(e) = expected {
        if let Some(a) = actual {
            if !a.as_str().is_empty() && !eq_ignore_ascii_case(e.as_str(), a.as_str()) {
                return Err(VerificationError::PlatformConstraint(register_message(label, e.as_str(), a.as_str())));
            }
        }
    }
    Ok(())
}

impl VerifiedTdxQuote {
    /// Builds the verified quote from the claim sets that the DCAP verifier
    /// returned for `quote`; the first set is kept.
    pub fn from_verifier_claims(quote: TdxQuote, results: Vec<JsonValue>) -> (r: Result<Self, VerificationError>)
        ensures
            results@.len() == 0 ==> (r matches Err(VerificationError::AttestationFailed(m))
                && m@ == "No claims returned from DCAP verifier"@),
            results@.len() > 0 ==> (r matches Ok(v) && v.quote == quote && v.claims == results@[0]
                && match json_as_str(json_index(results@[0], "tcb_status"@)) {
                    Some(t) => v.tcb_status matches Some(s) && s@ == t,
                    None => v.tcb_status is None,
                }),
    {
        let mut results = results;
        if results.len() == 0 {
            return Err(VerificationError::AttestationFailed(String::from_str("No claims returned from DCAP verifier")));
        }
        let claims = results.remove(0);
        let tcb_status = match claims.str_at("tcb_status") {
            Some(t) => Some(t.clone()),
            None => None,
        };
        Ok(VerifiedTdxQuote { quote, claims, tcb_status })
    }

    /// The verified claims.
    pub fn claims(&self) -> (r: &JsonValue)
        ensures
            *r == self.claims,
    {
        &self.claims
    }

    /// The TCB status reported by the verifier.
    pub fn tcb_status(&self) -> (r: Option<&str>)
        ensures
            match self.tcb_status {
                Some(t) => r matches Some(s) && s@ == t@,
                None => r is None,
            },
    {
        match &self.tcb_status {
            Some(t) => Some(t.as_str()),
            None => None,
        }
    }

    /// Checks that REPORTDATA[0:32] is the expected challenge or binding.
    pub fn verify_report_data(&self, expected: &Bytes32) -> (r: Result<(), VerificationError>)
        ensures
            self.quote.report_data@.subrange(0, 32) == expected@ ==> r is Ok,
            self.quote.report_data@.subrange(0, 32) != expected@ ==> (r matches Err(VerificationError::NonceVerificationFailed(m))
                && m@ == "REPORTDATA[0:32] mismatch: expected "@ + "0x"@ + hex_encode_spec(expected@) + ", got "@ + "0x"@
                    + hex_encode_spec(self.quote.report_data@.subrange(0, 32))),
    {
        let actual = self.quote.report_data_binding();
        if !actual.same(expected) {
            let mut m = String::from_str("REPORTDATA[0:32] mismatch: expected ");
            let e = expected.to_string();
            m.append(e.as_str());
            m.append(", got ");
            let a = actual.to_string();
            m.append(a.as_str());
            return Err(VerificationError::NonceVerificationFailed(m));
        }
        Ok(())
    }

    /// Checks the debug policy: a debuggable TD passes only where debug is allowed.
    pub fn verify_debug(&self, debug_allowed: bool) -> (r: Result<(), VerificationError>)
        ensures
            r == if (self.quote.td_attributes.0 & 0x1 != 0) && !debug_allowed {
                Err::<(), VerificationError>(VerificationError::DebugNotAllowed)
            } else {
                Ok(())
            },
    {
        if self.quote.is_debug() && !debug_allowed {
            return Err(VerificationError::DebugNotAllowed);
        }
        Ok(())
    }

    /// Checks the TCB levels in the claims against the minimum: first the
    /// SEAM SVN, then the TEE TCB SVN components. Values that are missing
    /// or not hex are not checked.
    #[verifier::loop_isolation(false)]
    pub fn verify_tcb(&self, minimum: &TdxMinimumTcb) -> (r: Result<(), VerificationError>)
        ensures
            match tdx_tcb_violation(self.claims, *minimum) {
                None => r is Ok,
                Some(m) => r matches Err(VerificationError::TcbOutdated(t)) && t@ == m,
            },
    {
        let svn = self.claims.str_at_path("quote", "body", "tcb_svn");
        let ghost t = text_at_path(self.claims, "quote"@, "body"@, "tcb_svn"@);
        if let Some(ms) = minimum.seam_svn {
            if let Some(text) = svn {
                if !text.as_str().is_empty() {
                    if let Ok(b) = hex::decode(text.as_str()) {
                        let a: u8 = if b.len() > 0 { b[0] } else { 0 };
                        if a < ms {
                            return Err(VerificationError::TcbOutdated(tcb_message("seam_svn", 0, a, ms, false)));
                        }
                    }
                }
            }
        }
        assert(seam_violation(t, minimum.seam_svn) is None);
        if let Some(mt) = &minimum.tee_tcb_svn {
            if let Some(text) = svn {
                if !text.as_str().is_empty() {
                    let da = hex::decode(text.as_str());
                    let dm = hex::decode(mt.as_str());
                    if let (Ok(a), Ok(m)) = (da, dm) {
                        let mut i: usize = 0;
                        while i < a.len() && i < m.len()
                            invariant
                                i <= a.len(),
                                first_below(a@, m@, 0) == first_below(a@, m@, i as int),
                            decreases a.len() - i,
                        {
                            if a[i] < m[i] {
                                let msg = tcb_message("tee_tcb_svn", i as u64, a[i], m[i], true);
                                return Err(VerificationError::TcbOutdated(msg));
                            }
                            i = i + 1;
                        }
                    }
                }
            }
        }
        Ok(())
    }

    /// Checks the platform constraints against the claims, in order: vendor
    /// ID, MR_SEAM, MRSIGNER_SEAM (hex compared ignoring case). Values that
    /// are missing from the claims are not checked. The messages quote the
    /// values cut to their first 16 bytes.
    pub fn verify_platform(&self, constraints: &TdxPlatformConstraints) -> (r: Result<(), VerificationError>)
        requires
            tdx_platform_cuts_ok(self.claims, *constraints),
        ensures
            match tdx_platform_violation(self.claims, *constraints) {
                None => r is Ok,
                Some(m) => r matches Err(VerificationError::PlatformConstraint(t)) && t@ == m,
            },
    {
        if let Some(allowed) = &constraints.allowed_vendor_ids {
            if let Some(v) = self.claims.str_at_path("quote", "header", "vendor_id") {
                if !v.as_str().is_empty() {
                    let mut found = false;
                    let mut i: usize = 0;
                    while i < allowed.len()
                        invariant
                            i <= allowed@.len(),
                            found == exists|j: int| 0 <= j < i && eq_ignore_ascii_case_spec(#[trigger] allowed@[j]@, v@),
                        decreases allowed.len() - i,
                    {
                        if eq_ignore_ascii_case(allowed[i].as_str(), v.as_str()) {
                            found = true;
                        }
                        i = i + 1;
                    }
                    if !found {
                        let mut m = String::from_str("vendor_id '");
                        let p = str_byte_prefix(v.as_str(), 16);
                        m.append(p.as_str());
                        m.append("' not allowed");
                        return Err(VerificationError::PlatformConstraint(m));
                    }
                }
            }
        }
        check_register("mr_seam", &constraints.mr_seam, self.claims.str_at_path("quote", "body", "mr_seam"))?;
        check_register("mrsigner_seam", &constraints.mrsigner_seam, self.claims.str_at_path("quote", "body", "mrsigner_seam"))
    }
}

fn decode_trusted_rtmr(hex_text: &String, out: &mut Vec<u8>) -> (r: Result<(), VerificationError>)
    ensures
        match hex_decode_str(hex_text@) {
            Ok(b) => r is Ok && final(out)@ == old(out)@ + b,
            Err(e) => r matches Err(VerificationError::ParseError(m)) && m@ == "Invalid trusted RTMR hex: "@ + hex_error_text(e),
        },
{
    match hex::decode(hex_text.as_str()) {
        Ok(b) => {
            crate::bytes::append_bytes(out, b.as_slice());
            Ok(())
        },
        Err(e) => {
            let t = e.to_string();
            Err(VerificationError::ParseError(concat_str("Invalid trusted RTMR hex: ", t.as_str())))
        },
    }
}

impl VerifiedTdxQuote {
    /// Checks the quote's measurement hash against the one computed from the
    /// trusted RTMRs (hex).
    pub fn verify_measurements(&self, trusted: &TdxMeasurement) -> (r: Result<(), VerificationError>)
        ensures
            match trusted_rtmr_bytes(*trusted) {
                Err(e) => r matches Err(VerificationError::ParseError(m)) && m@ == "Invalid trusted RTMR hex: "@ + hex_error_text(e),
                Ok(bytes) => {
                    let expected = hex_encode_spec(spec_sha256(bytes));
                    if expected == tdx_measurement_hash(self.quote) {
                        r is Ok
                    } else {
                        r matches Err(VerificationError::MeasurementMismatch { expected: x, actual: y })
                            && x@ == expected && y@ == tdx_measurement_hash(self.quote)
                    }
                },
            },
    {
        let mut data: Vec<u8> = Vec::new();
        let ghost d0 = data@;
        decode_trusted_rtmr(&trusted.rtmr0, &mut data)?;
        decode_trusted_rtmr(&trusted.rtmr1, &mut data)?;
        decode_trusted_rtmr(&trusted.rtmr2, &mut data)?;
        decode_trusted_rtmr(&trusted.rtmr3, &mut data)?;
        proof {
            let a = hex_decode_str(trusted.rtmr0@)->Ok_0;
            let b = hex_decode_str(trusted.rtmr1@)->Ok_0;
            let c = hex_decode_str(trusted.rtmr2@)->Ok_0;
            let d = hex_decode_str(trusted.rtmr3@)->Ok_0;
            assert(data@ =~= a + b + c + d);
        }
        let digest = sha256(data.as_slice());
        let expected_hash = hex::encode(digest.as_slice());
        let actual_hash = self.quote.measurement_hash();
        if actual_hash != expected_hash {
            return Err(VerificationError::MeasurementMismatch { expected: expected_hash, actual: actual_hash });
        }
        Ok(())
    }

    /// The platform-independent form of the verified quote.
    pub fn into_parsed_attestation(self) -> (r: ParsedAttestation)
        ensures
            r.tee == Tee::Tdx,
            r.instance_id@ == self.quote.report_data@.subrange(32, 64),
            r.measurement_hash@ == tdx_measurement_hash(self.quote),
            r.claims == self.claims,
            r.tcb_status == self.tcb_status,
    {
        let instance_id = self.quote.instance_id();
        let measurement_hash = self.quote.measurement_hash();
        ParsedAttestation {
            tee: Tee::Tdx,
            instance_id,
            measurement_hash,
            claims: self.claims,
            tcb_status: self.tcb_status,
        }
    }
}

} // verus!
