//! Lowercase hexadecimal encoding and case-insensitive decoding of bytes.

use vstd::prelude::*;
use vstd::string::*;
use crate::text::{push_char, push_decimal, dec_spec, spec_char_debug, char_debug_text};

verus! {

/// Why a hex string could not be decoded.
#[derive(Debug, Clone, Copy, PartialEq, Eq)]
pub enum FromHexError {
    /// A byte that is not `0-9`, `a-f` or `A-F`, with its position.
    InvalidHexCharacter { c: char, index: usize },
    /// The input has an odd number of bytes.
    OddLength,
    /// The decoded bytes do not have the expected length.
    InvalidStringLength,
}

/// The display text of a hex decoding error.
pub open spec fn hex_error_text(e: FromHexError) -> Seq<char> {
    match e {
        FromHexError::InvalidHexCharacter { c, index } => "Invalid character "@ + spec_char_debug(c)
            + " at position "@ + dec_spec(index as nat),
        FromHexError::OddLength => "Odd number of digits"@,
        FromHexError::InvalidStringLength => "Invalid string length"@,
    }
}

impl FromHexError {
    /// The display text.
    pub fn to_string(&self) -> (s: String)
        ensures
            s@ == hex_error_text(*self),
    {
        match self {
            FromHexError::InvalidHexCharacter { c, index } => {
                let mut s = String::from_str("Invalid character ");
                let d = char_debug_text(*c);
                s.append(d.as_str());
                s.append(" at position ");
                push_decimal(&mut s, *index as u64);
                s
            },
            FromHexError::OddLength => String::from_str("Odd number of digits"),
            FromHexError::InvalidStringLength => String::from_str("Invalid string length"),
        }
    }
}

/// The lowercase hex digit of a value below 16.
pub open spec fn nibble_char(n: int) -> char {
    if n < 10 {
        (48 + n) as char
    } else {
        (97 + n - 10) as char
    }
}

/// Lowercase hex text of a byte sequence: two digits per byte, high nibble first.
pub open spec fn hex_encode_spec(bytes: Seq<u8>) -> Seq<char> {
    Seq::new(
        2 * bytes.len(),
        |i: int|
            if i % 2 == 0 {
                nibble_char(bytes[i / 2] as int / 16)
            } else {
                nibble_char(bytes[i / 2] as int % 16)
            },
    )
}

/// The value of one hex digit byte, if it is one.
pub open spec fn hex_val(c: u8) -> Option<u8> {
    if 48 <= c <= 57 {
        Some((c - 48) as u8)
    } else if 97 <= c <= 102 {
        Some((c - 97 + 10) as u8)
    } else if 65 <= c <= 70 {
        Some((c - 65 + 10) as u8)
    } else {
        None
    }
}

/// Position of the first byte at or after `i` that is not a hex digit (or the length).
pub open spec fn first_bad_from(data: Seq<u8>, i: int) -> int
    decreases data.len() - i,
{
    if i < 0 || i >= data.len() {
        data.len() as int
    } else if hex_val(data[i]) is None {
        i
    } else {
        first_bad_from(data, i + 1)
    }
}

/// The bytes that a valid hex text denotes.
pub open spec fn hex_bytes(data: Seq<u8>) -> Seq<u8> {
    Seq::new(
        data.len() / 2,
        |i: int| (hex_val(data[2 * i]).unwrap() * 16 + hex_val(data[2 * i + 1]).unwrap()) as u8,
    )
}

/// Decoding of hex text given as bytes: odd length first, then the first non-digit.
pub open spec fn hex_decode_spec(data: Seq<u8>) -> Result<Seq<u8>, FromHexError> {
    if data.len() % 2 != 0 {
        Err(FromHexError::OddLength)
    } else if first_bad_from(data, 0) < data.len() {
        let k = first_bad_from(data, 0);
        Err(FromHexError::InvalidHexCharacter { c: (data[k] as char), index: k as usize })
    } else {
        Ok(hex_bytes(data))
    }
}

/// Decoding of the UTF-8 bytes of a string.
pub open spec fn hex_decode_str(s: Seq<char>) -> Result<Seq<u8>, FromHexError> {
    hex_decode_spec(vstd::utf8::encode_utf8(s))
}

/// Every byte before `k` is a hex digit.
pub open spec fn all_hex_before(data: Seq<u8>, k: int) -> bool {
    forall|j: int| 0 <= j < k ==> #[trigger] hex_val(data[j]) is Some
}

/// When the bytes in `[i, k)` are all digits, the search from `i` lands where the one from `k` does.
pub proof fn lemma_first_bad_skip(data: Seq<u8>, i: int, k: int)
    requires
        0 <= i <= k <= data.len(),
        forall|j: int| i <= j < k ==> #[trigger] hex_val(data[j]) is Some,
    ensures
        first_bad_from(data, i) == first_bad_from(data, k),
    decreases k - i,
{
    if i < k {
        lemma_first_bad_skip(data, i + 1, k);
    }
}

/// The search from `i` ends on a non-digit, or at the end with every byte from `i` a digit.
pub proof fn lemma_first_bad_props(data: Seq<u8>, i: int)
    requires
        0 <= i <= data.len(),
    ensures
        i <= first_bad_from(data, i) <= data.len(),
        first_bad_from(data, i) < data.len() ==> hex_val(data[first_bad_from(data, i)]) is None,
        forall|j: int| i <= j < first_bad_from(data, i) ==> #[trigger] hex_val(data[j]) is Some,
    decreases data.len() - i,
{
    if i < data.len() && hex_val(data[i]) is Some {
        lemma_first_bad_props(data, i + 1);
    }
}

/// The digit of a nibble reads back as the nibble.
proof fn lemma_nibble_val(n: int)
    requires
        0 <= n < 16,
    ensures
        '\0' <= nibble_char(n) <= '\u{7f}',
        hex_val(nibble_char(n) as u8) == Some(n as u8),
{
}

/// Hex text decodes back to the bytes it encodes.
pub proof fn law_hex_roundtrip(b: Seq<u8>)
    ensures
        hex_decode_str(hex_encode_spec(b)) == Ok::<Seq<u8>, FromHexError>(b),
{
    let s = hex_encode_spec(b);
    assert forall|i: int| 0 <= i < s.len() implies '\0' <= #[trigger] s[i] <= '\u{7f}' by {
        if i % 2 == 0 {
            lemma_nibble_val(b[i / 2] as int / 16);
        } else {
            lemma_nibble_val(b[i / 2] as int % 16);
        }
    }
    assert(vstd::utf8::is_ascii_chars(s));
    vstd::utf8::is_ascii_chars_encode_utf8(s);
    let d = vstd::utf8::encode_utf8(s);
    assert(d.len() == 2 * b.len());
    assert forall|j: int| 0 <= j < d.len() implies #[trigger] hex_val(d[j]) is Some by {
        assert(d[j] == s[j] as u8);
        if j % 2 == 0 {
            lemma_nibble_val(b[j / 2] as int / 16);
        } else {
            lemma_nibble_val(b[j / 2] as int % 16);
        }
    }
    lemma_first_bad_props(d, 0);
    assert forall|i: int| 0 <= i < b.len() implies #[trigger] hex_bytes(d)[i] == b[i] by {
        assert(d[2 * i] == s[2 * i] as u8);
        assert(d[2 * i + 1] == s[2 * i + 1] as u8);
        assert((2 * i) / 2 == i);
        assert((2 * i + 1) / 2 == i);
        assert((2 * i) % 2 == 0);
        assert((2 * i + 1) % 2 == 1);
        lemma_nibble_val(b[i] as int / 16);
        lemma_nibble_val(b[i] as int % 16);
        assert((b[i] as int / 16) * 16 + b[i] as int % 16 == b[i]);
    }
    assert(hex_bytes(d) =~= b);
}

fn nibble(n: u8) -> (c: char)
    requires
        n < 16,
    ensures
        c == nibble_char(n as int),
{
    if n < 10 {
        (48u8 + n) as char
    } else {
        (87u8 + n) as char
    }
}

/// Lowercase hex encoding of a byte slice (`hex::encode`).
pub fn encode(bytes: &[u8]) -> (s: String)
    ensures
        s@ == hex_encode_spec(bytes@),
{
    let mut s = String::new();
    let mut i: usize = 0;
    while i < bytes.len()
        invariant
            i <= bytes.len(),
            s@ =~= hex_encode_spec(bytes@.subrange(0, i as int)),
        decreases bytes.len() - i,
    {
        let b = bytes[i];
        push_char(&mut s, nibble(b / 16));
        push_char(&mut s, nibble(b % 16));
        let ghost pre = bytes@.subrange(0, i as int);
        i = i + 1;
        let ghost post = bytes@.subrange(0, i as int);
        assert forall|j: int| 0 <= j < 2 * post.len() implies s@[j] == hex_encode_spec(post)[j] by {
            if j < 2 * pre.len() {
                assert(post[j / 2] == pre[j / 2]);
                assert(s@[j] == hex_encode_spec(pre)[j]);
            }
        }
    }
    assert(bytes@.subrange(0, bytes@.len() as int) =~= bytes@);
    s
}

fn val(c: u8) -> (r: Option<u8>)
    ensures
        r == hex_val(c),
{
    if 48 <= c && c <= 57 {
        Some(c - 48)
    } else if 97 <= c && c <= 102 {
        Some(c - 97 + 10)
    } else if 65 <= c && c <= 70 {
        Some(c - 65 + 10)
    } else {
        None
    }
}

/// Decoding of hex text given as bytes.
pub fn decode_bytes(data: &[u8]) -> (r: Result<Vec<u8>, FromHexError>)
    ensures
        match r {
            Ok(v) => hex_decode_spec(data@) == Ok::<Seq<u8>, FromHexError>(v@),
            Err(e) => hex_decode_spec(data@) == Err::<Seq<u8>, FromHexError>(e),
        },
{
    let ghost d = data@;
    if data.len() % 2 != 0 {
        return Err(FromHexError::OddLength);
    }
    let mut out: Vec<u8> = Vec::new();
    let mut i: usize = 0;
    while i < data.len() / 2
        invariant
            d == data@,
            d.len() % 2 == 0,
            i <= d.len() / 2,
            all_hex_before(d, 2 * i),
            out@ =~= hex_bytes(d).subrange(0, i as int),
        decreases data.len() / 2 - i,
    {
        let hi = val(data[2 * i]);
        if hi.is_none() {
            proof {
                lemma_first_bad_skip(d, 0, 2 * i as int);
            }
            return Err(FromHexError::InvalidHexCharacter { c: data[2 * i] as char, index: 2 * i });
        }
        let lo = val(data[2 * i + 1]);
        if lo.is_none() {
            proof {
                lemma_first_bad_skip(d, 0, 2 * i + 1);
            }
            return Err(FromHexError::InvalidHexCharacter { c: data[2 * i + 1] as char, index: 2 * i + 1 });
        }
        let h = hi.unwrap();
        let l = lo.unwrap();
        out.push(h * 16 + l);
        i = i + 1;
    }
    proof {
        lemma_first_bad_skip(d, 0, d.len() as int);
        assert(hex_bytes(d).subrange(0, (d.len() / 2) as int) =~= hex_bytes(d));
    }
    Ok(out)
}

/// Decoding of the UTF-8 bytes of a string (`hex::decode`).
pub fn decode(s: &str) -> (r: Result<Vec<u8>, FromHexError>)
    ensures
        match r {
            Ok(v) => hex_decode_str(s@) == Ok::<Seq<u8>, FromHexError>(v@),
            Err(e) => hex_decode_str(s@) == Err::<Seq<u8>, FromHexError>(e),
        },
{
    decode_bytes(s.as_bytes())
}

} // verus!

verus! {

/// Lowercase hexadecimal digits of a number, without leading zeros (`{:x}`).
pub open spec fn lower_hex_spec(n: nat) -> Seq<char>
    decreases n,
{
    if n < 16 {
        seq![nibble_char(n as int)]
    } else {
        lower_hex_spec(n / 16).push(nibble_char((n % 16) as int))
    }
}

/// Left-pads text with `'0'` up to `width` characters (`{:0width$}`).
pub open spec fn zero_pad(s: Seq<char>, width: nat) -> Seq<char> {
    if s.len() < width {
        Seq::new((width - s.len()) as nat, |i: int| '0') + s
    } else {
        s
    }
}

fn push_lower_hex(s: &mut String, n: u64)
    ensures
        final(s)@ == old(s)@ + lower_hex_spec(n as nat),
    decreases n,
{
    if n >= 16 {
        push_lower_hex(s, n / 16);
    }
    push_char(s, nibble((n % 16) as u8));
    assert(s@ =~= old(s)@ + lower_hex_spec(n as nat)) by {
        if n >= 16 {
            assert(old(s)@ + lower_hex_spec(n as nat) =~= (old(s)@ + lower_hex_spec((n / 16) as nat)).push(
                nibble_char((n % 16) as int),
            ));
        }
    }
}

/// Whether a character is a lowercase hex digit.
pub open spec fn is_lower_hex_digit(c: char) -> bool {
    ('0' <= c <= '9') || ('a' <= c <= 'f')
}

/// The hex text of `n` is made of lowercase hex digits, at least one, and
/// has at most `k` of them when `n < 16^k` (for `k` up to 8).
pub proof fn lemma_lower_hex_shape(n: nat)
    ensures
        lower_hex_spec(n).len() >= 1,
        forall|i: int| 0 <= i < lower_hex_spec(n).len() ==> is_lower_hex_digit(#[trigger] lower_hex_spec(n)[i]),
        n < 0x10 ==> lower_hex_spec(n).len() <= 1,
        n < 0x100 ==> lower_hex_spec(n).len() <= 2,
        n < 0x1000 ==> lower_hex_spec(n).len() <= 3,
        n < 0x1_0000 ==> lower_hex_spec(n).len() <= 4,
        n < 0x10_0000 ==> lower_hex_spec(n).len() <= 5,
        n < 0x100_0000 ==> lower_hex_spec(n).len() <= 6,
        n < 0x1000_0000 ==> lower_hex_spec(n).len() <= 7,
        n < 0x1_0000_0000 ==> lower_hex_spec(n).len() <= 8,
    decreases n,
{
    if n >= 16 {
        lemma_lower_hex_shape(n / 16);
        let d = nibble_char((n % 16) as int);
        assert(is_lower_hex_digit(d));
        assert forall|i: int| 0 <= i < lower_hex_spec(n).len() implies is_lower_hex_digit(#[trigger] lower_hex_spec(n)[i]) by {
            if i < lower_hex_spec(n / 16).len() {
                assert(lower_hex_spec(n)[i] == lower_hex_spec(n / 16)[i]);
            }
        }
    } else {
        assert(is_lower_hex_digit(nibble_char(n as int)));
    }
}

/// Zero-padding hex text of a value below `16^8` to eight characters gives
/// exactly eight lowercase hex digits.
pub proof fn lemma_padded_hex8(n: nat)
    requires
        n < 0x1_0000_0000,
    ensures
        zero_pad(lower_hex_spec(n), 8).len() == 8,
        forall|i: int| 0 <= i < 8 ==> is_lower_hex_digit(#[trigger] zero_pad(lower_hex_spec(n), 8)[i]),
{
    lemma_lower_hex_shape(n);
    let h = lower_hex_spec(n);
    let p = zero_pad(h, 8);
    if h.len() < 8 {
        let z = Seq::new((8 - h.len()) as nat, |i: int| '0');
        assert(p == z + h);
        assert forall|i: int| 0 <= i < 8 implies is_lower_hex_digit(#[trigger] p[i]) by {
            if i < z.len() {
                assert(p[i] == '0');
            } else {
                assert(p[i] == h[i - z.len()]);
            }
        }
    }
}

/// Lowercase hex text of `n`, zero-padded to at least `width` characters.
pub fn lower_hex_padded(n: u64, width: usize) -> (s: String)
    ensures
        s@ == zero_pad(lower_hex_spec(n as nat), width as nat),
{
    let mut digits = String::new();
    push_lower_hex(&mut digits, n);
    let len = digits.as_str().unicode_len();
    let mut s = String::new();
    if len < width {
        let mut k: usize = 0;
        while k < width - len
            invariant
                len < width,
                k <= width - len,
                s@ =~= Seq::new(k as nat, |i: int| '0'),
            decreases width - len - k,
        {
            push_char(&mut s, '0');
            k = k + 1;
        }
    }
    s.append(digits.as_str());
    assert(s@ =~= zero_pad(lower_hex_spec(n as nat), width as nat));
    s
}

} // verus!
