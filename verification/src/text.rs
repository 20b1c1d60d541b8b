//! Small string helpers over the character view of strings.

use vstd::prelude::*;
use vstd::string::*;

verus! {

/// Appends one character to a string (`String::push`).
#[verifier::external_body]
pub fn push_char(s: &mut String, c: char)
    ensures
        final(s)@ == old(s)@.push(c),
{
    s.push(c);
}

/// The `Debug` text of a character.
pub uninterp spec fn spec_char_debug(c: char) -> Seq<char>;

/// `format!("{:?}", c)`: the character quoted and escaped as `char::escape_debug`
/// does. The text is named; for a printable ASCII character other than the
/// quote and the backslash it is the character between single quotes.
#[verifier::external_body]
pub fn char_debug_text(c: char) -> (r: String)
    ensures
        r@ == spec_char_debug(c),
        (0x20 <= c as u32 <= 0x7e && c != '\'' && c != '\\') ==> r@ == seq!['\'', c, '\''],
{
    format!("{:?}", c)
}

/// The characters of a string slice, in order.
pub fn chars_of(s: &str) -> (v: Vec<char>)
    ensures
        v@ == s@,
{
    let n = s.unicode_len();
    let mut v: Vec<char> = Vec::new();
    let mut i: usize = 0;
    while i < n
        invariant
            n == s@.len(),
            i <= n,
            v@ == s@.subrange(0, i as int),
        decreases n - i,
    {
        let c = s.get_char(i);
        v.push(c);
        i = i + 1;
        assert(v@ =~= s@.subrange(0, i as int));
    }
    assert(v@ =~= s@);
    v
}

/// Builds a string from a sequence of characters.
pub fn string_from_chars(cs: &Vec<char>) -> (s: String)
    ensures
        s@ == cs@,
{
    let mut s = String::new();
    let mut i: usize = 0;
    while i < cs.len()
        invariant
            i <= cs.len(),
            s@ == cs@.subrange(0, i as int),
        decreases cs.len() - i,
    {
        push_char(&mut s, cs[i]);
        i = i + 1;
        assert(s@ =~= cs@.subrange(0, i as int));
    }
    assert(s@ =~= cs@);
    s
}

/// Whether `needle` occurs in `hay` starting at position `i`.
pub open spec fn occurs_at(hay: Seq<char>, needle: Seq<char>, i: int) -> bool {
    0 <= i && i + needle.len() <= hay.len() && hay.subrange(i, i + needle.len()) == needle
}

/// Whether `needle` occurs anywhere in `hay`.
pub open spec fn contains_seq(hay: Seq<char>, needle: Seq<char>) -> bool {
    exists|i: int| occurs_at(hay, needle, i)
}

/// Whether `needle` is a contiguous part of `hay` (`str::contains`).
pub fn str_contains(hay: &str, needle: &str) -> (b: bool)
    ensures
        b == contains_seq(hay@, needle@),
{
    let h = chars_of(hay);
    let n = chars_of(needle);
    if n.len() > h.len() {
        assert forall|i: int| !occurs_at(hay@, needle@, i) by {}
        return false;
    }
    let mut i: usize = 0;
    while i <= h.len() - n.len()
        invariant
            h@ == hay@,
            n@ == needle@,
            n.len() <= h.len(),
            i <= h.len() - n.len() + 1,
            forall|k: int| 0 <= k < i ==> !occurs_at(hay@, needle@, k),
        decreases h.len() - i,
    {
        let mut j: usize = 0;
        let mut same = true;
        while j < n.len()
            invariant
                h@ == hay@,
                n@ == needle@,
                i + n.len() <= h.len(),
                j <= n.len(),
                same == (forall|t: int| 0 <= t < j ==> h@[i + t] == n@[t]),
            decreases n.len() - j,
        {
            if h[i + j] != n[j] {
                same = false;
            }
            j = j + 1;
        }
        if same {
            assert(hay@.subrange(i as int, i + needle@.len()) =~= needle@);
            assert(occurs_at(hay@, needle@, i as int));
            return true;
        }
        proof {
            let t = choose|t: int| 0 <= t < n.len() && h@[i + t] != n@[t];
            assert(hay@.subrange(i as int, i + needle@.len())[t] != needle@[t]);
        }
        i = i + 1;
    }
    assert forall|k: int| !occurs_at(hay@, needle@, k) by {
        if 0 <= k && k + needle@.len() <= hay@.len() {
            assert(k < i);
        }
    }
    false
}

/// Whether `hay` begins with `prefix`.
pub open spec fn starts_with_seq(hay: Seq<char>, prefix: Seq<char>) -> bool {
    prefix.len() <= hay.len() && hay.subrange(0, prefix.len() as int) == prefix
}

/// `str::starts_with` for a string prefix.
pub fn str_starts_with(hay: &str, prefix: &str) -> (b: bool)
    ensures
        b == starts_with_seq(hay@, prefix@),
{
    let h = chars_of(hay);
    let p = chars_of(prefix);
    if p.len() > h.len() {
        return false;
    }
    let mut j: usize = 0;
    while j < p.len()
        invariant
            h@ == hay@,
            p@ == prefix@,
            p.len() <= h.len(),
            j <= p.len(),
            forall|t: int| 0 <= t < j ==> h@[t] == p@[t],
        decreases p.len() - j,
    {
        if h[j] != p[j] {
            assert(hay@.subrange(0, prefix@.len() as int)[j as int] != prefix@[j as int]);
            return false;
        }
        j = j + 1;
    }
    assert(hay@.subrange(0, prefix@.len() as int) =~= prefix@);
    true
}

} // verus!

verus! {

/// The character of a decimal digit.
pub open spec fn digit_char(d: int) -> char {
    (48 + d) as char
}

/// Decimal text of a natural number, without leading zeros.
pub open spec fn dec_spec(n: nat) -> Seq<char>
    decreases n,
{
    if n < 10 {
        seq![digit_char(n as int)]
    } else {
        dec_spec(n / 10).push(digit_char((n % 10) as int))
    }
}

/// Appends the decimal text of `n`.
pub fn push_decimal(s: &mut String, n: u64)
    ensures
        final(s)@ == old(s)@ + dec_spec(n as nat),
    decreases n,
{
    if n >= 10 {
        push_decimal(s, n / 10);
    }
    push_char(s, ((48 + n % 10) as u8) as char);
    assert(s@ =~= old(s)@ + dec_spec(n as nat)) by {
        if n >= 10 {
            assert(old(s)@ + dec_spec(n as nat) =~= (old(s)@ + dec_spec((n / 10) as nat)).push(digit_char((n % 10) as int)));
        }
    }
}

/// Appends the decimal text of a wide number.
pub fn push_decimal_wide(s: &mut String, n: u128)
    ensures
        final(s)@ == old(s)@ + dec_spec(n as nat),
    decreases n,
{
    if n >= 10 {
        push_decimal_wide(s, n / 10);
    }
    push_char(s, ((48 + n % 10) as u8) as char);
    assert(s@ =~= old(s)@ + dec_spec(n as nat)) by {
        if n >= 10 {
            assert(old(s)@ + dec_spec(n as nat) =~= (old(s)@ + dec_spec((n / 10) as nat)).push(digit_char((n % 10) as int)));
        }
    }
}

/// Decimal text of `n` (`u64::to_string`).
pub fn u64_to_decimal(n: u64) -> (s: String)
    ensures
        s@ == dec_spec(n as nat),
{
    let mut s = String::new();
    push_decimal(&mut s, n);
    assert(s@ =~= dec_spec(n as nat));
    s
}

/// The code of a character with ASCII upper case mapped to lower case.
pub open spec fn ascii_lower_code(c: char) -> u32 {
    if 65 <= c as u32 <= 90 {
        (c as u32 + 32) as u32
    } else {
        c as u32
    }
}

/// `str::eq_ignore_ascii_case`: same length, and the same characters once
/// ASCII letters are folded to lower case.
pub open spec fn eq_ignore_ascii_case_spec(a: Seq<char>, b: Seq<char>) -> bool {
    a.len() == b.len() && forall|i: int| 0 <= i < a.len() ==> ascii_lower_code(#[trigger] a[i]) == ascii_lower_code(b[i])
}

fn lower_code(c: char) -> (r: u32)
    ensures
        r == ascii_lower_code(c),
{
    let v = c as u32;
    if 65 <= v && v <= 90 {
        v + 32
    } else {
        v
    }
}

/// Case-insensitive ASCII comparison of two strings.
pub fn eq_ignore_ascii_case(a: &str, b: &str) -> (r: bool)
    ensures
        r == eq_ignore_ascii_case_spec(a@, b@),
{
    let x = chars_of(a);
    let y = chars_of(b);
    if x.len() != y.len() {
        return false;
    }
    let mut i: usize = 0;
    while i < x.len()
        invariant
            x@ == a@,
            y@ == b@,
            x.len() == y.len(),
            i <= x.len(),
            forall|j: int| 0 <= j < i ==> ascii_lower_code(#[trigger] a@[j]) == ascii_lower_code(b@[j]),
        decreases x.len() - i,
    {
        if lower_code(x[i]) != lower_code(y[i]) {
            return false;
        }
        i = i + 1;
    }
    true
}

/// Number of bytes of a character in UTF-8.
pub open spec fn utf8_char_len(c: char) -> int {
    if (c as u32) < 0x80 {
        1
    } else if (c as u32) < 0x800 {
        2
    } else if (c as u32) < 0x10000 {
        3
    } else {
        4
    }
}

/// Number of bytes of a string in UTF-8.
pub open spec fn utf8_len(s: Seq<char>) -> int
    decreases s.len(),
{
    if s.len() == 0 {
        0
    } else {
        utf8_char_len(s[0]) + utf8_len(s.drop_first())
    }
}

/// The longest run of leading characters that fits in `n` bytes of UTF-8.
pub open spec fn byte_prefix(s: Seq<char>, n: int) -> Seq<char>
    decreases s.len(),
{
    if s.len() == 0 || utf8_char_len(s[0]) > n {
        Seq::empty()
    } else {
        seq![s[0]] + byte_prefix(s.drop_first(), n - utf8_char_len(s[0]))
    }
}

/// Whether the first `min(n, byte length)` bytes of `s` end on a character
/// boundary, so that `&s[..s.len().min(n)]` is defined.
pub open spec fn prefix_cut_ok(s: Seq<char>, n: int) -> bool {
    utf8_len(byte_prefix(s, n)) == if utf8_len(s) < n { utf8_len(s) } else { n }
}

fn char_len(c: char) -> (r: usize)
    ensures
        r == utf8_char_len(c),
{
    let v = c as u32;
    if v < 0x80 {
        1
    } else if v < 0x800 {
        2
    } else if v < 0x10000 {
        3
    } else {
        4
    }
}

proof fn lemma_byte_prefix_step(s: Seq<char>, i: int, n: int)
    requires
        0 <= i < s.len(),
    ensures
        byte_prefix(s.subrange(i, s.len() as int), n) == if utf8_char_len(s[i]) > n {
            Seq::<char>::empty()
        } else {
            seq![s[i]] + byte_prefix(s.subrange(i + 1, s.len() as int), n - utf8_char_len(s[i]))
        },
{
    assert(s.subrange(i, s.len() as int).drop_first() =~= s.subrange(i + 1, s.len() as int));
}

/// The characters of `s` that lie in its first `min(n, byte length)` bytes,
/// as `&s[..s.len().min(n)]` gives them when that cut is a character boundary.
pub fn str_byte_prefix(s: &str, n: usize) -> (r: String)
    ensures
        r@ == byte_prefix(s@, n as int),
{
    let cs = chars_of(s);
    let mut out = String::new();
    let mut i: usize = 0;
    let mut room: usize = n;
    assert(cs@.subrange(0, cs@.len() as int) =~= cs@);
    while i < cs.len()
        invariant
            cs@ == s@,
            i <= cs.len(),
            room <= n,
            out@ + byte_prefix(cs@.subrange(i as int, cs@.len() as int), room as int) == byte_prefix(s@, n as int),
        decreases cs.len() - i,
    {
        let c = cs[i];
        let l = char_len(c);
        let ghost out0 = out@;
        let ghost rest = byte_prefix(cs@.subrange(i + 1, cs@.len() as int), room - l);
        proof {
            lemma_byte_prefix_step(cs@, i as int, room as int);
        }
        if l > room {
            assert(out@ =~= out@ + Seq::<char>::empty());
            return out;
        }
        push_char(&mut out, c);
        room = room - l;
        i = i + 1;
        assert(out@ + rest =~= out0 + (seq![c] + rest));
    }
    assert(cs@.subrange(i as int, cs@.len() as int) =~= Seq::<char>::empty());
    assert(out@ =~= out@ + Seq::<char>::empty());
    out
}

/// The longest run of trailing characters that fits in `n` bytes of UTF-8.
pub open spec fn byte_suffix(s: Seq<char>, n: int) -> Seq<char>
    decreases s.len(),
{
    if s.len() == 0 || utf8_char_len(s.last()) > n {
        Seq::empty()
    } else {
        byte_suffix(s.drop_last(), n - utf8_char_len(s.last())).push(s.last())
    }
}

/// Whether the last `min(n, byte length)` bytes of `s` start on a character
/// boundary, so that `&s[s.len().saturating_sub(n)..]` is defined.
pub open spec fn suffix_cut_ok(s: Seq<char>, n: int) -> bool {
    utf8_len(byte_suffix(s, n)) == if utf8_len(s) < n { utf8_len(s) } else { n }
}

/// The number of bytes of a string in UTF-8 (`str::len`).
pub fn utf8_len_of(s: &str) -> (r: u128)
    ensures
        r == utf8_len(s@),
{
    let cs = chars_of(s);
    let n = cs.len();
    let mut i: usize = n;
    let mut acc: u128 = 0;
    assert(cs@.subrange(n as int, n as int) =~= Seq::<char>::empty());
    while i > 0
        invariant
            cs@ == s@,
            n == cs@.len(),
            i <= n,
            acc == utf8_len(cs@.subrange(i as int, n as int)),
            acc <= 4 * (n - i),
        decreases i,
    {
        let l = char_len(cs[i - 1]);
        assert(cs@.subrange(i - 1, n as int).drop_first() =~= cs@.subrange(i as int, n as int));
        acc = acc + l as u128;
        i = i - 1;
    }
    assert(cs@.subrange(0, n as int) =~= s@);
    acc
}

/// The characters of `s` that lie in its last `min(n, byte length)` bytes,
/// as `&s[s.len().saturating_sub(n)..]` gives them when that cut is a
/// character boundary.
pub fn str_byte_suffix(s: &str, n: usize) -> (r: String)
    ensures
        r@ == byte_suffix(s@, n as int),
{
    let cs = chars_of(s);
    let len = cs.len();
    let mut i: usize = len;
    let mut room: usize = n;
    assert(cs@.subrange(0, len as int) =~= cs@);
    assert(cs@.subrange(len as int, len as int) =~= Seq::<char>::empty());
    while i > 0 && char_len(cs[i - 1]) <= room
        invariant
            cs@ == s@,
            len == cs@.len(),
            i <= len,
            room <= n,
            byte_suffix(s@, n as int) == byte_suffix(cs@.subrange(0, i as int), room as int) + cs@.subrange(i as int, len as int),
        decreases i,
    {
        let l = char_len(cs[i - 1]);
        let ghost pre = cs@.subrange(0, i as int);
        assert(pre.drop_last() =~= cs@.subrange(0, i - 1));
        assert(pre.last() == cs@[i - 1]);
        assert(byte_suffix(cs@.subrange(0, i - 1), room - l).push(cs@[i - 1]) + cs@.subrange(i as int, len as int)
            =~= byte_suffix(cs@.subrange(0, i - 1), room - l) + cs@.subrange(i - 1, len as int));
        room = room - l;
        i = i - 1;
    }
    proof {
        if i > 0 {
            let pre = cs@.subrange(0, i as int);
            assert(pre.last() == cs@[i - 1]);
        }
        assert(byte_suffix(cs@.subrange(0, i as int), room as int) =~= Seq::<char>::empty());
        assert(byte_suffix(s@, n as int) =~= cs@.subrange(i as int, len as int));
    }
    let mut out: Vec<char> = Vec::new();
    let mut k: usize = i;
    while k < len
        invariant
            cs@ == s@,
            len == cs@.len(),
            i <= k <= len,
            out@ == cs@.subrange(i as int, k as int),
        decreases len - k,
    {
        out.push(cs[k]);
        k = k + 1;
        assert(out@ =~= cs@.subrange(i as int, k as int));
    }
    string_from_chars(&out)
}

/// Whether `&s[..s.len().min(n)]` is defined (see `prefix_cut_ok`).
pub fn prefix_cut_check(s: &str, n: usize) -> (r: bool)
    ensures
        r == prefix_cut_ok(s@, n as int),
{
    let p = str_byte_prefix(s, n);
    let lp = utf8_len_of(p.as_str());
    let ls = utf8_len_of(s);
    lp == if ls < n as u128 { ls } else { n as u128 }
}

/// Whether `&s[s.len().saturating_sub(n)..]` is defined (see `suffix_cut_ok`).
pub fn suffix_cut_check(s: &str, n: usize) -> (r: bool)
    ensures
        r == suffix_cut_ok(s@, n as int),
{
    let p = str_byte_suffix(s, n);
    let lp = utf8_len_of(p.as_str());
    let ls = utf8_len_of(s);
    lp == if ls < n as u128 { ls } else { n as u128 }
}

/// `char::is_whitespace`: the Unicode White_Space characters.
pub open spec fn is_ws(c: char) -> bool {
    let v = c as u32;
    (0x9 <= v <= 0xd) || v == 0x20 || v == 0x85 || v == 0xa0 || v == 0x1680 || (0x2000 <= v <= 0x200a)
        || v == 0x2028 || v == 0x2029 || v == 0x202f || v == 0x205f || v == 0x3000
}

/// Whether a character is white space (`char::is_whitespace`).
pub fn char_is_ws(c: char) -> (r: bool)
    ensures
        r == is_ws(c),
{
    let v = c as u32;
    (0x9 <= v && v <= 0xd) || v == 0x20 || v == 0x85 || v == 0xa0 || v == 0x1680 || (0x2000 <= v && v <= 0x200a)
        || v == 0x2028 || v == 0x2029 || v == 0x202f || v == 0x205f || v == 0x3000
}

/// Index of the first character at or after `i` that is not white space
/// (the length if there is none).
pub open spec fn first_non_ws(s: Seq<char>, i: int) -> int
    decreases s.len() - i,
{
    if i < 0 || i >= s.len() {
        s.len() as int
    } else if !is_ws(s[i]) {
        i
    } else {
        first_non_ws(s, i + 1)
    }
}

/// One past the last character before `j` that is not white space (0 if
/// there is none).
pub open spec fn last_non_ws_end(s: Seq<char>, j: int) -> int
    decreases j,
{
    if j <= 0 || j > s.len() {
        0
    } else if !is_ws(s[j - 1]) {
        j
    } else {
        last_non_ws_end(s, j - 1)
    }
}

/// `str::trim`: without leading and trailing white space.
pub open spec fn trim_spec(s: Seq<char>) -> Seq<char> {
    let a = first_non_ws(s, 0);
    let b = last_non_ws_end(s, s.len() as int);
    if a < b { s.subrange(a, b) } else { Seq::empty() }
}

proof fn lemma_first_non_ws_range(s: Seq<char>, i: int)
    requires
        0 <= i <= s.len(),
    ensures
        i <= first_non_ws(s, i) <= s.len(),
        forall|k: int| i <= k < first_non_ws(s, i) ==> is_ws(#[trigger] s[k]),
        first_non_ws(s, i) < s.len() ==> !is_ws(s[first_non_ws(s, i)]),
    decreases s.len() - i,
{
    if i < s.len() && is_ws(s[i]) {
        lemma_first_non_ws_range(s, i + 1);
    }
}

proof fn lemma_last_non_ws_range(s: Seq<char>, j: int)
    requires
        0 <= j <= s.len(),
    ensures
        0 <= last_non_ws_end(s, j) <= j,
        forall|k: int| last_non_ws_end(s, j) <= k < j ==> is_ws(#[trigger] s[k]),
        last_non_ws_end(s, j) > 0 ==> !is_ws(s[last_non_ws_end(s, j) - 1]),
    decreases j,
{
    if j > 0 && is_ws(s[j - 1]) {
        lemma_last_non_ws_range(s, j - 1);
    }
}

/// The characters of `s` without leading and trailing white space.
pub fn trim_chars(s: &Vec<char>) -> (r: Vec<char>)
    ensures
        r@ == trim_spec(s@),
{
    let mut a: usize = 0;
    while a < s.len() && char_is_ws(s[a])
        invariant
            a <= s@.len(),
            first_non_ws(s@, 0) == first_non_ws(s@, a as int),
        decreases s.len() - a,
    {
        a = a + 1;
    }
    let mut b: usize = s.len();
    while b > 0 && char_is_ws(s[b - 1])
        invariant
            b <= s@.len(),
            last_non_ws_end(s@, s@.len() as int) == last_non_ws_end(s@, b as int),
        decreases b,
    {
        b = b - 1;
    }
    let mut out: Vec<char> = Vec::new();
    if a < b {
        let mut i: usize = a;
        while i < b
            invariant
                a <= i <= b <= s@.len(),
                out@ == s@.subrange(a as int, i as int),
            decreases b - i,
        {
            out.push(s[i]);
            i = i + 1;
            assert(out@ =~= s@.subrange(a as int, i as int));
        }
    }
    assert(out@ =~= trim_spec(s@));
    out
}

/// Index of the first occurrence of `n` in `h` at or after `i`.
pub open spec fn find_from(h: Seq<char>, n: Seq<char>, i: int) -> Option<int>
    decreases h.len() + 1 - i,
{
    if i < 0 || i + n.len() > h.len() {
        None
    } else if occurs_at(h, n, i) {
        Some(i)
    } else {
        find_from(h, n, i + 1)
    }
}

/// Where the next occurrence of `n` at or after `i` lies.
pub proof fn lemma_find_from(h: Seq<char>, n: Seq<char>, i: int)
    requires
        0 <= i,
    ensures
        find_from(h, n, i) matches Some(k) ==> i <= k && k + n.len() <= h.len() && occurs_at(h, n, k),
        find_from(h, n, i) matches Some(k) ==> forall|t: int| i <= t < k ==> !occurs_at(h, n, t),
        find_from(h, n, i) is None ==> forall|t: int| i <= t ==> !occurs_at(h, n, t),
    decreases h.len() + 1 - i,
{
    if i + n.len() <= h.len() && !occurs_at(h, n, i) {
        lemma_find_from(h, n, i + 1);
    }
}

/// Finds the first occurrence of `n` in `h` at or after `from`.
pub fn find_chars(h: &Vec<char>, n: &Vec<char>, from: usize) -> (r: Option<usize>)
    ensures
        match find_from(h@, n@, from as int) {
            Some(k) => r == Some(k as usize),
            None => r is None,
        },
        r matches Some(x) ==> find_from(h@, n@, from as int) == Some(x as int),
{
    let mut i: usize = from;
    while i <= h.len() && n.len() <= h.len() - i
        invariant
            from <= i,
            find_from(h@, n@, from as int) == find_from(h@, n@, i as int),
        decreases h.len() + 1 - i,
    {
        let mut j: usize = 0;
        let mut same = true;
        while j < n.len()
            invariant
                i + n@.len() <= h@.len(),
                h@.len() == h.len(),
                j <= n@.len(),
                same == (forall|t: int| 0 <= t < j ==> h@[i + t] == n@[t]),
            decreases n.len() - j,
        {
            if h[i + j] != n[j] {
                same = false;
            }
            j = j + 1;
        }
        if same {
            assert(h@.subrange(i as int, i + n@.len()) =~= n@);
            return Some(i);
        }
        proof {
            let t = choose|t: int| 0 <= t < n@.len() && h@[i + t] != n@[t];
            assert(h@.subrange(i as int, i + n@.len())[t] != n@[t]);
        }
        i = i + 1;
    }
    None
}

/// The pieces of `h` between the occurrences of `sep`, from `start` on
/// (`str::split`).
pub open spec fn split_from(h: Seq<char>, sep: Seq<char>, start: int) -> Seq<Seq<char>>
    decreases h.len() - start,
    when 0 <= start <= h.len() && sep.len() > 0
{
    match find_from(h, sep, start) {
        None => seq![h.subrange(start, h.len() as int)],
        Some(k) => {
            proof {
                lemma_find_from(h, sep, start);
            }
            seq![h.subrange(start, k)] + split_from(h, sep, k + sep.len())
        },
    }
}

} // verus!
