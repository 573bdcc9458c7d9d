//! Miscellaneous helpers: string utilities, content types, hex, wildcard
//! matching and splitting.

use vstd::prelude::*;
use vstd::string::StringSliceAdditionalSpecFns;
use crate::text::{
    chars_of, from_chars, own, push_str, push_chars, slice_chars, sub_string, trim, trim_vec,
    trim_str, split_char, split_char_exec, views, find_char, starts_with, starts_with_exec,
    ends_with, contains, rfind_char, rfind_char_exec, lemma_rfind_result, parse_unsigned, parse_u16,
    str_starts_with, str_ends_with, str_contains, str_eq, lower, upper, lower_char, to_lower_char,
    is_ascii_text, strip_leading, strip_trailing, tokens, token_bounds, Separators, sep_fn, pieces,
    bounds_ok,
};
use crate::bindings::{
    unicode_lowercase, unicode_uppercase, str_to_lowercase, str_to_uppercase, unix_seconds_now,
    unix_millis_now, utc_text, format_utc, base64_encoded, base64_decoded, b64_encode, b64_decode,
    random_below,
};

verus! {

// ---------------------------------------------------------------------------
// Time

/// Seconds since the Unix epoch, from the system clock.
pub fn current_timestamp() -> u64 {
    unix_seconds_now()
}

/// Milliseconds since the Unix epoch, from the system clock.
pub fn current_timestamp_millis() -> u128 {
    unix_millis_now()
}

/// A Unix time as `YYYY-MM-DD HH:MM:SS` in UTC.  The seconds are read as
/// a signed number, as a cast gives them.
pub fn format_timestamp(timestamp: u64) -> (r: String)
    ensures
        r@ == utc_text(timestamp as i64),
{
    format_utc(timestamp as i64)
}

/// A random number in `0..range`.
pub fn pick_from_range(range: i64) -> (r: i64)
    requires
        range > 0,
    ensures
        0 <= r < range,
{
    random_below(range)
}

// ---------------------------------------------------------------------------
// Base64

/// `data` in standard base64 with padding; decoding the text gives back
/// `data`.
pub fn base64_encode(data: &[u8]) -> (r: String)
    ensures
        r@ == base64_encoded(data@),
        base64_decoded(r@) == Some(data@),
{
    b64_encode(data)
}

/// The bytes that the standard base64 text `data` encodes, or `None` for
/// text that is no such encoding.
pub fn base64_decode(data: &str) -> (r: Option<Vec<u8>>)
    ensures
        match base64_decoded(data@) {
            Some(d) => r matches Some(v) && v@ == d,
            None => r is None,
        },
{
    b64_decode(data)
}

// ---------------------------------------------------------------------------
// Header values

pub open spec fn is_header_control(c: char) -> bool {
    c == '\r' || c == '\n' || c == '\0'
}

/// `s` without carriage returns, line feeds and NUL characters.
pub open spec fn without_controls(s: Seq<char>) -> Seq<char>
    decreases s.len(),
{
    if s.len() == 0 {
        s
    } else if is_header_control(s.last()) {
        without_controls(s.drop_last())
    } else {
        without_controls(s.drop_last()).push(s.last())
    }
}

/// Remove the characters that would break a header line.
pub fn sanitize_header_value(value: &str) -> (r: String)
    ensures
        r@ == without_controls(value@),
{
    let v = chars_of(value);
    let mut r = String::new();
    let mut i: usize = 0;
    while i < v.len()
        invariant
            i <= v.len(),
            r@ == without_controls(v@.subrange(0, i as int)),
        decreases v.len() - i,
    {
        let c = v[i];
        assert(v@.subrange(0, i + 1).drop_last() =~= v@.subrange(0, i as int));
        if !(c == '\r' || c == '\n' || c == '\0') {
            r.push(c);
        }
        i += 1;
    }
    assert(v@.subrange(0, v.len() as int) =~= v@);
    r
}

/// `s` cut to its first `max_len` bytes with `...` appended, or `s` itself
/// if it is no longer than that.
pub open spec fn truncated(s: Seq<char>, max_len: nat) -> Seq<char> {
    let b = vstd::utf8::encode_utf8(s);
    if b.len() <= max_len {
        s
    } else {
        vstd::utf8::decode_utf8(b.subrange(0, max_len as int)) + "..."@
    }
}

/// Shorten `s` to `max_len` bytes.  The cut must fall on a character
/// boundary, as slicing a `str` requires.
pub fn truncate_string(s: &str, max_len: usize) -> (r: String)
    requires
        s.spec_bytes().len() <= max_len || vstd::utf8::is_char_boundary(
            s.spec_bytes(),
            max_len as int,
        ),
    ensures
        r@ == truncated(s@, max_len as nat),
{
    if s.as_bytes().len() <= max_len {
        assert(s.spec_bytes() == vstd::utf8::encode_utf8(s@));
        own(s)
    } else {
        assert(s.spec_bytes() == vstd::utf8::encode_utf8(s@));
        let (a, _b) = s.split_at(max_len);
        proof {
            vstd::utf8::encode_utf8_decode_utf8(a@);
            assert(a.spec_bytes() == s.spec_bytes().subrange(0, max_len as int));
            assert(vstd::utf8::decode_utf8(s.spec_bytes().subrange(0, max_len as int)) == a@);
        }
        let mut r = own(a);
        push_str(&mut r, "...");
        assert(r@ == a@ + "..."@);
        r
    }
}

// ---------------------------------------------------------------------------
// Content types

/// The media type of a `Content-Type` value: its text before the first `;`,
/// trimmed and lowercased.
pub open spec fn mime_of(ct: Seq<char>) -> Seq<char> {
    unicode_lowercase(trim(split_char(ct, ';')[0]))
}

/// The charset parameter, when the second `;`-separated part is
/// `charset=...`.
pub open spec fn charset_of(ct: Seq<char>) -> Option<Seq<char>> {
    let parts = split_char(ct, ';');
    if parts.len() > 1 && starts_with(trim(parts[1]), "charset="@) {
        Some(trim(trim(parts[1]).subrange(8, trim(parts[1]).len() as int)))
    } else {
        None
    }
}

pub proof fn lemma_split_char_nonempty(s: Seq<char>, c: char)
    ensures
        split_char(s, c).len() >= 1,
    decreases s.len(),
{
    match find_char(s, c) {
        None => {},
        Some(i) => {
            if 0 <= i < s.len() {
                lemma_split_char_nonempty(s.subrange(i + 1, s.len() as int), c);
            }
        },
    }
}

/// Split a `Content-Type` value into its media type and charset.
pub fn parse_content_type(content_type: &str) -> (r: (String, Option<String>))
    ensures
        r.0@ == mime_of(content_type@),
        is_ascii_text(trim(split_char(content_type@, ';')[0])) ==> r.0@ == lower(
            trim(split_char(content_type@, ';')[0]),
        ),
        match (r.1, charset_of(content_type@)) {
            (Some(a), Some(b)) => a@ == b,
            (None, None) => true,
            _ => false,
        },
{
    let v = chars_of(content_type);
    let parts = split_char_exec(&v, ';');
    proof {
        lemma_split_char_nonempty(v@, ';');
        assert(parts@[0]@ == views(parts@)[0]);
    }
    let first = trim_vec(&parts[0]);
    let first_s = from_chars(&first);
    let mime = str_to_lowercase(first_s.as_str());
    let mut charset: Option<String> = None;
    if parts.len() > 1 {
        assert(parts@[1]@ == views(parts@)[1]);
        let second = trim_vec(&parts[1]);
        let key = chars_of("charset=");
        if starts_with_exec(&second, &key) {
            proof {
                reveal_strlit("charset=");
            }
            let rest = slice_chars(&second, 8, second.len());
            let value = trim_vec(&rest);
            charset = Some(from_chars(&value));
        }
    }
    (mime, charset)
}

pub open spec fn is_text_mime(m: Seq<char>) -> bool {
    ||| starts_with(m, "text/"@)
    ||| m == "application/json"@
    ||| m == "application/javascript"@
    ||| m == "application/xml"@
    ||| m == "application/xhtml+xml"@
}

/// Whether the content type names a textual media type.
pub fn is_text_content_type(content_type: &str) -> (r: bool)
    ensures
        r == is_text_mime(mime_of(content_type@)),
{
    let (m, _) = parse_content_type(content_type);
    let mv = chars_of(m.as_str());
    str_starts_with(m.as_str(), "text/") || str_eq(m.as_str(), "application/json") || str_eq(
        m.as_str(),
        "application/javascript",
    ) || str_eq(m.as_str(), "application/xml") || str_eq(m.as_str(), "application/xhtml+xml")
}

/// Whether the content type is HTML.
pub fn is_html_content_type(content_type: &str) -> (r: bool)
    ensures
        r == (mime_of(content_type@) == "text/html"@ || mime_of(content_type@)
            == "application/xhtml+xml"@),
{
    let (m, _) = parse_content_type(content_type);
    str_eq(m.as_str(), "text/html") || str_eq(m.as_str(), "application/xhtml+xml")
}

/// Whether the content type is an image.
pub fn is_image_content_type(content_type: &str) -> (r: bool)
    ensures
        r == starts_with(mime_of(content_type@), "image/"@),
{
    let (m, _) = parse_content_type(content_type);
    str_starts_with(m.as_str(), "image/")
}

// ---------------------------------------------------------------------------
// Hexadecimal

pub open spec fn hex_digit_lower(d: int) -> char {
    if d < 10 {
        (('0' as int) + d) as char
    } else {
        (('a' as int) + d - 10) as char
    }
}

/// Two lowercase hex digits per byte.
pub open spec fn hex_lower(b: Seq<u8>) -> Seq<char>
    decreases b.len(),
{
    if b.len() == 0 {
        seq![]
    } else {
        hex_lower(b.drop_last()) + seq![
            hex_digit_lower(b.last() as int / 16),
            hex_digit_lower(b.last() as int % 16),
        ]
    }
}

fn hex_char(d: u8) -> (c: char)
    requires
        d < 16,
    ensures
        c == hex_digit_lower(d as int),
{
    if d < 10 {
        (48u8 + d) as char
    } else {
        (97u8 + d - 10) as char
    }
}

/// Render bytes as lowercase hexadecimal.
pub fn bytes_to_hex(bytes: &[u8]) -> (r: String)
    ensures
        r@ == hex_lower(bytes@),
{
    let mut r = String::new();
    let mut i: usize = 0;
    while i < bytes.len()
        invariant
            i <= bytes.len(),
            r@ == hex_lower(bytes@.subrange(0, i as int)),
        decreases bytes.len() - i,
    {
        let b = bytes[i];
        assert(bytes@.subrange(0, i + 1).drop_last() =~= bytes@.subrange(0, i as int));
        r.push(hex_char(b / 16));
        r.push(hex_char(b % 16));
        i += 1;
    }
    assert(bytes@.subrange(0, bytes.len() as int) =~= bytes@);
    r
}

pub open spec fn is_hex_byte(b: u8) -> bool {
    (48 <= b <= 57) || (65 <= b <= 70) || (97 <= b <= 102)
}

pub open spec fn hex_byte_val(b: u8) -> int {
    if 48 <= b <= 57 {
        b - 48
    } else if 65 <= b <= 70 {
        b - 55
    } else {
        b - 87
    }
}

/// `u8::from_str_radix(pair, 16)` on a two-byte text: an optional `+`
/// then hex digits.
pub open spec fn hex_pair(b0: u8, b1: u8) -> Option<u8> {
    if b0 == 43 && is_hex_byte(b1) {
        Some(hex_byte_val(b1) as u8)
    } else if is_hex_byte(b0) && is_hex_byte(b1) {
        Some((hex_byte_val(b0) * 16 + hex_byte_val(b1)) as u8)
    } else {
        None
    }
}

/// The bytes written by a hex text of even length, two characters each.
pub open spec fn hex_decode(b: Seq<u8>) -> Option<Seq<u8>>
    decreases b.len(),
{
    if b.len() % 2 != 0 {
        None
    } else if b.len() == 0 {
        Some(seq![])
    } else {
        match (hex_decode(b.subrange(0, b.len() - 2)), hex_pair(b[b.len() - 2], b[b.len() - 1])) {
            (Some(s), Some(x)) => Some(s.push(x)),
            _ => None,
        }
    }
}

fn hex_val(b: u8) -> (r: u8)
    requires
        is_hex_byte(b),
    ensures
        r == hex_byte_val(b),
        r < 16,
{
    if 48 <= b && b <= 57 {
        b - 48
    } else if 65 <= b && b <= 70 {
        b - 55
    } else {
        b - 87
    }
}

fn is_hex(b: u8) -> (r: bool)
    ensures
        r == is_hex_byte(b),
{
    (48 <= b && b <= 57) || (65 <= b && b <= 70) || (97 <= b && b <= 102)
}

/// Whether each two-byte piece that decoding a hex text of even length
/// reaches (every piece before it decoded) starts and ends on a character
/// boundary, as slicing a `str` requires.
pub open spec fn hex_cuts_on_boundaries(b: Seq<u8>) -> bool {
    b.len() % 2 == 0 ==> forall|i: int|
        0 <= i < b.len() && i % 2 == 0 && #[trigger] hex_decode(b.subrange(0, i)) is Some
            ==> vstd::utf8::is_char_boundary(b, i) && vstd::utf8::is_char_boundary(b, i + 2)
}

/// Decode a hex text two characters at a time; a text of odd length, or
/// one with a piece that is no hex number, gives nothing.
pub fn hex_to_bytes(hex: &str) -> (r: Option<Vec<u8>>)
    requires
        hex_cuts_on_boundaries(hex.spec_bytes()),
    ensures
        match (r, hex_decode(hex.spec_bytes())) {
            (Some(v), Some(w)) => v@ == w,
            (None, None) => true,
            _ => false,
        },
{
    let b = hex.as_bytes();
    let n = b.len();
    if n % 2 != 0 {
        return None;
    }
    let mut out: Vec<u8> = Vec::new();
    let mut i: usize = 0;
    while i < n
        invariant
            n == b@.len(),
            b@ == hex.spec_bytes(),
            n % 2 == 0,
            i <= n,
            i % 2 == 0,
            hex_decode(b@.subrange(0, i as int)) == Some(out@),
        decreases n - i,
    {
        let b0 = b[i];
        let b1 = b[i + 1];
        let ghost pre = b@.subrange(0, i + 2);
        assert(pre.subrange(0, pre.len() - 2) =~= b@.subrange(0, i as int));
        assert(pre[pre.len() - 2] == b0 && pre[pre.len() - 1] == b1);
        if b0 == 43 && is_hex(b1) {
            out.push(hex_val(b1));
        } else if is_hex(b0) && is_hex(b1) {
            let x = hex_val(b0) * 16 + hex_val(b1);
            out.push(x);
        } else {
            proof {
                lemma_hex_decode_prefix_none(b@, i as int + 2);
            }
            return None;
        }
        i += 2;
    }
    assert(b@.subrange(0, n as int) =~= b@);
    Some(out)
}

/// If an even prefix does not decode, the whole text does not.
proof fn lemma_hex_decode_prefix_none(b: Seq<u8>, k: int)
    requires
        0 <= k <= b.len(),
        k % 2 == 0,
        b.len() % 2 == 0,
        hex_decode(b.subrange(0, k)) is None,
    ensures
        hex_decode(b) is None,
    decreases b.len() - k,
{
    if k < b.len() {
        let c = b.subrange(0, k + 2);
        assert(c.subrange(0, k) =~= b.subrange(0, k));
        lemma_hex_decode_prefix_none(b, k + 2);
    } else {
        assert(b.subrange(0, k) =~= b);
    }
}

// ---------------------------------------------------------------------------
// Wildcards

/// Shell-style matching: `*` stands for any run of characters, `?` for
/// any one character, every other character for itself.
pub open spec fn glob(p: Seq<char>, t: Seq<char>) -> bool
    decreases p.len() + t.len(),
{
    if p.len() == 0 {
        t.len() == 0
    } else if p[0] == '*' {
        glob(p.drop_first(), t) || (t.len() > 0 && glob(p, t.drop_first()))
    } else if t.len() == 0 {
        false
    } else {
        (p[0] == '?' || p[0] == t[0]) && glob(p.drop_first(), t.drop_first())
    }
}

/// Whether `t` matches the wildcard pattern `p`.
pub fn glob_exec(p: &[char], t: &[char]) -> (r: bool)
    ensures
        r == glob(p@, t@),
{
    let m = p.len();
    let n = t.len();
    // next[x] tells whether the suffix of `t` of length `x` matches the
    // current suffix of `p`; we start from the empty pattern suffix.
    let mut next: Vec<bool> = Vec::new();
    next.push(true);
    let mut x: usize = 0;
    while x < n
        invariant
            x <= n,
            n == t@.len(),
            m == p@.len(),
            next@.len() == x + 1,
            forall|k: int| 0 <= k <= x ==> #[trigger] next@[k] == glob(p@.subrange(m as int, m as int), t@.subrange(n - k, n as int)),
        decreases n - x,
    {
        next.push(false);
        x += 1;
    }
    let mut i: usize = m;
    while i > 0
        invariant
            i <= m,
            n == t@.len(),
            m == p@.len(),
            next@.len() == n + 1,
            forall|k: int| 0 <= k <= n ==> #[trigger] next@[k] == glob(p@.subrange(i as int, m as int), t@.subrange(n - k, n as int)),
        decreases i,
    {
        i -= 1;
        let pc = p[i];
        let ghost ps = p@.subrange(i as int, m as int);
        assert(ps.drop_first() =~= p@.subrange(i + 1, m as int));
        assert(ps[0] == pc);
        let mut cur: Vec<bool> = Vec::new();
        assert(t@.subrange(n as int, n as int).len() == 0);
        let first = if pc == '*' { next[0] } else { false };
        assert(first == glob(ps, t@.subrange(n - 0, n as int)));
        cur.push(first);
        let mut x: usize = 0;
        while x < n
            invariant
                x <= n,
                n == t@.len(),
                m == p@.len(),
                i < m,
                pc == p@[i as int],
                ps == p@.subrange(i as int, m as int),
                ps.drop_first() == p@.subrange(i + 1, m as int),
                ps[0] == pc,
                next@.len() == n + 1,
                forall|k: int| 0 <= k <= n ==> #[trigger] next@[k] == glob(p@.subrange(i + 1, m as int), t@.subrange(n - k, n as int)),
                cur@.len() == x + 1,
                forall|k: int| 0 <= k <= x ==> #[trigger] cur@[k] == glob(ps, t@.subrange(n - k, n as int)),
            decreases n - x,
        {
            let q = n - (x + 1);
            let ghost ts = t@.subrange(q as int, n as int);
            assert(ts.drop_first() =~= t@.subrange(n - x, n as int));
            assert(ts[0] == t@[q as int]);
            let val = if pc == '*' {
                next[x + 1] || cur[x]
            } else {
                (pc == '?' || pc == t[q]) && next[x]
            };
            assert(val == glob(ps, ts));
            cur.push(val);
            x += 1;
        }
        next = cur;
    }
    assert(p@.subrange(0, m as int) =~= p@);
    assert(t@.subrange(n - n, n as int) =~= t@);
    next[n]
}

/// Whether `text` matches `pattern`, where `*` matches any run and `?`
/// any single character.
pub fn wildcard_match(pattern: &str, text: &str) -> (r: bool)
    ensures
        r == glob(pattern@, text@),
{
    let p = chars_of(pattern);
    let t = chars_of(text);
    glob_exec(&p, &t)
}

// ---------------------------------------------------------------------------
// Host and port, paths

/// `host:port` split at the last colon; the port must be a `u16`.  Without a
/// colon the port is 80.
pub open spec fn host_port_of(addr: Seq<char>) -> Option<(Seq<char>, u16)> {
    match rfind_char(addr, ':') {
        Some(i) => match parse_unsigned(addr.subrange(i + 1, addr.len() as int), 0xffff) {
            Some(p) => Some((addr.subrange(0, i), p as u16)),
            None => None,
        },
        None => Some((addr, 80u16)),
    }
}

pub fn parse_host_port(addr: &str) -> (r: Option<(String, u16)>)
    ensures
        match (r, host_port_of(addr@)) {
            (Some((h, p)), Some((h2, p2))) => h@ == h2 && p == p2,
            (None, None) => true,
            _ => false,
        },
{
    let v = chars_of(addr);
    match rfind_char_exec(&v, ':') {
        Some(i) => {
            proof {
                lemma_rfind_result(v@, ':', v@.len() as int);
            }
            let port_chars = slice_chars(&v, i + 1, v.len());
            match parse_u16(&port_chars) {
                Some(p) => Some((sub_string(&v, 0, i), p)),
                None => None,
            }
        },
        None => Some((own(addr), 80)),
    }
}

pub open spec fn joined_path(base: Seq<char>, path: Seq<char>) -> Seq<char> {
    if ends_with(base, "/"@) {
        base + path
    } else {
        base + "/"@ + path
    }
}

/// Join a directory and a path with a single `/`.
pub fn join_path(base: &str, path: &str) -> (r: String)
    ensures
        r@ == joined_path(base@, path@),
{
    let mut r = own(base);
    if !str_ends_with(base, "/") {
        push_str(&mut r, "/");
    }
    push_str(&mut r, path);
    r
}

/// The text after the last `.`, if any.
pub fn get_file_extension(path: &str) -> (r: Option<&str>)
    ensures
        match (r, rfind_char(path@, '.')) {
            (Some(e), Some(i)) => e@ == path@.subrange(i + 1, path@.len() as int),
            (None, None) => true,
            _ => false,
        },
{
    let v = chars_of(path);
    match rfind_char_exec(&v, '.') {
        Some(i) => {
            proof {
                lemma_rfind_result(v@, '.', v@.len() as int);
                assert(rfind_char(v@, '.') == Some(i as int));
            }
            assert(i < v.len());
            Some(path.substring_char(i + 1, v.len()))
        },
        None => None,
    }
}

pub open spec fn safe_path(p: Seq<char>) -> bool {
    !contains(p, ".."@) && !starts_with(p, "/"@) && !starts_with(p, "\\"@)
}

/// A relative path that does not climb out of its directory.
pub fn is_safe_path(path: &str) -> (r: bool)
    ensures
        r == safe_path(path@),
{
    !str_contains(path, "..") && !str_starts_with(path, "/") && !str_starts_with(path, "\\")
}

// ---------------------------------------------------------------------------
// Hashing and comparisons

/// `h = 5 * h + byte` over the bytes, modulo 2^32.
pub open spec fn hash_of(b: Seq<u8>) -> u32
    decreases b.len(),
{
    if b.len() == 0 {
        0
    } else {
        ((5 * (hash_of(b.drop_last()) as int) + b.last() as int) % 0x1_0000_0000) as u32
    }
}

/// Hash a string to a number.
pub fn hash_string(s: &str) -> (h: u32)
    ensures
        h == hash_of(s.spec_bytes()),
{
    let b = s.as_bytes();
    let mut h: u32 = 0;
    let mut i: usize = 0;
    while i < b.len()
        invariant
            i <= b.len(),
            b@ == s.spec_bytes(),
            h == hash_of(b@.subrange(0, i as int)),
        decreases b.len() - i,
    {
        assert(b@.subrange(0, i + 1).drop_last() =~= b@.subrange(0, i as int));
        h = (((h as u64) * 5 + (b[i] as u64)) % 0x1_0000_0000u64) as u32;
        i += 1;
    }
    assert(b@.subrange(0, b.len() as int) =~= b@);
    h
}

/// Case-insensitive comparison of at most `n` characters: 0 if equal, the
/// difference of the first differing (ASCII-lowered) characters, or -1 / 1
/// when one text ends first.
pub open spec fn compare_ic(a: Seq<char>, b: Seq<char>, n: int) -> int
    decreases n,
{
    if n <= 0 {
        0
    } else if a.len() == 0 && b.len() == 0 {
        0
    } else if a.len() == 0 {
        -1
    } else if b.len() == 0 {
        1
    } else if lower_char(a[0]) != lower_char(b[0]) {
        lower_char(a[0]) as int - lower_char(b[0]) as int
    } else {
        compare_ic(a.drop_first(), b.drop_first(), n - 1)
    }
}

/// Comparison over the whole of both texts.
pub open spec fn compare_all_ic(a: Seq<char>, b: Seq<char>) -> int {
    compare_ic(a, b, a.len() + 1 as int)
}

/// Comparison over at most `n` characters.
pub open spec fn compare_ic_n(a: Seq<char>, b: Seq<char>, n: usize) -> int {
    compare_ic(a, b, n as int)
}

fn compare_ic_exec(a: &[char], b: &[char], n: usize, bounded: bool) -> (r: i32)
    ensures
        bounded ==> r == compare_ic(a@, b@, n as int),
        !bounded ==> r == compare_all_ic(a@, b@),
{
    assert(a@.subrange(0, a.len() as int) =~= a@);
    assert(b@.subrange(0, b.len() as int) =~= b@);
    let ghost lim: int = if bounded { n as int } else { a@.len() + 1 as int };
    let mut i: usize = 0;
    while !bounded || i < n
        invariant
            bounded ==> i <= n,
            !bounded ==> i <= a.len(),
            lim == (if bounded { n as int } else { a@.len() + 1 as int }),
            i <= a.len() && i <= b.len(),
            compare_ic(a@, b@, lim) == compare_ic(a@.subrange(i as int, a.len() as int), b@.subrange(i as int, b.len() as int), lim - i),
        decreases (if bounded { n as int } else { a@.len() as int }) - i,
    {
        let ghost ra = a@.subrange(i as int, a.len() as int);
        let ghost rb = b@.subrange(i as int, b.len() as int);
        if i == a.len() && i == b.len() {
            return 0;
        }
        if i == a.len() {
            return -1;
        }
        if i == b.len() {
            return 1;
        }
        let x = to_lower_char(a[i]);
        let y = to_lower_char(b[i]);
        assert(ra[0] == a@[i as int] && rb[0] == b@[i as int]);
        if x != y {
            return (x as u32 as i32) - (y as u32 as i32);
        }
        assert(ra.drop_first() =~= a@.subrange(i + 1, a.len() as int));
        assert(rb.drop_first() =~= b@.subrange(i + 1, b.len() as int));
        i += 1;
    }
    0
}

/// Case-insensitive comparison.
pub fn strcmpic(s1: &str, s2: &str) -> (r: i32)
    ensures
        r == compare_all_ic(s1@, s2@),
{
    let a = chars_of(s1);
    let b = chars_of(s2);
    compare_ic_exec(&a, &b, 0, false)
}

/// Case-insensitive comparison of at most `n` characters.
pub fn strncmpic(s1: &str, s2: &str, n: usize) -> (r: i32)
    ensures
        r == compare_ic_n(s1@, s2@, n),
{
    let a = chars_of(s1);
    let b = chars_of(s2);
    compare_ic_exec(&a, &b, n, true)
}

/// Remove leading and trailing white space.
pub fn chomp(s: &str) -> (r: String)
    ensures
        r@ == trim(s@),
{
    trim_str(s)
}

/// Uppercase (Unicode).
pub fn string_toupper(s: &str) -> (r: String)
    ensures
        r@ == unicode_uppercase(s@),
        is_ascii_text(s@) ==> r@ == upper(s@),
{
    str_to_uppercase(s)
}

/// Lowercase (Unicode).
pub fn string_tolower(s: &str) -> (r: String)
    ensures
        r@ == unicode_lowercase(s@),
        is_ascii_text(s@) ==> r@ == lower(s@),
{
    str_to_lowercase(s)
}

/// The first `len` characters of `s`.
pub fn bindup(s: &str, len: usize) -> (r: String)
    ensures
        r@ == s@.subrange(0, if len < s@.len() { len as int } else { s@.len() as int }),
{
    let v = chars_of(s);
    let n = if len < v.len() { len } else { v.len() };
    sub_string(&v, 0, n)
}

/// `dir` and `file` joined with `sep`, the separators at the seam dropped.
pub open spec fn path_of(dir: Seq<char>, file: Seq<char>, sep: char) -> Seq<char> {
    strip_trailing(strip_trailing(dir, '/'), '\\') + seq![sep] + strip_leading(strip_leading(file, '/'), '\\')
}

pub fn strip_trailing_exec(v: &[char], c: char) -> (r: Vec<char>)
    ensures
        r@ == strip_trailing(v@, c),
{
    let mut n = v.len();
    assert(v@.subrange(0, n as int) =~= v@);
    while n > 0 && v[n - 1] == c
        invariant
            n <= v.len(),
            strip_trailing(v@, c) == strip_trailing(v@.subrange(0, n as int), c),
        decreases n,
    {
        assert(v@.subrange(0, n as int).drop_last() =~= v@.subrange(0, n - 1));
        n -= 1;
    }
    slice_chars(v, 0, n)
}

pub fn strip_leading_exec(v: &[char], c: char) -> (r: Vec<char>)
    ensures
        r@ == strip_leading(v@, c),
{
    let mut a: usize = 0;
    assert(v@.subrange(0, v.len() as int) =~= v@);
    while a < v.len() && v[a] == c
        invariant
            a <= v.len(),
            strip_leading(v@, c) == strip_leading(v@.subrange(a as int, v.len() as int), c),
        decreases v.len() - a,
    {
        assert(v@.subrange(a as int, v.len() as int).drop_first() =~= v@.subrange(a + 1, v.len() as int));
        a += 1;
    }
    slice_chars(v, a, v.len())
}

/// Joins a directory and a file name with `sep`, dropping the separators
/// at the seam.
pub fn make_path_with(dir: &str, file: &str, sep: char) -> (r: String)
    ensures
        r@ == path_of(dir@, file@, sep),
{
    let d = chars_of(dir);
    let f = chars_of(file);
    let d1 = strip_trailing_exec(&d, '/');
    let d2 = strip_trailing_exec(&d1, '\\');
    let f1 = strip_leading_exec(&f, '/');
    let f2 = strip_leading_exec(&f1, '\\');
    let mut r = from_chars(&d2);
    r.push(sep);
    push_chars(&mut r, &f2);
    r
}

/// Joins a directory and a file name with the platform's separator (`/`,
/// or `\` on Windows), dropping the separators at the seam.
pub fn make_path(dir: &str, file: &str) -> (r: String)
    ensures
        r@ == path_of(dir@, file@, '/') || r@ == path_of(dir@, file@, '\\'),
{
    make_path_with(dir, file, crate::bindings::main_separator())
}

// ---------------------------------------------------------------------------
// Splitting

pub open spec fn default_delims() -> Seq<char> {
    seq![' ', '\t']
}

pub open spec fn delim_sep(d: Seq<char>) -> spec_fn(char) -> bool {
    |c: char| d.contains(c)
}

pub open spec fn str_views(v: Seq<&str>) -> Seq<Seq<char>> {
    v.map_values(|x: &str| x@)
}

fn delims_of(delim: Option<&str>) -> (r: Vec<char>)
    ensures
        r@ == match delim {
            Some(d) => d@,
            None => default_delims(),
        },
{
    match delim {
        Some(d) => chars_of(d),
        None => {
            let v = vec![' ', '\t'];
            assert(v@ =~= default_delims());
            v
        },
    }
}

/// The non-empty pieces of `s` between delimiter characters (space and tab
/// when none are given).
pub fn ssplit<'a>(s: &'a str, delim: Option<&str>) -> (r: Vec<&'a str>)
    ensures
        str_views(r@) == tokens(
            s@,
            delim_sep(
                match delim {
                    Some(d) => d@,
                    None => default_delims(),
                },
            ),
        ),
{
    split_pieces(s, delim, None)
}

/// Like `ssplit`, keeping at most `max_results` pieces.
pub fn ssplit_n<'a>(s: &'a str, delim: Option<&str>, max_results: usize) -> (r: Vec<&'a str>)
    ensures
        ({
            let all = tokens(
                s@,
                delim_sep(
                    match delim {
                        Some(d) => d@,
                        None => default_delims(),
                    },
                ),
            );
            str_views(r@) == all.subrange(
                0,
                if max_results < all.len() {
                    max_results as int
                } else {
                    all.len() as int
                },
            )
        }),
{
    split_pieces(s, delim, Some(max_results))
}

fn split_pieces<'a>(s: &'a str, delim: Option<&str>, max_results: Option<usize>) -> (r: Vec<&'a str>)
    ensures
        ({
            let all = tokens(
                s@,
                delim_sep(
                    match delim {
                        Some(d) => d@,
                        None => default_delims(),
                    },
                ),
            );
            str_views(r@) == all.subrange(
                0,
                match max_results {
                    Some(m) => if m < all.len() {
                        m as int
                    } else {
                        all.len() as int
                    },
                    None => all.len() as int,
                },
            )
        }),
{
    let v = chars_of(s);
    let d = delims_of(delim);
    let seps = Separators::Chars(d);
    let b = token_bounds(&v, &seps);
    assert(sep_fn(seps) =~= delim_sep(d@));
    let lim = match max_results {
        Some(m) => if m < b.len() {
            m
        } else {
            b.len()
        },
        None => b.len(),
    };
    let mut r: Vec<&'a str> = Vec::new();
    let mut k: usize = 0;
    while k < lim
        invariant
            k <= lim <= b.len(),
            v@ == s@,
            bounds_ok(v@, b@),
            str_views(r@) == pieces(v@, b@).subrange(0, k as int),
        decreases lim - k,
    {
        let (x, y) = b[k];
        assert(b@[k as int].0 <= b@[k as int].1 <= v.len());
        let w = s.substring_char(x, y);
        let ghost before = r@;
        r.push(w);
        assert(str_views(r@) =~= str_views(before).push(w@));
        assert(pieces(v@, b@)[k as int] == v@.subrange(x as int, y as int));
        assert(pieces(v@, b@).subrange(0, k + 1) =~= pieces(v@, b@).subrange(0, k as int).push(
            pieces(v@, b@)[k as int],
        ));
        k += 1;
    }
    r
}


// ---------------------------------------------------------------------------
// Hex encoding and decoding undo each other

/// The bytes of `hex_lower(b)`: two lowercase hex digits per byte.
pub open spec fn hex_lower_bytes(b: Seq<u8>) -> Seq<u8>
    decreases b.len(),
{
    if b.len() == 0 {
        seq![]
    } else {
        hex_lower_bytes(b.drop_last()) + seq![
            hex_digit_lower(b.last() as int / 16) as u32 as u8,
            hex_digit_lower(b.last() as int % 16) as u32 as u8,
        ]
    }
}

/// `x` with an ASCII capital letter turned into the small one.
pub open spec fn ascii_lower_byte(x: u8) -> u8 {
    if 65 <= x <= 90 {
        (x + 32) as u8
    } else {
        x
    }
}

proof fn lemma_hex_digit_lower(d: int)
    requires
        0 <= d < 16,
    ensures
        (hex_digit_lower(d) as u32) < 128,
        is_hex_byte(hex_digit_lower(d) as u32 as u8),
        hex_byte_val(hex_digit_lower(d) as u32 as u8) == d,
        hex_digit_lower(d) as u32 as u8 != 43,
{
}

proof fn lemma_hex_digit_of_val(x: u8)
    requires
        is_hex_byte(x),
    ensures
        hex_digit_lower(hex_byte_val(x)) as u32 as u8 == ascii_lower_byte(x),
{
}

proof fn lemma_hex_lower_ascii(b: Seq<u8>)
    ensures
        crate::encode::all_ascii(hex_lower(b)),
        crate::encode::ascii_bytes(hex_lower(b)) == hex_lower_bytes(b),
    decreases b.len(),
{
    if b.len() > 0 {
        lemma_hex_lower_ascii(b.drop_last());
        lemma_hex_digit_lower(b.last() as int / 16);
        lemma_hex_digit_lower(b.last() as int % 16);
        let p = hex_lower(b.drop_last());
        let t = seq![hex_digit_lower(b.last() as int / 16), hex_digit_lower(b.last() as int % 16)];
        assert(hex_lower(b) == p + t);
        assert(crate::encode::ascii_bytes(p + t) =~= crate::encode::ascii_bytes(p) + crate::encode::ascii_bytes(t));
        assert(crate::encode::ascii_bytes(t) =~= seq![
            hex_digit_lower(b.last() as int / 16) as u32 as u8,
            hex_digit_lower(b.last() as int % 16) as u32 as u8,
        ]);
    }
}

proof fn lemma_hex_decode_lower_bytes(b: Seq<u8>)
    ensures
        hex_lower_bytes(b).len() == 2 * b.len(),
        hex_decode(hex_lower_bytes(b)) == Some(b),
    decreases b.len(),
{
    if b.len() > 0 {
        let x = b.last();
        let h = hex_lower_bytes(b);
        lemma_hex_decode_lower_bytes(b.drop_last());
        lemma_hex_digit_lower(x as int / 16);
        lemma_hex_digit_lower(x as int % 16);
        assert(h.subrange(0, h.len() - 2) =~= hex_lower_bytes(b.drop_last()));
        assert(hex_pair(h[h.len() - 2], h[h.len() - 1]) == Some(x));
        assert(b.drop_last().push(x) =~= b);
    }
}

proof fn lemma_ascii_boundaries(b: Seq<u8>, i: int)
    requires
        forall|k: int| 0 <= k < b.len() ==> #[trigger] b[k] < 128,
        0 <= i <= b.len(),
    ensures
        vstd::utf8::valid_utf8(b),
        vstd::utf8::is_char_boundary(b, i),
    decreases b.len(),
{
    if b.len() > 0 {
        let x = b[0];
        assert(x < 128);
        assert((x & 0x7f) as u32 == x as u32) by (bit_vector)
            requires
                x < 128,
        ;
        assert(vstd::utf8::pop_first_scalar(b) =~= b.drop_first());
        lemma_ascii_boundaries(b.drop_first(), if i > 0 { i - 1 } else { 0 });
    }
}

proof fn lemma_ascii_cuts(b: Seq<u8>)
    requires
        forall|k: int| 0 <= k < b.len() ==> #[trigger] b[k] < 128,
    ensures
        hex_cuts_on_boundaries(b),
{
    assert forall|i: int|
        0 <= i < b.len() && i % 2 == 0 && b.len() % 2 == 0 && #[trigger] hex_decode(b.subrange(0, i)) is Some implies vstd::utf8::is_char_boundary(
        b,
        i,
    ) && vstd::utf8::is_char_boundary(b, i + 2) by {
        lemma_ascii_boundaries(b, i);
        lemma_ascii_boundaries(b, i + 2);
    }
}

/// Decoding the hex text of some bytes gives those bytes back, and the
/// text meets what `hex_to_bytes` asks of its input.
pub proof fn law_hex_round_trip(b: Seq<u8>)
    ensures
        hex_cuts_on_boundaries(vstd::utf8::encode_utf8(hex_lower(b))),
        hex_decode(vstd::utf8::encode_utf8(hex_lower(b))) == Some(b),
{
    lemma_hex_lower_ascii(b);
    crate::encode::lemma_ascii_utf8(hex_lower(b));
    lemma_hex_decode_lower_bytes(b);
    let h = hex_lower(b);
    assert forall|k: int| 0 <= k < crate::encode::ascii_bytes(h).len() implies #[trigger] crate::encode::ascii_bytes(h)[k] < 128 by {
        assert((h[k] as u32) < 128);
        let y = h[k] as u32;
        assert(y < 128 ==> (y as u8) < 128) by (bit_vector);
    }
    lemma_ascii_cuts(crate::encode::ascii_bytes(h));
}

/// A hex text of even length made of hex digits alone meets what
/// `hex_to_bytes` asks of its input, decodes, and the bytes it gives encode
/// back to the same text in lower case.
pub proof fn law_hex_decode_then_encode(h: Seq<u8>)
    requires
        h.len() % 2 == 0,
        forall|i: int| 0 <= i < h.len() ==> is_hex_byte(#[trigger] h[i]),
    ensures
        hex_cuts_on_boundaries(h),
        hex_decode(h) matches Some(v) && hex_lower_bytes(v) == h.map_values(|x: u8| ascii_lower_byte(x)),
    decreases h.len(),
{
    assert forall|k: int| 0 <= k < h.len() implies #[trigger] h[k] < 128 by {
        assert(is_hex_byte(h[k]));
    }
    lemma_ascii_cuts(h);
    if h.len() > 0 {
        let front = h.subrange(0, h.len() - 2);
        law_hex_decode_then_encode(front);
        let v0 = hex_decode(front)->0;
        let a = h[h.len() - 2];
        let c = h[h.len() - 1];
        let hi = hex_byte_val(a);
        let lo = hex_byte_val(c);
        assert(0 <= hi < 16 && 0 <= lo < 16);
        assert(a != 43);
        let x = (hi * 16 + lo) as u8;
        assert(hex_pair(a, c) == Some(x));
        assert((hi * 16 + lo) / 16 == hi && (hi * 16 + lo) % 16 == lo) by (nonlinear_arith)
            requires
                0 <= hi < 16,
                0 <= lo < 16,
        ;
        assert(x as int == hi * 16 + lo);
        lemma_hex_digit_of_val(a);
        lemma_hex_digit_of_val(c);
        let v = v0.push(x);
        assert(hex_decode(h) == Some(v));
        assert(v.drop_last() =~= v0);
        assert(hex_lower_bytes(v) =~= h.map_values(|x: u8| ascii_lower_byte(x)));
    } else {
        assert(hex_lower_bytes(Seq::<u8>::empty()) =~= h.map_values(|x: u8| ascii_lower_byte(x)));
    }
}

} // verus!
