//! URL and HTML encoding and decoding.

use vstd::prelude::*;
use vstd::string::StringSliceAdditionalSpecFns;
use crate::text::{chars_of, push_str, own};
use crate::util::{hex_pair, is_hex_byte, hex_byte_val};
use crate::error::{PrivoxyError, PrivoxyResult};
use crate::bindings::string_from_utf8;
use vstd::utf8::{encode_utf8, decode_utf8, valid_utf8};

verus! {

// ---------------------------------------------------------------------------
// HTML

/// The entity that replaces a character in HTML text, if any.
pub open spec fn html_entity(c: char) -> Option<Seq<char>> {
    if c == '"' {
        Some("&quot;"@)
    } else if c == '&' {
        Some("&amp;"@)
    } else if c == '\'' {
        Some("&#39;"@)
    } else if c == '<' {
        Some("&lt;"@)
    } else if c == '>' {
        Some("&gt;"@)
    } else {
        None
    }
}

/// `s` with `"`, `&`, `'`, `<` and `>` replaced by their entities.
pub open spec fn html_escaped(s: Seq<char>) -> Seq<char>
    decreases s.len(),
{
    if s.len() == 0 {
        seq![]
    } else {
        html_escaped(s.drop_last()) + match html_entity(s.last()) {
            Some(e) => e,
            None => seq![s.last()],
        }
    }
}

/// Encode a string for use in HTML.
pub fn html_encode(s: &str) -> (r: String)
    ensures
        r@ == html_escaped(s@),
{
    let v = chars_of(s);
    let mut r = String::new();
    let mut i: usize = 0;
    while i < v.len()
        invariant
            i <= v.len(),
            r@ == html_escaped(v@.subrange(0, i as int)),
        decreases v.len() - i,
    {
        let c = v[i];
        assert(v@.subrange(0, i + 1).drop_last() =~= v@.subrange(0, i as int));
        if c == '"' {
            push_str(&mut r, "&quot;");
        } else if c == '&' {
            push_str(&mut r, "&amp;");
        } else if c == '\'' {
            push_str(&mut r, "&#39;");
        } else if c == '<' {
            push_str(&mut r, "&lt;");
        } else if c == '>' {
            push_str(&mut r, "&gt;");
        } else {
            r.push(c);
        }
        i += 1;
    }
    assert(v@.subrange(0, v.len() as int) =~= v@);
    r
}

/// `html_encode` under another name.
pub fn html_encode_string(s: &str) -> (r: String)
    ensures
        r@ == html_escaped(s@),
{
    html_encode(s)
}

// ---------------------------------------------------------------------------
// Percent encoding

pub open spec fn hex_digit_upper(d: int) -> char {
    if d < 10 {
        (('0' as int) + d) as char
    } else {
        (('A' as int) + d - 10) as char
    }
}

/// `%XX` with two uppercase hex digits.
pub open spec fn percent(b: u8) -> Seq<char> {
    seq!['%', hex_digit_upper(b as int / 16), hex_digit_upper(b as int % 16)]
}

pub open spec fn is_unreserved(b: u8) -> bool {
    (48 <= b <= 57) || (65 <= b <= 90) || (97 <= b <= 122) || b == 45 || b == 95 || b == 46 || b == 126
}

/// Characters RFC 3986 allows to appear unencoded in a URL.
pub open spec fn is_rfc3986_allowed(b: u8) -> bool {
    is_unreserved(b) || b == 33 || b == 35 || b == 36 || b == 37 || b == 38 || b == 39 || b == 40
        || b == 41 || b == 42 || b == 43 || b == 44 || b == 47 || b == 58 || b == 59 || b == 61
        || b == 63 || b == 64 || b == 91 || b == 93
}

/// How each byte is written: kept as the character with that code, or
/// percent-encoded.
pub enum UrlStyle {
    /// Everything but the unreserved characters is percent-encoded.
    Component,
    /// RFC 3986 characters and non-ASCII bytes are kept.
    Rfc3986,
    /// Like `Component`, but a space becomes `+`.
    QueryParam,
}

pub open spec fn encode_byte(style: UrlStyle, b: u8) -> Seq<char> {
    match style {
        UrlStyle::Component => if is_unreserved(b) {
            seq![b as char]
        } else {
            percent(b)
        },
        UrlStyle::Rfc3986 => if b >= 128 || is_rfc3986_allowed(b) {
            seq![b as char]
        } else {
            percent(b)
        },
        UrlStyle::QueryParam => if is_unreserved(b) {
            seq![b as char]
        } else if b == 32 {
            seq!['+']
        } else {
            percent(b)
        },
    }
}

pub open spec fn url_encoded(style: UrlStyle, b: Seq<u8>) -> Seq<char>
    decreases b.len(),
{
    if b.len() == 0 {
        seq![]
    } else {
        url_encoded(style, b.drop_last()) + encode_byte(style, b.last())
    }
}

fn upper_hex(d: u8) -> (c: char)
    requires
        d < 16,
    ensures
        c == hex_digit_upper(d as int),
{
    if d < 10 {
        (48u8 + d) as char
    } else {
        (65u8 + d - 10) as char
    }
}

fn is_unreserved_exec(b: u8) -> (r: bool)
    ensures
        r == is_unreserved(b),
{
    (48 <= b && b <= 57) || (65 <= b && b <= 90) || (97 <= b && b <= 122) || b == 45 || b == 95
        || b == 46 || b == 126
}

fn is_rfc3986_allowed_exec(b: u8) -> (r: bool)
    ensures
        r == is_rfc3986_allowed(b),
{
    is_unreserved_exec(b) || b == 33 || b == 35 || b == 36 || b == 37 || b == 38 || b == 39 || b
        == 40 || b == 41 || b == 42 || b == 43 || b == 44 || b == 47 || b == 58 || b == 59 || b
        == 61 || b == 63 || b == 64 || b == 91 || b == 93
}

fn encode_with(s: &str, style: UrlStyle) -> (r: String)
    ensures
        r@ == url_encoded(style, s.spec_bytes()),
{
    let b = s.as_bytes();
    let mut r = String::new();
    let mut i: usize = 0;
    while i < b.len()
        invariant
            i <= b.len(),
            b@ == s.spec_bytes(),
            r@ == url_encoded(style, b@.subrange(0, i as int)),
        decreases b.len() - i,
    {
        let c = b[i];
        assert(b@.subrange(0, i + 1).drop_last() =~= b@.subrange(0, i as int));
        let keep = match style {
            UrlStyle::Component => is_unreserved_exec(c),
            UrlStyle::Rfc3986 => c >= 128 || is_rfc3986_allowed_exec(c),
            UrlStyle::QueryParam => is_unreserved_exec(c),
        };
        let ghost before = r@;
        if keep {
            r.push(c as char);
        } else if matches!(style, UrlStyle::QueryParam) && c == 32 {
            r.push('+');
        } else {
            r.push('%');
            r.push(upper_hex(c / 16));
            r.push(upper_hex(c % 16));
            assert(r@ =~= before + percent(c));
        }
        i += 1;
    }
    assert(b@.subrange(0, b.len() as int) =~= b@);
    r
}

/// Percent-encode every byte but the unreserved characters.
pub fn url_encode(s: &str) -> (r: String)
    ensures
        r@ == url_encoded(UrlStyle::Component, s.spec_bytes()),
{
    encode_with(s, UrlStyle::Component)
}

/// Percent-encode what RFC 3986 does not allow in a URL; bytes outside
/// ASCII are kept as the characters with those codes.
pub fn percent_encode_url(s: &str) -> (r: String)
    ensures
        r@ == url_encoded(UrlStyle::Rfc3986, s.spec_bytes()),
{
    encode_with(s, UrlStyle::Rfc3986)
}

/// Encode a query-string parameter: spaces become `+`.
pub fn url_encode_query_param(s: &str) -> (r: String)
    ensures
        r@ == url_encoded(UrlStyle::QueryParam, s.spec_bytes()),
{
    encode_with(s, UrlStyle::QueryParam)
}

// ---------------------------------------------------------------------------
// Decoding

/// The UTF-8 bytes of the character whose code is `x`.
pub open spec fn latin1_utf8(x: u8) -> Seq<u8> {
    if x < 128 {
        seq![x]
    } else {
        seq![(0xc0 + x as int / 64) as u8, (0x80 + x as int % 64) as u8]
    }
}

pub open spec fn latin1_utf8_all(h: Seq<u8>) -> Seq<u8>
    decreases h.len(),
{
    if h.len() == 0 {
        seq![]
    } else {
        latin1_utf8_all(h.drop_last()) + latin1_utf8(h.last())
    }
}

/// What a `%` and the (at most two) bytes after it decode to.
pub open spec fn decode_escape(h: Seq<u8>) -> Seq<u8> {
    if h.len() == 2 && hex_pair(h[0], h[1]) is Some {
        seq![hex_pair(h[0], h[1])->0]
    } else {
        seq![37u8] + latin1_utf8_all(h)
    }
}

/// The bytes of a percent-encoded text after decoding: `+` is a space and
/// `%XY` the byte with hex value `XY`; a `%` without two hex digits after
/// it stays as written.
pub open spec fn url_decoded_bytes(b: Seq<u8>) -> Seq<u8>
    decreases b.len(),
{
    if b.len() == 0 {
        seq![]
    } else if b[0] == 43 {
        seq![32u8] + url_decoded_bytes(b.drop_first())
    } else if b[0] == 37 {
        let take = if b.len() >= 3 { 2int } else { b.len() - 1 };
        decode_escape(b.subrange(1, 1 + take)) + url_decoded_bytes(b.subrange(1 + take, b.len() as int))
    } else {
        seq![b[0]] + url_decoded_bytes(b.drop_first())
    }
}

fn push_latin1(out: &mut Vec<u8>, x: u8)
    ensures
        final(out)@ == old(out)@ + latin1_utf8(x),
{
    if x < 128 {
        out.push(x);
    } else {
        out.push(0xc0 + x / 64);
        out.push(0x80 + x % 64);
    }
}

/// Decode `+` and `%XY` escapes.  Fails when the result is not UTF-8.
pub fn url_decode(s: &str) -> (r: PrivoxyResult<String>)
    ensures
        r is Ok <==> vstd::utf8::valid_utf8(url_decoded_bytes(s.spec_bytes())),
        r matches Ok(t) ==> t@ == vstd::utf8::decode_utf8(url_decoded_bytes(s.spec_bytes())),
        r matches Err(e) ==> e is Parse,
{
    let b = s.as_bytes();
    let mut out: Vec<u8> = Vec::new();
    let mut i: usize = 0;
    assert(b@.subrange(0, b.len() as int) =~= b@);
    while i < b.len()
        invariant
            i <= b.len(),
            b@ == s.spec_bytes(),
            url_decoded_bytes(b@) == out@ + url_decoded_bytes(b@.subrange(i as int, b.len() as int)),
        decreases b.len() - i,
    {
        let ghost rest = b@.subrange(i as int, b.len() as int);
        let ghost before = out@;
        let c = b[i];
        if c == 43 {
            assert(rest.drop_first() =~= b@.subrange(i + 1, b.len() as int));
            out.push(32);
            assert(out@ + url_decoded_bytes(b@.subrange(i + 1, b.len() as int)) =~= before + (seq![32u8] + url_decoded_bytes(b@.subrange(i + 1, b.len() as int))));
            i += 1;
        } else if c == 37 {
            let take: usize = if b.len() - i >= 3 { 2 } else { b.len() - i - 1 };
            let ghost h = rest.subrange(1, 1 + take);
            assert(h =~= b@.subrange(i + 1, i + 1 + take));
            assert(rest.subrange(1 + take, rest.len() as int) =~= b@.subrange(i + 1 + take, b.len() as int));
            if take == 2 && (b[i + 1] == 43 && is_hex_byte_exec(b[i + 2]) || is_hex_byte_exec(b[i + 1]) && is_hex_byte_exec(b[i + 2])) {
                let v = if b[i + 1] == 43 {
                    hex_val_exec(b[i + 2])
                } else {
                    hex_val_exec(b[i + 1]) * 16 + hex_val_exec(b[i + 2])
                };
                out.push(v);
                assert(decode_escape(h) =~= seq![v]);
            } else {
                out.push(37);
                let mut k: usize = 0;
                while k < take
                    invariant
                        k <= take,
                        i + 1 + take <= b.len(),
                        h == b@.subrange(i + 1, i + 1 + take),
                        out@ == before + seq![37u8] + latin1_utf8_all(h.subrange(0, k as int)),
                    decreases take - k,
                {
                    assert(h.subrange(0, k + 1).drop_last() =~= h.subrange(0, k as int));
                    push_latin1(&mut out, b[i + 1 + k]);
                    k += 1;
                }
                assert(h.subrange(0, take as int) =~= h);
                assert(decode_escape(h) == seq![37u8] + latin1_utf8_all(h));
            }
            assert(out@ + url_decoded_bytes(b@.subrange(i + 1 + take, b.len() as int)) =~= before + (decode_escape(h) + url_decoded_bytes(b@.subrange(i + 1 + take, b.len() as int))));
            i = i + 1 + take;
        } else {
            assert(rest.drop_first() =~= b@.subrange(i + 1, b.len() as int));
            out.push(c);
            assert(out@ + url_decoded_bytes(b@.subrange(i + 1, b.len() as int)) =~= before + (seq![c] + url_decoded_bytes(b@.subrange(i + 1, b.len() as int))));
            i += 1;
        }
    }
    assert(out@ + url_decoded_bytes(b@.subrange(i as int, b.len() as int)) =~= out@);
    match string_from_utf8(out) {
        Some(t) => Ok(t),
        None => Err(PrivoxyError::Parse(own("Invalid UTF-8 in decoded string"))),
    }
}

fn is_hex_byte_exec(b: u8) -> (r: bool)
    ensures
        r == is_hex_byte(b),
{
    (48 <= b && b <= 57) || (65 <= b && b <= 70) || (97 <= b && b <= 102)
}

fn hex_val_exec(b: u8) -> (r: u8)
    requires
        is_hex_byte(b),
    ensures
        r == hex_byte_val(b),
        r < 16,
{
    if 48 <= b && b <= 57 {
        b - 48
    } else if 65 <= b && b <= 70 {
        b - 55
    } else {
        b - 87
    }
}

/// The value of a hex digit character.
pub open spec fn hex_char_val(c: char) -> Option<u8> {
    if '0' <= c && c <= '9' {
        Some((c as int - '0' as int) as u8)
    } else if 'A' <= c && c <= 'F' {
        Some((c as int - 'A' as int + 10) as u8)
    } else if 'a' <= c && c <= 'f' {
        Some((c as int - 'a' as int + 10) as u8)
    } else {
        None
    }
}

pub fn char_to_hex(c: char) -> (r: Option<u8>)
    ensures
        r == hex_char_val(c),
{
    if '0' <= c && c <= '9' {
        Some((c as u32 - '0' as u32) as u8)
    } else if 'A' <= c && c <= 'F' {
        Some((c as u32 - 'A' as u32 + 10) as u8)
    } else if 'a' <= c && c <= 'f' {
        Some((c as u32 - 'a' as u32 + 10) as u8)
    } else {
        None
    }
}

/// The byte written by the first two characters of `s` in hex, or 0 when
/// they are missing or not hex digits.
pub open spec fn xtoi_of(s: Seq<char>) -> u8 {
    if s.len() < 2 {
        0
    } else {
        match (hex_char_val(s[0]), hex_char_val(s[1])) {
            (Some(h), Some(l)) => (h as int * 16 + l as int) as u8,
            _ => 0,
        }
    }
}

/// Convert two hex digits to a byte.
pub fn xtoi(s: &str) -> (r: u8)
    ensures
        r == xtoi_of(s@),
{
    let v = chars_of(s);
    if v.len() < 2 {
        return 0;
    }
    let high = char_to_hex(v[0]);
    let low = char_to_hex(v[1]);
    match (high, low) {
        (Some(h), Some(l)) => {
            assert(h < 16 && l < 16);
            h * 16 + l
        },
        _ => 0,
    }
}


// ---------------------------------------------------------------------------
// Decoding undoes encoding

/// The bytes of what `url_encode` writes for the byte `b`.
pub open spec fn component_bytes(b: u8) -> Seq<u8> {
    if is_unreserved(b) {
        seq![b]
    } else {
        seq![37u8, hex_digit_upper(b as int / 16) as u32 as u8, hex_digit_upper(b as int % 16) as u32 as u8]
    }
}

/// The bytes of what `url_encode` writes for `b`, byte by byte.
pub open spec fn component_encoded_bytes(b: Seq<u8>) -> Seq<u8>
    decreases b.len(),
{
    if b.len() == 0 {
        seq![]
    } else {
        component_bytes(b[0]) + component_encoded_bytes(b.drop_first())
    }
}

/// The bytes of a text whose characters are all ASCII.
pub open spec fn ascii_bytes(c: Seq<char>) -> Seq<u8> {
    Seq::new(c.len(), |i: int| c[i] as u32 as u8)
}

pub open spec fn all_ascii(c: Seq<char>) -> bool {
    forall|i: int| 0 <= i < c.len() ==> (#[trigger] c[i] as u32) < 128
}

pub proof fn lemma_ascii_utf8(c: Seq<char>)
    requires
        all_ascii(c),
    ensures
        encode_utf8(c) == ascii_bytes(c),
    decreases c.len(),
{
    if c.len() > 0 {
        let x = c[0] as u32;
        assert(x < 128);
        assert((x & 0x7F) as u8 == x as u8) by (bit_vector)
            requires
                x < 128,
        ;
        lemma_ascii_utf8(c.drop_first());
        assert(encode_utf8(c) =~= ascii_bytes(c));
    }
}

proof fn lemma_hex_digit(d: int)
    requires
        0 <= d < 16,
    ensures
        (hex_digit_upper(d) as u32) < 128,
        is_hex_byte(hex_digit_upper(d) as u32 as u8),
        hex_byte_val(hex_digit_upper(d) as u32 as u8) == d,
        hex_digit_upper(d) as u32 as u8 != 43,
{
}

proof fn lemma_encoded_ascii(b: Seq<u8>)
    ensures
        all_ascii(url_encoded(UrlStyle::Component, b)),
        ascii_bytes(url_encoded(UrlStyle::Component, b)) == component_encoded_bytes(b),
    decreases b.len(),
{
    if b.len() > 0 {
        let x = b.last();
        let e = url_encoded(UrlStyle::Component, b.drop_last());
        lemma_encoded_ascii(b.drop_last());
        lemma_hex_digit(x as int / 16);
        lemma_hex_digit(x as int % 16);
        let t = encode_byte(UrlStyle::Component, x);
        assert(all_ascii(t));
        assert(ascii_bytes(t) =~= component_bytes(x));
        assert(url_encoded(UrlStyle::Component, b) == e + t);
        assert(ascii_bytes(e + t) =~= ascii_bytes(e) + ascii_bytes(t));
        lemma_component_push(b.drop_last(), x);
        assert(b.drop_last().push(x) =~= b);
    }
}

proof fn lemma_component_push(b: Seq<u8>, x: u8)
    ensures
        component_encoded_bytes(b.push(x)) == component_encoded_bytes(b) + component_bytes(x),
    decreases b.len(),
{
    if b.len() == 0 {
        assert(b.push(x).drop_first() =~= Seq::<u8>::empty());
        assert(b.push(x)[0] == x);
        assert(component_encoded_bytes(b.push(x).drop_first()) =~= Seq::<u8>::empty());
        assert(component_encoded_bytes(b.push(x)) =~= component_bytes(x));
    } else {
        assert(b.push(x).drop_first() =~= b.drop_first().push(x));
        lemma_component_push(b.drop_first(), x);
        assert(component_encoded_bytes(b.push(x)) =~= component_encoded_bytes(b) + component_bytes(x));
    }
}

proof fn lemma_decode_component(b: Seq<u8>)
    ensures
        url_decoded_bytes(component_encoded_bytes(b)) == b,
    decreases b.len(),
{
    if b.len() > 0 {
        let x = b[0];
        let rest = component_encoded_bytes(b.drop_first());
        let all = component_bytes(x) + rest;
        lemma_decode_component(b.drop_first());
        if is_unreserved(x) {
            assert(all.drop_first() =~= rest);
        } else {
            let hi = x as int / 16;
            let lo = x as int % 16;
            lemma_hex_digit(hi);
            lemma_hex_digit(lo);
            let h = all.subrange(1, 3);
            assert(h =~= seq![hex_digit_upper(hi) as u32 as u8, hex_digit_upper(lo) as u32 as u8]);
            assert(hex_pair(h[0], h[1]) == Some(x));
            assert(decode_escape(h) =~= seq![x]);
            assert(all.subrange(3, all.len() as int) =~= rest);
        }
        assert(url_decoded_bytes(all) =~= b);
    }
}

/// Decoding what `url_encode` writes for a text gives back that text: the
/// decoded bytes are its UTF-8 encoding.
pub proof fn law_url_decode_undoes_encode(s: Seq<char>)
    ensures
        valid_utf8(url_decoded_bytes(encode_utf8(url_encoded(UrlStyle::Component, encode_utf8(s))))),
        decode_utf8(url_decoded_bytes(encode_utf8(url_encoded(UrlStyle::Component, encode_utf8(s))))) == s,
{
    let b = encode_utf8(s);
    let e = url_encoded(UrlStyle::Component, b);
    lemma_encoded_ascii(b);
    lemma_ascii_utf8(e);
    lemma_decode_component(b);
    vstd::utf8::encode_utf8_valid_utf8(s);
    vstd::utf8::encode_utf8_decode_utf8(s);
}

} // verus!
