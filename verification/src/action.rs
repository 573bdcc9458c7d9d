//! Deciding which actions apply to a URL, and the responses that actions
//! put in place of the real one.

use vstd::prelude::*;
use crate::text::{
    trim, starts_with, ends_with, find_char, rfind_char, split_char, parse_unsigned, contains,
    chars_of, trim_vec, from_chars, slice_chars, str_eq, str_starts_with, own, push_str,
    push_chars, find_char_exec, rfind_char_exec, split_char_exec, views, parse_u16, starts_with_exec,
    strip_leading, strip_trailing, has_char, has_char_exec, str_views, decimal, push_decimal,
    trim_str, occurs_at, lemma_find_from_skip,
};
use crate::util::{glob, glob_exec, strip_leading_exec, strip_trailing_exec};
use crate::bindings::{
    unicode_lowercase, str_to_lowercase, regex_error, regex_matches, regex_check, regex_is_match,
};
use crate::config::{
    Action, ActionModel, Config, UrlAction, split_once, split_once_exec, rsplit_once, names_of, lemma_names_of,
};
use crate::action_string::copy_action;
use crate::loaders::url_action_view;
use crate::http::{HttpResponse, ResponseModel, header_view};
use crate::compression::COMPRESSION_LEVEL_DEFAULT;
use crate::encode::{hex_char_val, char_to_hex};
use crate::bindings::string_from_utf8;
use vstd::utf8::{encode_utf8, valid_utf8, decode_utf8};
use vstd::slice::slice_to_vec;

verus! {

// ---------------------------------------------------------------------------
// URL patterns of the actions file

/// A URL split into its host (lower-cased), port and path.  A scheme
/// `http://` or `https://` is dropped; a URL without a path has path `/`.
pub open spec fn url_components(url: Seq<char>) -> (Seq<char>, Option<u16>, Seq<char>) {
    let u = if starts_with(url, "http://"@) {
        url.subrange(7, url.len() as int)
    } else if starts_with(url, "https://"@) {
        url.subrange(8, url.len() as int)
    } else {
        url
    };
    let hp = match find_char(u, '/') {
        Some(i) => (u.subrange(0, i), u.subrange(i, u.len() as int)),
        None => (u, "/"@),
    };
    match rfind_char(hp.0, ':') {
        Some(c) => match parse_unsigned(hp.0.subrange(c + 1, hp.0.len() as int), 0xffff) {
            Some(p) => (unicode_lowercase(hp.0.subrange(0, c)), Some(p as u16), hp.1),
            None => (unicode_lowercase(hp.0), None, hp.1),
        },
        None => (unicode_lowercase(hp.0), None, hp.1),
    }
}

/// Splits a URL into host, port and path.
pub fn parse_url_components(url: &str) -> (r: (String, Option<u16>, String))
    ensures
        (r.0@, r.1, r.2@) == url_components(url@),
{
    proof {
        reveal_strlit("http://");
        reveal_strlit("https://");
        reveal_strlit("/");
    }
    let v = chars_of(url);
    let u = if str_starts_with(url, "http://") {
        slice_chars(&v, 7, v.len())
    } else if str_starts_with(url, "https://") {
        slice_chars(&v, 8, v.len())
    } else {
        v
    };
    let (hostport, path) = match find_char_exec(&u, '/') {
        Some(i) => (slice_chars(&u, 0, i), from_chars(&slice_chars(&u, i, u.len()))),
        None => (u, "/".to_string()),
    };
    match rfind_char_exec(&hostport, ':') {
        Some(c) => match parse_u16(&slice_chars(&hostport, c + 1, hostport.len())) {
            Some(p) => (str_to_lowercase(from_chars(&slice_chars(&hostport, 0, c)).as_str()), Some(p), path),
            None => (str_to_lowercase(from_chars(&hostport).as_str()), None, path),
        },
        None => (str_to_lowercase(from_chars(&hostport).as_str()), None, path),
    }
}

/// Whether the domain components match one for one, each by `*` and `?`
/// wildcards.
pub open spec fn components_match(p: Seq<Seq<char>>, h: Seq<Seq<char>>) -> bool {
    p.len() == h.len() && forall|i: int| 0 <= i < p.len() ==> glob(#[trigger] p[i], h[i])
}

/// Whether a host matches a host pattern.  A leading `.` lets more
/// components stand before the pattern's, a trailing `.` more after it;
/// without either the component counts must agree.  Both sides are
/// lower-cased first.
pub open spec fn host_matches(host: Seq<char>, pattern: Seq<char>) -> bool {
    let h = unicode_lowercase(host);
    let pl = unicode_lowercase(pattern);
    let left = starts_with(pl, "."@);
    let right = ends_with(pl, "."@);
    let core = strip_trailing(strip_leading(pl, '.'), '.');
    if core.len() == 0 {
        true
    } else {
        let hs = split_char(h, '.');
        let ps = split_char(core, '.');
        if hs.len() < ps.len() {
            false
        } else if left && !right {
            components_match(ps, hs.subrange(hs.len() - ps.len(), hs.len() as int))
        } else if !left && right {
            components_match(ps, hs.subrange(0, ps.len() as int))
        } else if left && right {
            exists|n: int| 0 <= n <= hs.len() - ps.len() && #[trigger] components_match(ps, hs.subrange(n, n + ps.len()))
        } else {
            hs.len() == ps.len() && components_match(ps, hs)
        }
    }
}

fn components_match_exec(p: &Vec<Vec<char>>, h: &Vec<Vec<char>>, start: usize) -> (r: bool)
    requires
        start <= h.len(),
    ensures
        r == (start + p.len() <= h.len() && components_match(
            views(p@),
            views(h@).subrange(start as int, start + p.len()),
        )),
{
    if p.len() > h.len() - start {
        return false;
    }
    let mut i: usize = 0;
    while i < p.len()
        invariant
            i <= p.len(),
            start + p.len() <= h.len(),
            forall|j: int| 0 <= j < i ==> glob(#[trigger] views(p@)[j], views(h@)[start + j]),
        decreases p.len() - i,
    {
        if !glob_exec(&p[i], &h[start + i]) {
            assert(!glob(views(p@)[i as int], views(h@).subrange(start as int, start + p.len())[i as int]));
            return false;
        }
        i += 1;
    }
    assert forall|j: int| 0 <= j < p.len() implies glob(
        #[trigger] views(p@)[j],
        views(h@).subrange(start as int, start + p.len())[j],
    ) by {
        assert(views(h@).subrange(start as int, start + p.len())[j] == views(h@)[start + j]);
    }
    true
}

/// Whether the components match some run of consecutive host components.
fn any_window_matches(ps: &Vec<Vec<char>>, hs: &Vec<Vec<char>>) -> (r: bool)
    requires
        ps.len() <= hs.len(),
    ensures
        r == exists|n: int|
            0 <= n <= hs.len() - ps.len() && #[trigger] components_match(
                views(ps@),
                views(hs@).subrange(n, n + ps.len()),
            ),
{
    let ghost hv = views(hs@);
    let ghost pv = views(ps@);
    let hlen = hs.len();
    let plen = ps.len();
    let mut n: usize = 0;
    while n <= hlen - plen
        invariant
            hlen == hs.len(),
            plen == ps.len(),
            plen <= hlen,
            hv == views(hs@),
            pv == views(ps@),
            n <= hlen - plen + 1,
            forall|m: int| 0 <= m < n ==> !#[trigger] components_match(pv, hv.subrange(m, m + plen)),
        decreases hlen - plen + 1 - n,
    {
        if components_match_exec(ps, hs, n) {
            return true;
        }
        n += 1;
    }
    false
}

/// Whether a host matches a host pattern (see `host_matches`).
pub fn host_pattern_matches(host: &str, pattern: &str) -> (r: bool)
    ensures
        r == host_matches(host@, pattern@),
{
    proof {
        reveal_strlit(".");
    }
    let h = chars_of(str_to_lowercase(host).as_str());
    let pl = chars_of(str_to_lowercase(pattern).as_str());
    let dot = vec!['.'];
    assert(dot@ =~= "."@);
    let left = starts_with_exec(&pl, &dot);
    let right = crate::text::ends_with_exec(&pl, &dot);
    let core = strip_trailing_exec(&strip_leading_exec(&pl, '.'), '.');
    if core.len() == 0 {
        return true;
    }
    let hs = split_char_exec(&h, '.');
    let ps = split_char_exec(&core, '.');
    let ghost hv = views(hs@);
    let ghost pv = views(ps@);
    if hs.len() < ps.len() {
        return false;
    }
    let hlen = hs.len();
    let plen = ps.len();
    if left && !right {
        components_match_exec(&ps, &hs, hlen - plen)
    } else if !left && right {
        components_match_exec(&ps, &hs, 0)
    } else if left && right {
        any_window_matches(&ps, &hs)
    } else {
        if hlen != plen {
            return false;
        }
        let r = components_match_exec(&ps, &hs, 0);
        assert(hv.subrange(0, plen as int) =~= hv);
        r
    }
}

/// Characters that make a path pattern an expression.
pub open spec fn path_pattern_is_regex(p: Seq<char>) -> bool {
    has_char(p, '*') || has_char(p, '?') || has_char(p, '[') || has_char(p, '(') || has_char(p, '+')
        || has_char(p, '\\')
}

/// Whether a path matches a path pattern: an expression anchored at the
/// start where it holds expression characters, else a plain prefix.
pub open spec fn path_matches(path: Seq<char>, pattern: Seq<char>) -> bool {
    if path_pattern_is_regex(pattern) {
        regex_error("^"@ + pattern) is None && regex_matches("^"@ + pattern, path)
    } else {
        starts_with(path, pattern)
    }
}

/// Whether a path matches a path pattern (see `path_matches`).
pub fn path_pattern_matches(path: &str, pattern: &str) -> (r: bool)
    ensures
        r == path_matches(path@, pattern@),
{
    let pv = chars_of(pattern);
    if has_char_exec(&pv, '*') || has_char_exec(&pv, '?') || has_char_exec(&pv, '[') || has_char_exec(&pv, '(')
        || has_char_exec(&pv, '+') || has_char_exec(&pv, '\\') {
        let mut re = String::new();
        push_str(&mut re, "^");
        push_str(&mut re, pattern);
        match regex_check(re.as_str()) {
            None => regex_is_match(re.as_str(), path),
            Some(_) => false,
        }
    } else {
        str_starts_with(path, pattern)
    }
}

/// Whether a URL matches a pattern of the actions file: `.` and `*` match
/// everything; tag patterns match no URL; otherwise the host part before
/// the first `/` must match the URL's host and the path part (if longer
/// than `/`) its path.
pub open spec fn url_matches(url: Seq<char>, pattern: Seq<char>) -> bool {
    let p = trim(pattern);
    if p == "."@ || p == "*"@ {
        true
    } else if starts_with(p, "TAG:"@) || starts_with(p, "NO-CLIENT-TAG:"@) || starts_with(p, "NO-SERVER-TAG:"@) {
        false
    } else {
        let c = url_components(url);
        match find_char(p, '/') {
            Some(i) => {
                let hp = p.subrange(0, i);
                let pp = p.subrange(i, p.len() as int);
                (hp.len() == 0 || host_matches(c.0, hp)) && (pp.len() <= 1 || path_matches(c.2, pp))
            },
            None => p.len() == 0 || host_matches(c.0, p),
        }
    }
}

/// A pattern `host/path` whose path part is longer than `/` and holds no
/// expression characters matches a URL exactly when its host part, where
/// there is one, matches the URL's host and the URL's path starts with the
/// path part: no URL whose path lacks that prefix matches.
pub proof fn law_url_path_pattern(url: Seq<char>, hp: Seq<char>, pp: Seq<char>)
    requires
        !hp.contains('/'),
        pp.len() > 1,
        pp[0] == '/',
        !path_pattern_is_regex(pp),
        trim(hp + pp) == hp + pp,
        !starts_with(hp + pp, "TAG:"@),
        !starts_with(hp + pp, "NO-CLIENT-TAG:"@),
        !starts_with(hp + pp, "NO-SERVER-TAG:"@),
    ensures
        url_matches(url, hp + pp) ==> starts_with(url_components(url).2, pp),
        url_matches(url, hp + pp) == ((hp.len() == 0 || host_matches(url_components(url).0, hp))
            && starts_with(url_components(url).2, pp)),
{
    reveal_strlit(".");
    reveal_strlit("*");
    let p = hp + pp;
    let slash = seq!['/'];
    assert(p.len() >= 2);
    assert(p != "."@ && p != "*"@);
    assert forall|j: int| 0 <= j < hp.len() implies !occurs_at(p, slash, j) by {
        if occurs_at(p, slash, j) {
            assert(p.subrange(j, j + 1)[0] == p[j]);
            assert(hp[j] == '/');
        }
    }
    lemma_find_from_skip(p, slash, 0, hp.len() as int);
    assert(p.subrange(hp.len() as int, hp.len() + 1int) =~= slash);
    assert(find_char(p, '/') == Some(hp.len() as int));
    assert(p.subrange(0, hp.len() as int) =~= hp);
    assert(p.subrange(hp.len() as int, p.len() as int) =~= pp);
}

/// Whether a URL matches a pattern of the actions file (see `url_matches`).
pub fn url_matches_pattern(url: &str, pattern: &str) -> (r: bool)
    ensures
        r == url_matches(url@, pattern@),
{
    let p = trim_str(pattern);
    if str_eq(p.as_str(), ".") || str_eq(p.as_str(), "*") {
        return true;
    }
    if str_starts_with(p.as_str(), "TAG:") || str_starts_with(p.as_str(), "NO-CLIENT-TAG:") || str_starts_with(
        p.as_str(),
        "NO-SERVER-TAG:",
    ) {
        return false;
    }
    let pv = chars_of(p.as_str());
    let (url_host, _url_port, url_path) = parse_url_components(url);
    match find_char_exec(&pv, '/') {
        Some(i) => {
            let hp = from_chars(&slice_chars(&pv, 0, i));
            let pp = slice_chars(&pv, i, pv.len());
            if i > 0 && !host_pattern_matches(url_host.as_str(), hp.as_str()) {
                return false;
            }
            if pp.len() > 1 && !path_pattern_matches(url_path.as_str(), from_chars(&pp).as_str()) {
                return false;
            }
            true
        },
        None => {
            if pv.len() > 0 && !host_pattern_matches(url_host.as_str(), p.as_str()) {
                return false;
            }
            true
        },
    }
}

// ---------------------------------------------------------------------------
// Connection limits and redirects

/// Whether one entry of a port list (`port` or `start-end`) allows `port`.
pub open spec fn limit_part_allows(part: Seq<char>, port: u16) -> bool {
    let t = trim(part);
    if has_char(t, '-') {
        match split_once(t, '-') {
            Some(p) => match (parse_unsigned(p.0, 0xffff), parse_unsigned(p.1, 0xffff)) {
                (Some(a), Some(b)) => a <= port <= b,
                _ => false,
            },
            None => false,
        }
    } else {
        parse_unsigned(t, 0xffff) == Some(port as nat)
    }
}

/// Whether `limit-connect` lets a `CONNECT` to `port` through: without the
/// action every port is allowed, with it only the listed ones.
pub open spec fn limit_connect_allows(limit: Option<Seq<char>>, port: u16) -> bool {
    match limit {
        None => true,
        Some(l) => limit_list_allows(l, port),
    }
}

/// Whether some entry of a comma-separated port list allows `port`.
pub open spec fn limit_list_allows(l: Seq<char>, port: u16) -> bool {
    exists|i: int| 0 <= i < split_char(l, ',').len() && limit_part_allows(#[trigger] split_char(l, ',')[i], port)
}

fn limit_part_allows_exec(part: &Vec<char>, port: u16) -> (r: bool)
    ensures
        r == limit_part_allows(part@, port),
{
    let t = trim_vec(part);
    if has_char_exec(&t, '-') {
        match split_once_exec(&t, '-') {
            Some((a, b)) => match (parse_u16(&a), parse_u16(&b)) {
                (Some(x), Some(y)) => x <= port && port <= y,
                _ => false,
            },
            None => false,
        }
    } else {
        match parse_u16(&t) {
            Some(x) => x == port,
            None => false,
        }
    }
}

/// Whether the actions allow a `CONNECT` to `port`.
pub fn check_limit_connect(action: &Action, port: u16) -> (r: bool)
    ensures
        r == limit_connect_allows(action@.limit_connect, port),
{
    match &action.limit_connect {
        None => true,
        Some(list) => {
            let v = chars_of(list.as_str());
            let parts = split_char_exec(&v, ',');
            let ghost ps = views(parts@);
            let mut i: usize = 0;
            while i < parts.len()
                invariant
                    i <= parts.len(),
                    ps == views(parts@),
                    ps == split_char(list@, ','),
                    action@.limit_connect == Some(list@),
                    forall|j: int| 0 <= j < i ==> !limit_part_allows(#[trigger] ps[j], port),
                decreases parts.len() - i,
            {
                if limit_part_allows_exec(&parts[i], port) {
                    assert(limit_part_allows(ps[i as int], port));
                    assert(limit_part_allows(split_char(list@, ',')[i as int], port));
                    assert(limit_list_allows(list@, port));
                    return true;
                }
                i += 1;
            }
            false
        },
    }
}

/// `u8::from_str_radix(h, 16)` on at most two characters.
pub open spec fn hex_radix_value(h: Seq<char>) -> Option<u8> {
    if h.len() == 0 || h == "+"@ {
        None
    } else {
        let d = if h[0] == '+' {
            h.drop_first()
        } else {
            h
        };
        if d.len() == 1 {
            hex_char_val(d[0])
        } else if d.len() == 2 {
            match (hex_char_val(d[0]), hex_char_val(d[1])) {
                (Some(a), Some(b)) => Some((a * 16 + b) as u8),
                _ => None,
            }
        } else {
            None
        }
    }
}

/// The bytes of a URL-encoded text: `%` and up to two hex digits is a byte
/// (kept as text where they are no hex number), `+` is a space, and every
/// other character stands for its UTF-8 encoding.
pub open spec fn unescaped_bytes(s: Seq<char>) -> Seq<u8>
    decreases s.len(),
{
    if s.len() == 0 {
        Seq::empty()
    } else if s[0] == '%' {
        let e = if s.len() < 3 {
            s.len() as int
        } else {
            3
        };
        let h = s.subrange(1, e);
        match hex_radix_value(h) {
            Some(b) => seq![b] + unescaped_bytes(s.subrange(e, s.len() as int)),
            None => seq![37u8] + encode_utf8(h) + unescaped_bytes(s.subrange(e, s.len() as int)),
        }
    } else if s[0] == '+' {
        seq![32u8] + unescaped_bytes(s.drop_first())
    } else {
        encode_utf8(seq![s[0]]) + unescaped_bytes(s.drop_first())
    }
}

fn hex_radix_value_exec(h: &Vec<char>) -> (r: Option<u8>)
    requires
        h.len() <= 2,
    ensures
        r == hex_radix_value(h@),
{
    proof {
        reveal_strlit("+");
    }
    if h.len() == 0 || (h.len() == 1 && h[0] == '+') {
        assert(h.len() == 1 && h[0] == '+' ==> h@ =~= "+"@);
        return None;
    }
    assert(h@ != "+"@);
    let d = if h[0] == '+' {
        slice_chars(h, 1, h.len())
    } else {
        slice_chars(h, 0, h.len())
    };
    assert(h[0] == '+' ==> d@ =~= h@.drop_first());
    assert(h[0] != '+' ==> d@ =~= h@);
    if d.len() == 1 {
        char_to_hex(d[0])
    } else {
        match (char_to_hex(d[0]), char_to_hex(d[1])) {
            (Some(a), Some(b)) => Some(a * 16 + b),
            _ => None,
        }
    }
}

fn push_utf8(out: &mut Vec<u8>, s: &String)
    ensures
        final(out)@ == old(out)@ + encode_utf8(s@),
{
    let b = s.as_str().as_bytes();
    let mut i: usize = 0;
    while i < b.len()
        invariant
            i <= b.len(),
            b@ == encode_utf8(s@),
            out@ == old(out)@ + b@.subrange(0, i as int),
        decreases b.len() - i,
    {
        out.push(b[i]);
        i += 1;
        assert(out@ =~= old(out)@ + b@.subrange(0, i as int));
    }
    assert(b@.subrange(0, i as int) =~= b@);
}

/// Decodes a URL-encoded text; `None` where the bytes are not UTF-8.
pub fn urlencoding_decode(s: &str) -> (r: Option<String>)
    ensures
        valid_utf8(unescaped_bytes(s@)) ==> (r matches Some(d) && d@ == decode_utf8(unescaped_bytes(s@))),
        !valid_utf8(unescaped_bytes(s@)) ==> r is None,
{
    let v = chars_of(s);
    let mut out: Vec<u8> = Vec::new();
    let mut i: usize = 0;
    assert(v@.subrange(0, v@.len() as int) =~= v@);
    assert(out@ + unescaped_bytes(v@) =~= unescaped_bytes(v@));
    while i < v.len()
        invariant
            i <= v.len(),
            v@ == s@,
            out@ + unescaped_bytes(v@.subrange(i as int, v@.len() as int)) == unescaped_bytes(s@),
        decreases v.len() - i,
    {
        let ghost rest = v@.subrange(i as int, v@.len() as int);
        let ghost before = out@;
        let c = v[i];
        if c == '%' {
            let e = if v.len() - i < 3 {
                v.len()
            } else {
                i + 3
            };
            let h = slice_chars(&v, i + 1, e);
            assert(h@ =~= rest.subrange(1, (e - i) as int));
            assert(rest.subrange((e - i) as int, rest.len() as int) =~= v@.subrange(e as int, v@.len() as int));
            match hex_radix_value_exec(&h) {
                Some(b) => {
                    out.push(b);
                    assert(out@ + unescaped_bytes(v@.subrange(e as int, v@.len() as int)) =~= before + unescaped_bytes(rest));
                },
                None => {
                    out.push(37u8);
                    let hs = from_chars(&h);
                    push_utf8(&mut out, &hs);
                    assert(out@ + unescaped_bytes(v@.subrange(e as int, v@.len() as int)) =~= before + unescaped_bytes(rest));
                },
            }
            i = e;
        } else if c == '+' {
            out.push(32u8);
            assert(rest.drop_first() =~= v@.subrange(i + 1, v@.len() as int));
            assert(out@ + unescaped_bytes(v@.subrange(i + 1, v@.len() as int)) =~= before + unescaped_bytes(rest));
            i += 1;
        } else {
            let mut one = String::new();
            one.push(c);
            assert(one@ =~= seq![c]);
            push_utf8(&mut out, &one);
            assert(rest.drop_first() =~= v@.subrange(i + 1, v@.len() as int));
            assert(out@ + unescaped_bytes(v@.subrange(i + 1, v@.len() as int)) =~= before + unescaped_bytes(rest));
            i += 1;
        }
    }
    assert(v@.subrange(i as int, v@.len() as int) =~= Seq::<char>::empty());
    assert(out@ + Seq::<u8>::empty() =~= out@);
    string_from_utf8(out)
}

/// Where a redirection points: for a 3xx status with a location, the
/// location (decoded, in mode `check-decoded-url`, where it decodes).
pub open spec fn fast_redirect(status: u16, location: Option<Seq<char>>, mode: Seq<char>) -> Option<Seq<char>> {
    if 300 <= status < 400 {
        match location {
            Some(loc) => if mode == "check-decoded-url"@ && valid_utf8(unescaped_bytes(loc)) {
                Some(decode_utf8(unescaped_bytes(loc)))
            } else {
                Some(loc)
            },
            None => None,
        }
    } else {
        None
    }
}

/// The target a redirecting response is short-cut to, if any.
pub fn apply_fast_redirects(status_code: u16, location: Option<&String>, mode: &str) -> (r: Option<String>)
    ensures
        crate::http::opt_view(r) == fast_redirect(status_code, crate::http::opt_ref_view(location), mode@),
{
    if status_code >= 300 && status_code < 400 {
        match location {
            Some(loc) => {
                if str_eq(mode, "check-decoded-url") {
                    match urlencoding_decode(loc.as_str()) {
                        Some(d) => {
                            return Some(d);
                        },
                        None => {},
                    }
                }
                return Some(loc.clone());
            },
            None => {},
        }
    }
    None
}

/// Image blocking is built in: GIF deanimation is available.
pub fn deanimate_gif(body: &[u8], mode: &str) -> (r: Option<Vec<u8>>)
    requires
        body@.len() <= usize::MAX / 4,
    ensures
        match (r, crate::deanimate::deanimated(body@, mode@ == "first"@)) {
            (Some(v), Some(w)) => v@ == w,
            (None, None) => true,
            _ => false,
        },
{
    crate::deanimate::deanimate_gif(body, mode)
}

// ---------------------------------------------------------------------------
// Responses put in place of the real one

/// The HTML page shown for a blocked request.
pub open spec fn blocked_page(url: Seq<char>, reason: Seq<char>) -> Seq<char> {
    "<!DOCTYPE html>\n<html>\n<head>\n<title>Request blocked by Privoxy</title>\n<style>\nbody { font-family: Arial, sans-serif; margin: 40px; background: #f0f0f0; }\n.container { background: white; padding: 20px; border-radius: 8px; max-width: 600px; margin: 0 auto; }\nh1 { color: #c00; }\n.url { word-break: break-all; background: #f5f5f5; padding: 10px; border-radius: 4px; }\n</style>\n</head>\n<body>\n<div class=\"container\">\n<h1>Request Blocked</h1>\n<p>The requested URL has been blocked by Privoxy.</p>\n<p><strong>URL:</strong> <div class=\"url\">"@ + url + "</div></p>\n<p><strong>Reason:</strong> "@ + reason + "</p>\n</div>\n</body>\n</html>"@
}

fn two_headers(n1: &str, v1: &str, n2: &str, v2: &str) -> (r: Vec<(String, String)>)
    ensures
        header_view(r@) == seq![(n1@, v1@), (n2@, v2@)],
{
    let mut r: Vec<(String, String)> = Vec::new();
    r.push((own(n1), own(v1)));
    r.push((own(n2), own(v2)));
    assert(header_view(r@) =~= seq![(n1@, v1@), (n2@, v2@)]);
    r
}

/// The `403 Forbidden` answer to a blocked request.
pub open spec fn blocked_page_response(url: Seq<char>, reason: Seq<char>) -> ResponseModel {
    ResponseModel {
        version: "HTTP/1.1"@,
        status_code: 403,
        status_text: "Forbidden"@,
        headers: seq![
            ("Content-Type"@, "text/html; charset=utf-8"@),
            ("Content-Length"@, decimal(encode_utf8(blocked_page(url, reason)).len())),
        ],
        body: encode_utf8(blocked_page(url, reason)),
        compression_level: 0,
        header_len: 0,
    }
}

/// A `403 Forbidden` page naming the blocked URL and the reason.
pub fn create_blocked_page_response(url: &str, reason: &str) -> (r: HttpResponse)
    ensures
        r@ == blocked_page_response(url@, reason@),
{
    let mut body = String::new();
    push_str(&mut body, "<!DOCTYPE html>\n<html>\n<head>\n<title>Request blocked by Privoxy</title>\n<style>\nbody { font-family: Arial, sans-serif; margin: 40px; background: #f0f0f0; }\n.container { background: white; padding: 20px; border-radius: 8px; max-width: 600px; margin: 0 auto; }\nh1 { color: #c00; }\n.url { word-break: break-all; background: #f5f5f5; padding: 10px; border-radius: 4px; }\n</style>\n</head>\n<body>\n<div class=\"container\">\n<h1>Request Blocked</h1>\n<p>The requested URL has been blocked by Privoxy.</p>\n<p><strong>URL:</strong> <div class=\"url\">");
    push_str(&mut body, url);
    push_str(&mut body, "</div></p>\n<p><strong>Reason:</strong> ");
    push_str(&mut body, reason);
    push_str(&mut body, "</p>\n</div>\n</body>\n</html>");
    let bytes = slice_to_vec(body.as_str().as_bytes());
    let mut len = String::new();
    push_decimal(&mut len, bytes.len() as u64);
    HttpResponse {
        version: "HTTP/1.1".to_string(),
        status_code: 403,
        status_text: "Forbidden".to_string(),
        headers: two_headers("Content-Type", "text/html; charset=utf-8", "Content-Length", len.as_str()),
        body: bytes,
        compression_level: 0,
        header_len: 0,
    }
}

/// A transparent one-pixel GIF.
pub open spec fn blank_gif() -> Seq<u8> {
    seq![
        0x47u8, 0x49, 0x46, 0x38, 0x39, 0x61, 0x01, 0x00, 0x01, 0x00, 0x80, 0x00, 0x00, 0xff, 0xff,
        0xff, 0x00, 0x00, 0x00, 0x21, 0xf9, 0x04, 0x01, 0x0a, 0x00, 0x01, 0x00, 0x2c, 0x00, 0x00,
        0x00, 0x00, 0x01, 0x00, 0x01, 0x00, 0x00, 0x02, 0x02, 0x4c, 0x01, 0x00, 0x3b,
    ]
}

/// The answer to a blocked image request.
pub open spec fn blocked_image_response() -> ResponseModel {
    ResponseModel {
        version: "HTTP/1.1"@,
        status_code: 200,
        status_text: "OK"@,
        headers: seq![
            ("Content-Type"@, "image/gif"@),
            ("Content-Length"@, "43"@),
            ("Cache-Control"@, "max-age=86400"@),
        ],
        body: blank_gif(),
        compression_level: 0,
        header_len: 0,
    }
}

/// A transparent one-pixel GIF in place of a blocked image.
pub fn create_blocked_image_response() -> (r: HttpResponse)
    ensures
        r@ == blocked_image_response(),
{
    let body: Vec<u8> = vec![
        0x47u8, 0x49, 0x46, 0x38, 0x39, 0x61, 0x01, 0x00, 0x01, 0x00, 0x80, 0x00, 0x00, 0xff, 0xff,
        0xff, 0x00, 0x00, 0x00, 0x21, 0xf9, 0x04, 0x01, 0x0a, 0x00, 0x01, 0x00, 0x2c, 0x00, 0x00,
        0x00, 0x00, 0x01, 0x00, 0x01, 0x00, 0x00, 0x02, 0x02, 0x4c, 0x01, 0x00, 0x3b,
    ];
    assert(body@ =~= blank_gif());
    let mut headers = two_headers("Content-Type", "image/gif", "Content-Length", "43");
    let ghost before = headers@;
    headers.push(("Cache-Control".to_string(), "max-age=86400".to_string()));
    assert(header_view(headers@) =~= header_view(before).push(("Cache-Control"@, "max-age=86400"@)));
    assert(header_view(headers@) =~= seq![
        ("Content-Type"@, "image/gif"@),
        ("Content-Length"@, "43"@),
        ("Cache-Control"@, "max-age=86400"@),
    ]);
    HttpResponse {
        version: "HTTP/1.1".to_string(),
        status_code: 200,
        status_text: "OK".to_string(),
        headers,
        body,
        compression_level: 0,
        header_len: 0,
    }
}

/// The answer that stands in for a document as an empty one.
pub open spec fn empty_document_response() -> ResponseModel {
    ResponseModel {
        version: "HTTP/1.1"@,
        status_code: 200,
        status_text: "OK"@,
        headers: seq![("Content-Type"@, "text/html"@), ("Content-Length"@, "0"@)],
        body: Seq::empty(),
        compression_level: 0,
        header_len: 0,
    }
}

/// An empty HTML document in place of the real one.
pub fn create_empty_document_response() -> (r: HttpResponse)
    ensures
        r@ == empty_document_response(),
{
    HttpResponse {
        version: "HTTP/1.1".to_string(),
        status_code: 200,
        status_text: "OK".to_string(),
        headers: two_headers("Content-Type", "text/html", "Content-Length", "0"),
        body: Vec::new(),
        compression_level: 0,
        header_len: 0,
    }
}

/// The `302 Found` answer that sends the client to `url`.
pub open spec fn redirect_response(url: Seq<char>) -> ResponseModel {
    ResponseModel {
        version: "HTTP/1.1"@,
        status_code: 302,
        status_text: "Found"@,
        headers: seq![("Location"@, url), ("Content-Length"@, "0"@)],
        body: Seq::empty(),
        compression_level: 0,
        header_len: 0,
    }
}

/// A `302 Found` to `redirect_url`.
pub fn create_redirect_response(redirect_url: &str) -> (r: HttpResponse)
    ensures
        r@ == redirect_response(redirect_url@),
{
    HttpResponse {
        version: "HTTP/1.1".to_string(),
        status_code: 302,
        status_text: "Found".to_string(),
        headers: two_headers("Location", redirect_url, "Content-Length", "0"),
        body: Vec::new(),
        compression_level: 0,
        header_len: 0,
    }
}

// ---------------------------------------------------------------------------
// Looking up actions

/// Whether some pattern of a URL action matches the URL.
pub open spec fn entry_matches(patterns: Seq<Seq<char>>, url: Seq<char>) -> bool {
    exists|j: int| 0 <= j < patterns.len() && url_matches(url, #[trigger] patterns[j])
}

fn entry_matches_exec(patterns: &Vec<String>, url: &str) -> (r: bool)
    ensures
        r == entry_matches(str_views(patterns@), url@),
{
    let mut j: usize = 0;
    while j < patterns.len()
        invariant
            j <= patterns.len(),
            forall|k: int| 0 <= k < j ==> !url_matches(url@, #[trigger] str_views(patterns@)[k]),
        decreases patterns.len() - j,
    {
        if url_matches_pattern(url, patterns[j].as_str()) {
            assert(url_matches(url@, str_views(patterns@)[j as int]));
            return true;
        }
        j += 1;
    }
    false
}

/// The actions of the first URL action with a pattern matching the URL.
pub open spec fn first_matching_action(entries: Seq<UrlAction>, url: Seq<char>) -> Option<ActionModel>
    decreases entries.len(),
{
    if entries.len() == 0 {
        None
    } else if entry_matches(str_views(entries[0].patterns@), url) {
        Some(entries[0].action@)
    } else {
        first_matching_action(entries.drop_first(), url)
    }
}

/// The actions for a URL: those of the first actions-file entry with a
/// matching pattern.
pub fn find_action_for_url(url: &str, config: &Config) -> (r: Option<Action>)
    ensures
        match first_matching_action(config.url_actions@, url@) {
            Some(a) => r matches Some(x) && x@ == a,
            None => r is None,
        },
{
    let ghost es = config.url_actions@;
    let mut i: usize = 0;
    assert(es.skip(0) =~= es);
    while i < config.url_actions.len()
        invariant
            i <= config.url_actions.len(),
            es == config.url_actions@,
            first_matching_action(es, url@) == first_matching_action(es.skip(i as int), url@),
        decreases config.url_actions.len() - i,
    {
        assert(es.skip(i as int)[0] == es[i as int]);
        assert(es.skip(i as int).drop_first() =~= es.skip(i as int + 1));
        if entry_matches_exec(&config.url_actions[i].patterns, url) {
            return Some(copy_action(&config.url_actions[i].action));
        }
        i += 1;
    }
    None
}

/// Whether a pattern `TAG:expr` names a tag: the expression compiles and
/// matches it.
pub open spec fn tag_pattern_matches(pattern: Seq<char>, tag: Seq<char>) -> bool {
    starts_with(pattern, "TAG:"@) && regex_error(pattern.subrange(4, pattern.len() as int)) is None
        && regex_matches(pattern.subrange(4, pattern.len() as int), tag)
}

pub open spec fn tag_entry_matches(patterns: Seq<Seq<char>>, tag: Seq<char>) -> bool {
    exists|j: int| 0 <= j < patterns.len() && tag_pattern_matches(#[trigger] patterns[j], tag)
}

/// The actions of the first entry with a `TAG:` pattern matching the tag.
pub open spec fn first_tag_action(entries: Seq<UrlAction>, tag: Seq<char>) -> Option<ActionModel>
    decreases entries.len(),
{
    if entries.len() == 0 {
        None
    } else if tag_entry_matches(str_views(entries[0].patterns@), tag) {
        Some(entries[0].action@)
    } else {
        first_tag_action(entries.drop_first(), tag)
    }
}

fn tag_pattern_matches_exec(pattern: &String, tag: &str) -> (r: bool)
    ensures
        r == tag_pattern_matches(pattern@, tag@),
{
    proof {
        reveal_strlit("TAG:");
    }
    if !str_starts_with(pattern.as_str(), "TAG:") {
        return false;
    }
    let v = chars_of(pattern.as_str());
    let re = from_chars(&slice_chars(&v, 4, v.len()));
    match regex_check(re.as_str()) {
        None => regex_is_match(re.as_str(), tag),
        Some(_) => false,
    }
}

fn tag_entry_matches_exec(patterns: &Vec<String>, tag: &str) -> (r: bool)
    ensures
        r == tag_entry_matches(str_views(patterns@), tag@),
{
    let mut j: usize = 0;
    while j < patterns.len()
        invariant
            j <= patterns.len(),
            forall|k: int| 0 <= k < j ==> !tag_pattern_matches(#[trigger] str_views(patterns@)[k], tag@),
        decreases patterns.len() - j,
    {
        if tag_pattern_matches_exec(&patterns[j], tag) {
            assert(tag_pattern_matches(str_views(patterns@)[j as int], tag@));
            return true;
        }
        j += 1;
    }
    false
}

/// The actions for a tag: those of the first entry with a matching `TAG:`
/// pattern.
pub fn find_action_for_tag(tag: &str, config: &Config) -> (r: Option<Action>)
    ensures
        match first_tag_action(config.url_actions@, tag@) {
            Some(a) => r matches Some(x) && x@ == a,
            None => r is None,
        },
{
    let ghost es = config.url_actions@;
    let mut i: usize = 0;
    assert(es.skip(0) =~= es);
    while i < config.url_actions.len()
        invariant
            i <= config.url_actions.len(),
            es == config.url_actions@,
            first_tag_action(es, tag@) == first_tag_action(es.skip(i as int), tag@),
        decreases config.url_actions.len() - i,
    {
        assert(es.skip(i as int)[0] == es[i as int]);
        assert(es.skip(i as int).drop_first() =~= es.skip(i as int + 1));
        if tag_entry_matches_exec(&config.url_actions[i].patterns, tag) {
            return Some(copy_action(&config.url_actions[i].action));
        }
        i += 1;
    }
    None
}

/// `target` followed by the items of `source` it does not hold yet.
pub open spec fn union_in_order(target: Seq<Seq<char>>, source: Seq<Seq<char>>) -> Seq<Seq<char>>
    decreases source.len(),
{
    if source.len() == 0 {
        target
    } else {
        let t = union_in_order(target, source.drop_last());
        if t.contains(source.last()) {
            t
        } else {
            t.push(source.last())
        }
    }
}

fn add_missing(target: &mut Vec<String>, source: &Vec<String>)
    ensures
        names_of(*final(target)) == union_in_order(names_of(*old(target)), names_of(*source)),
{
    proof {
        lemma_names_of(*target);
        lemma_names_of(*source);
    }
    let ghost sv = str_views(source@);
    let ghost start = str_views(target@);
    let mut i: usize = 0;
    assert(sv.take(0) =~= Seq::<Seq<char>>::empty());
    while i < source.len()
        invariant
            i <= source.len(),
            sv == str_views(source@),
            str_views(target@) == union_in_order(start, sv.take(i as int)),
        decreases source.len() - i,
    {
        proof {
            assert(sv.take(i as int + 1).drop_last() =~= sv.take(i as int));
            assert(sv.take(i as int + 1).last() == source@[i as int]@);
        }
        let mut found = false;
        let mut j: usize = 0;
        while j < target.len()
            invariant
                i < source.len(),
                j <= target.len(),
                found == exists|k: int| 0 <= k < j && #[trigger] str_views(target@)[k] == source@[i as int]@,
            decreases target.len() - j,
        {
            if str_eq(target[j].as_str(), source[i].as_str()) {
                assert(str_views(target@)[j as int] == source@[i as int]@);
                found = true;
            }
            j += 1;
        }
        if !found {
            let ghost before = target@;
            target.push(source[i].clone());
            assert(str_views(target@) =~= str_views(before).push(source@[i as int]@));
        }
        i += 1;
    }
    assert(sv.take(i as int) =~= sv);
    proof {
        lemma_names_of(*target);
    }
}

/// `target` with `source` merged in: blocking and redirection carry over,
/// and the filter names and header lists gain what they lack.
pub open spec fn merged(target: ActionModel, source: ActionModel) -> ActionModel {
    let t2 = merged_flags(target, source);
    ActionModel {
        filter_names: union_in_order(t2.filter_names, source.filter_names),
        add_headers: union_in_order(t2.add_headers, source.add_headers),
        crunch_client_headers: union_in_order(t2.crunch_client_headers, source.crunch_client_headers),
        crunch_server_headers: union_in_order(t2.crunch_server_headers, source.crunch_server_headers),
        ..t2
    }
}

/// `target` with the blocking of `source` carried over.
pub open spec fn merged_block(target: ActionModel, source: ActionModel) -> ActionModel {
    if source.block {
        ActionModel {
            block: true,
            block_reason: if source.block_reason is Some {
                source.block_reason
            } else {
                target.block_reason
            },
            ..target
        }
    } else {
        target
    }
}

/// `target` with the blocking and redirection of `source` carried over.
pub open spec fn merged_flags(target: ActionModel, source: ActionModel) -> ActionModel {
    let t1 = merged_block(target, source);
    if source.redirect is Some {
        ActionModel { redirect: source.redirect, ..t1 }
    } else {
        t1
    }
}

/// Merges `source` into `target`.
pub fn merge_actions(target: &mut Action, source: &Action)
    ensures
        final(target)@ == merged(old(target)@, source@),
{
    merge_flags(target, source);
    add_missing(&mut target.filter_names, &source.filter_names);
    add_missing(&mut target.add_headers, &source.add_headers);
    add_missing(&mut target.crunch_client_headers, &source.crunch_client_headers);
    add_missing(&mut target.crunch_server_headers, &source.crunch_server_headers);
}

fn merge_flags(target: &mut Action, source: &Action)
    ensures
        final(target)@ == merged_flags(old(target)@, source@),
{
    merge_block(target, source);
    match &source.redirect {
        Some(r) => {
            target.redirect = Some(r.clone());
        },
        None => {},
    }
}

fn merge_block(target: &mut Action, source: &Action)
    ensures
        final(target)@ == merged_block(old(target)@, source@),
{
    if source.block {
        target.block = true;
        match &source.block_reason {
            Some(r) => {
                target.block_reason = Some(r.clone());
            },
            None => {},
        }
    }
}

// ---------------------------------------------------------------------------
// Tags

/// The tags a request carries and the tags whose actions are suppressed.
pub struct ActionContext {
    pub tags: Vec<String>,
    pub suppress_tags: Vec<String>,
}

impl Default for ActionContext {
    fn default() -> (r: Self)
        ensures
            r.tags@.len() == 0,
            r.suppress_tags@.len() == 0,
    {
        ActionContext { tags: Vec::new(), suppress_tags: Vec::new() }
    }
}

/// `a` with the actions of each tag merged in, in order, skipping the
/// suppressed tags and the tags that no entry names.
pub open spec fn tags_merged(
    a: ActionModel,
    tags: Seq<Seq<char>>,
    suppressed: Seq<Seq<char>>,
    entries: Seq<UrlAction>,
) -> ActionModel
    decreases tags.len(),
{
    if tags.len() == 0 {
        a
    } else {
        let before = tags_merged(a, tags.drop_last(), suppressed, entries);
        let t = tags.last();
        if suppressed.contains(t) {
            before
        } else {
            match first_tag_action(entries, t) {
                Some(ta) => merged(before, ta),
                None => before,
            }
        }
    }
}

fn holds_name(v: &Vec<String>, x: &str) -> (r: bool)
    ensures
        r == str_views(v@).contains(x@),
{
    let mut i: usize = 0;
    while i < v.len()
        invariant
            i <= v.len(),
            forall|k: int| 0 <= k < i ==> str_views(v@)[k] != x@,
        decreases v.len() - i,
    {
        if str_eq(v[i].as_str(), x) {
            assert(str_views(v@)[i as int] == x@);
            return true;
        }
        i += 1;
    }
    false
}

/// The actions for a URL, with the actions of the request's tags merged
/// in (tags in `suppress_tags` are skipped).
pub fn find_action_for_url_with_tags(url: &str, config: &Config, ctx: &ActionContext) -> (r: Option<Action>)
    ensures
        match first_matching_action(config.url_actions@, url@) {
            Some(a) => r matches Some(x) && x@ == tags_merged(
                a,
                str_views(ctx.tags@),
                str_views(ctx.suppress_tags@),
                config.url_actions@,
            ),
            None => r is None,
        },
{
    let mut action = match find_action_for_url(url, config) {
        Some(a) => a,
        None => {
            return None;
        },
    };
    let ghost start = action@;
    let ghost tv = str_views(ctx.tags@);
    let ghost sv = str_views(ctx.suppress_tags@);
    let mut i: usize = 0;
    assert(tv.take(0) =~= Seq::<Seq<char>>::empty());
    while i < ctx.tags.len()
        invariant
            i <= ctx.tags@.len(),
            tv == str_views(ctx.tags@),
            sv == str_views(ctx.suppress_tags@),
            action@ == tags_merged(start, tv.take(i as int), sv, config.url_actions@),
        decreases ctx.tags.len() - i,
    {
        assert(tv.take(i + 1).drop_last() =~= tv.take(i as int));
        assert(tv.take(i + 1).last() == ctx.tags@[i as int]@);
        let tag = ctx.tags[i].as_str();
        if !holds_name(&ctx.suppress_tags, tag) {
            match find_action_for_tag(tag, config) {
                Some(tag_action) => {
                    merge_actions(&mut action, &tag_action);
                },
                None => {},
            }
        }
        i += 1;
    }
    assert(tv.take(ctx.tags@.len() as int) =~= tv);
    Some(action)
}

} // verus!
