//! HTTP messages: header lists, requests and responses.
//!
//! A header list is a `Vec` of `(name, value)` pairs that keeps the order in
//! which the headers came and allows a name to occur more than once.  Names
//! are compared without regard to ASCII case.  Its model is the sequence of
//! the pairs' views, and every operation is stated over that sequence.

use vstd::prelude::*;
use vstd::slice::slice_to_vec;
use crate::text::{
    eq_ic, decimal, find_char, rfind_char, parse_unsigned, chars_of, str_eq_ic, push_str,
    push_decimal, own, sub_string, slice_chars, find_char_exec, rfind_char_exec, parse_u16, str_eq,
    occurs_at, lemma_find_from_skip, lemma_parse_decimal,
};
use crate::error::{PrivoxyError, PrivoxyResult};
use crate::compression::COMPRESSION_LEVEL_DEFAULT;
use crate::bindings::{
    parse_request_head, parse_response_head, request_head, response_head, utf8_lossy,
    lossy_utf8, string_from_utf8,
};
use vstd::utf8::{valid_utf8, decode_utf8, encode_utf8};

verus! {

/// An ordered list of headers.
pub type Headers = Vec<(String, String)>;

/// The model of a header list.
pub open spec fn header_view(h: Seq<(String, String)>) -> Seq<(Seq<char>, Seq<char>)> {
    h.map_values(|p: (String, String)| (p.0@, p.1@))
}

/// The values of the headers named `name`, in order.
pub open spec fn values_named(h: Seq<(Seq<char>, Seq<char>)>, name: Seq<char>) -> Seq<Seq<char>>
    decreases h.len(),
{
    if h.len() == 0 {
        Seq::empty()
    } else {
        let prev = values_named(h.drop_last(), name);
        if eq_ic(h.last().0, name) {
            prev.push(h.last().1)
        } else {
            prev
        }
    }
}

/// The headers whose name is not `name`, in order.
pub open spec fn without_named(h: Seq<(Seq<char>, Seq<char>)>, name: Seq<char>) -> Seq<
    (Seq<char>, Seq<char>),
>
    decreases h.len(),
{
    if h.len() == 0 {
        Seq::empty()
    } else {
        let prev = without_named(h.drop_last(), name);
        if eq_ic(h.last().0, name) {
            prev
        } else {
            prev.push(h.last())
        }
    }
}

/// The value of the first header named `name`.
pub open spec fn first_named(h: Seq<(Seq<char>, Seq<char>)>, name: Seq<char>) -> Option<Seq<char>> {
    let v = values_named(h, name);
    if v.len() > 0 {
        Some(v[0])
    } else {
        None
    }
}

pub open spec fn opt_ref_view(o: Option<&String>) -> Option<Seq<char>> {
    match o {
        Some(s) => Some(s@),
        None => None,
    }
}

pub open spec fn opt_view(o: Option<String>) -> Option<Seq<char>> {
    match o {
        Some(s) => Some(s@),
        None => None,
    }
}

pub proof fn lemma_values_named_concat(a: Seq<(Seq<char>, Seq<char>)>, b: Seq<(Seq<char>, Seq<char>)>, name: Seq<char>)
    ensures
        values_named(a + b, name) == values_named(a, name) + values_named(b, name),
    decreases b.len(),
{
    if b.len() == 0 {
        assert(a + b =~= a);
        assert(values_named(b, name) =~= Seq::<Seq<char>>::empty());
        assert(values_named(a, name) + values_named(b, name) =~= values_named(a, name));
    } else {
        lemma_values_named_concat(a, b.drop_last(), name);
        assert((a + b).drop_last() =~= a + b.drop_last());
        assert((a + b).last() == b.last());
        if eq_ic(b.last().0, name) {
            assert(values_named(a, name) + values_named(b.drop_last(), name).push(b.last().1)
                =~= (values_named(a, name) + values_named(b.drop_last(), name)).push(b.last().1));
        }
    }
}

pub proof fn lemma_without_named_concat(a: Seq<(Seq<char>, Seq<char>)>, b: Seq<(Seq<char>, Seq<char>)>, name: Seq<char>)
    ensures
        without_named(a + b, name) == without_named(a, name) + without_named(b, name),
    decreases b.len(),
{
    if b.len() == 0 {
        assert(a + b =~= a);
        assert(without_named(a, name) + without_named(b, name) =~= without_named(a, name));
    } else {
        lemma_without_named_concat(a, b.drop_last(), name);
        assert((a + b).drop_last() =~= a + b.drop_last());
        if !eq_ic(b.last().0, name) {
            assert(without_named(a, name) + without_named(b.drop_last(), name).push(b.last())
                =~= (without_named(a, name) + without_named(b.drop_last(), name)).push(b.last()));
        }
    }
}

/// The first header value named `name` (ASCII case-insensitive).
pub fn get_header<'a>(headers: &'a Headers, name: &str) -> (r: Option<&'a String>)
    ensures
        opt_ref_view(r) == first_named(header_view(headers@), name@),
{
    let ghost hv = header_view(headers@);
    let mut i: usize = 0;
    while i < headers.len()
        invariant
            i <= headers.len(),
            hv == header_view(headers@),
            values_named(hv.take(i as int), name@) == Seq::<Seq<char>>::empty(),
        decreases headers.len() - i,
    {
        if str_eq_ic(headers[i].0.as_str(), name) {
            proof {
                assert(hv.take(i as int + 1).drop_last() =~= hv.take(i as int));
                assert(values_named(hv.take(i as int + 1), name@) =~= seq![hv[i as int].1]);
                lemma_values_named_concat(hv.take(i as int + 1), hv.skip(i as int + 1), name@);
                assert(hv.take(i as int + 1) + hv.skip(i as int + 1) =~= hv);
            }
            return Some(&headers[i].1);
        }
        proof {
            assert(hv.take(i as int + 1).drop_last() =~= hv.take(i as int));
        }
        i += 1;
    }
    assert(hv.take(i as int) =~= hv);
    None
}

/// All header values named `name` (ASCII case-insensitive), in order.
pub fn get_all_headers<'a>(headers: &'a Headers, name: &str) -> (r: Vec<&'a String>)
    ensures
        r@.map_values(|s: &String| s@) == values_named(header_view(headers@), name@),
{
    let ghost hv = header_view(headers@);
    let mut r: Vec<&'a String> = Vec::new();
    let mut i: usize = 0;
    while i < headers.len()
        invariant
            i <= headers.len(),
            hv == header_view(headers@),
            r@.map_values(|s: &String| s@) == values_named(hv.take(i as int), name@),
        decreases headers.len() - i,
    {
        proof {
            assert(hv.take(i as int + 1).drop_last() =~= hv.take(i as int));
        }
        if str_eq_ic(headers[i].0.as_str(), name) {
            let ghost before = r@;
            r.push(&headers[i].1);
            assert(r@.map_values(|s: &String| s@) =~= before.map_values(|s: &String| s@).push(
                headers@[i as int].1@,
            ));
        }
        i += 1;
    }
    assert(hv.take(i as int) =~= hv);
    r
}

/// Removes every header named `name` (ASCII case-insensitive).
pub fn remove_header(headers: &mut Headers, name: &str)
    ensures
        header_view(final(headers)@) == without_named(header_view(old(headers)@), name@),
{
    let ghost hv = header_view(headers@);
    let mut kept: Headers = Vec::new();
    let mut i: usize = 0;
    while i < headers.len()
        invariant
            i <= headers.len(),
            hv == header_view(headers@),
            header_view(kept@) == without_named(hv.take(i as int), name@),
        decreases headers.len() - i,
    {
        proof {
            assert(hv.take(i as int + 1).drop_last() =~= hv.take(i as int));
        }
        if !str_eq_ic(headers[i].0.as_str(), name) {
            let ghost before = kept@;
            kept.push((headers[i].0.clone(), headers[i].1.clone()));
            assert(header_view(kept@) =~= header_view(before).push(hv[i as int]));
        }
        i += 1;
    }
    assert(hv.take(i as int) =~= hv);
    *headers = kept;
}

/// Replaces every header named `name` by one header `name: value`, placed last.
pub fn set_header(headers: &mut Headers, name: &str, value: &str)
    ensures
        header_view(final(headers)@) == without_named(header_view(old(headers)@), name@).push(
            (name@, value@),
        ),
{
    remove_header(headers, name);
    let ghost before = headers@;
    headers.push((own(name), own(value)));
    assert(header_view(headers@) =~= header_view(before).push((name@, value@)));
}

/// Appends the header `name: value`, keeping the others.
pub fn add_header(headers: &mut Headers, name: &str, value: &str)
    ensures
        header_view(final(headers)@) == header_view(old(headers)@).push((name@, value@)),
{
    let ghost before = headers@;
    headers.push((own(name), own(value)));
    assert(header_view(headers@) =~= header_view(before).push((name@, value@)));
}

/// The header lines of a message, each `name: value` and CRLF.
pub open spec fn header_lines(h: Seq<(Seq<char>, Seq<char>)>) -> Seq<char>
    decreases h.len(),
{
    if h.len() == 0 {
        Seq::empty()
    } else {
        header_lines(h.drop_last()) + h.last().0 + ": "@ + h.last().1 + "\r\n"@
    }
}

/// Appends the header lines of `headers` to `s`.
fn push_header_lines(s: &mut String, headers: &Headers)
    ensures
        final(s)@ == old(s)@ + header_lines(header_view(headers@)),
{
    let ghost hv = header_view(headers@);
    let ghost start = s@;
    let mut i: usize = 0;
    while i < headers.len()
        invariant
            i <= headers.len(),
            hv == header_view(headers@),
            s@ == start + header_lines(hv.take(i as int)),
        decreases headers.len() - i,
    {
        proof {
            assert(hv.take(i as int + 1).drop_last() =~= hv.take(i as int));
            reveal_strlit(": ");
            reveal_strlit("\r\n");
        }
        push_str(s, headers[i].0.as_str());
        push_str(s, ": ");
        push_str(s, headers[i].1.as_str());
        push_str(s, "\r\n");
        assert(s@ =~= start + header_lines(hv.take(i as int + 1)));
        i += 1;
    }
    assert(hv.take(i as int) =~= hv);
}

/// `HTTP/1.` followed by the minor version.
pub open spec fn version_text(v: u8) -> Seq<char> {
    "HTTP/1."@ + decimal(v as nat)
}

fn version_string(v: u8) -> (r: String)
    ensures
        r@ == version_text(v),
{
    let mut r = String::new();
    push_str(&mut r, "HTTP/1.");
    push_decimal(&mut r, v as u64);
    r
}

// ---------------------------------------------------------------------------
// What the HTTP head parser reports

/// How far the parser got through a message head.
pub enum HeadStatus {
    /// The head is complete; the body starts at this byte offset.
    Complete(usize),
    /// More bytes are needed.
    Partial,
    /// The head is malformed; the text names the fault.
    Failed(String),
}

pub enum HeadStatusView {
    Complete(usize),
    Partial,
    Failed(Seq<char>),
}

/// A message head as the parser reports it: the request line or status
/// line fields it found, and each header's name and raw value bytes.
pub struct RawHead {
    pub status: HeadStatus,
    pub method: Option<String>,
    pub path: Option<String>,
    pub version: Option<u8>,
    pub code: Option<u16>,
    pub reason: Option<String>,
    pub headers: Vec<(String, Vec<u8>)>,
}

pub struct RawHeadView {
    pub status: HeadStatusView,
    pub method: Option<Seq<char>>,
    pub path: Option<Seq<char>>,
    pub version: Option<u8>,
    pub code: Option<u16>,
    pub reason: Option<Seq<char>>,
    pub headers: Seq<(Seq<char>, Seq<u8>)>,
}

impl View for HeadStatus {
    type V = HeadStatusView;

    open spec fn view(&self) -> HeadStatusView {
        match self {
            HeadStatus::Complete(n) => HeadStatusView::Complete(*n),
            HeadStatus::Partial => HeadStatusView::Partial,
            HeadStatus::Failed(s) => HeadStatusView::Failed(s@),
        }
    }
}

pub open spec fn raw_header_view(h: Seq<(String, Vec<u8>)>) -> Seq<(Seq<char>, Seq<u8>)> {
    h.map_values(|p: (String, Vec<u8>)| (p.0@, p.1@))
}

impl View for RawHead {
    type V = RawHeadView;

    open spec fn view(&self) -> RawHeadView {
        RawHeadView {
            status: self.status@,
            method: opt_view(self.method),
            path: opt_view(self.path),
            version: self.version,
            code: self.code,
            reason: opt_view(self.reason),
            headers: raw_header_view(self.headers@),
        }
    }
}

/// The most headers a message head may carry.
pub const MAX_HEADERS: usize = 32;

/// The headers whose value is valid UTF-8, with the value decoded.
pub open spec fn decoded_headers(h: Seq<(Seq<char>, Seq<u8>)>) -> Seq<(Seq<char>, Seq<char>)>
    decreases h.len(),
{
    if h.len() == 0 {
        Seq::empty()
    } else {
        let prev = decoded_headers(h.drop_last());
        if valid_utf8(h.last().1) {
            prev.push((h.last().0, decode_utf8(h.last().1)))
        } else {
            prev
        }
    }
}

/// Converts the raw headers, skipping those whose value is not UTF-8.
fn decode_headers(raw: &Vec<(String, Vec<u8>)>) -> (r: Headers)
    ensures
        header_view(r@) == decoded_headers(raw_header_view(raw@)),
{
    let ghost rv = raw_header_view(raw@);
    let mut r: Headers = Vec::new();
    let mut i: usize = 0;
    while i < raw.len()
        invariant
            i <= raw.len(),
            rv == raw_header_view(raw@),
            header_view(r@) == decoded_headers(rv.take(i as int)),
        decreases raw.len() - i,
    {
        proof {
            assert(rv.take(i as int + 1).drop_last() =~= rv.take(i as int));
        }
        let value = string_from_utf8(raw[i].1.clone());
        match value {
            Some(v) => {
                let ghost before = r@;
                r.push((raw[i].0.clone(), v));
                assert(header_view(r@) =~= header_view(before).push(
                    (rv[i as int].0, decode_utf8(rv[i as int].1)),
                ));
            },
            None => {},
        }
        i += 1;
    }
    assert(rv.take(i as int) =~= rv);
    r
}

// ---------------------------------------------------------------------------
// Requests

/// A client's request.
pub struct HttpRequest {
    /// The request line as sent.
    pub cmd: String,
    pub method: String,
    pub url: String,
    pub version: String,
    pub headers: Headers,
    pub body: Option<Vec<u8>>,
    pub host: String,
    pub port: u16,
    pub is_ssl: bool,
    pub path: String,
}

pub struct RequestModel {
    pub cmd: Seq<char>,
    pub method: Seq<char>,
    pub url: Seq<char>,
    pub version: Seq<char>,
    pub headers: Seq<(Seq<char>, Seq<char>)>,
    pub body: Option<Seq<u8>>,
    pub host: Seq<char>,
    pub port: u16,
    pub is_ssl: bool,
    pub path: Seq<char>,
}

pub open spec fn opt_bytes_view(o: Option<Vec<u8>>) -> Option<Seq<u8>> {
    match o {
        Some(b) => Some(b@),
        None => None,
    }
}

impl View for HttpRequest {
    type V = RequestModel;

    open spec fn view(&self) -> RequestModel {
        RequestModel {
            cmd: self.cmd@,
            method: self.method@,
            url: self.url@,
            version: self.version@,
            headers: header_view(self.headers@),
            body: opt_bytes_view(self.body),
            host: self.host@,
            port: self.port,
            is_ssl: self.is_ssl,
            path: self.path@,
        }
    }
}

/// A `u16` in decimal, or `default` where the text is not one.
pub open spec fn port_or(s: Seq<char>, default: u16) -> u16 {
    match parse_unsigned(s, 65535) {
        Some(n) => n as u16,
        None => default,
    }
}

/// Host and port taken from a `Host` header value.
pub open spec fn host_header_target(v: Seq<char>, host: Seq<char>, port: u16) -> (Seq<char>, u16) {
    match find_char(v, ':') {
        Some(c) => (v.subrange(0, c), port_or(v.subrange(c + 1, v.len() as int), 80)),
        None => (v, port),
    }
}

/// Host and port after reading the headers in order: each `Host` header
/// with a UTF-8 value sets them.
pub open spec fn host_from_headers(h: Seq<(Seq<char>, Seq<u8>)>) -> (Seq<char>, u16)
    decreases h.len(),
{
    if h.len() == 0 {
        (Seq::empty(), 80)
    } else {
        let prev = host_from_headers(h.drop_last());
        if valid_utf8(h.last().1) && eq_ic(h.last().0, "Host"@) {
            host_header_target(decode_utf8(h.last().1), prev.0, prev.1)
        } else {
            prev
        }
    }
}

/// A `Host` value `h:p`, where `h` holds no colon and `p` is a port number
/// in decimal, names host `h` and port `p`, whatever was set before.
pub proof fn law_host_header_port(h: Seq<char>, port: u16, host: Seq<char>, prev_port: u16)
    requires
        !h.contains(':'),
    ensures
        host_header_target(h + ":"@ + decimal(port as nat), host, prev_port) == (h, port),
{
    reveal_strlit(":");
    let v = h + ":"@ + decimal(port as nat);
    let colon = seq![':'];
    assert forall|j: int| 0 <= j < h.len() implies !occurs_at(v, colon, j) by {
        if occurs_at(v, colon, j) {
            assert(v.subrange(j, j + 1)[0] == v[j]);
            assert(h[j] == ':');
        }
    }
    lemma_find_from_skip(v, colon, 0, h.len() as int);
    assert(v.subrange(h.len() as int, h.len() + 1int) =~= colon);
    assert(find_char(v, ':') == Some(h.len() as int));
    assert(v.subrange(0, h.len() as int) =~= h);
    assert(v.subrange(h.len() + 1int, v.len() as int) =~= decimal(port as nat));
    lemma_parse_decimal(port as nat, 65535);
}

/// The last `Host` header decides the target: after any headers, a `Host`
/// header (in any case) reading `h:p`, with no colon in `h` and `p` a port
/// number in decimal, gives host `h` and port `p`.
pub proof fn law_last_host_header_decides(
    hs: Seq<(Seq<char>, Seq<u8>)>,
    name: Seq<char>,
    h: Seq<char>,
    port: u16,
)
    requires
        eq_ic(name, "Host"@),
        !h.contains(':'),
    ensures
        host_from_headers(hs.push((name, encode_utf8(h + ":"@ + decimal(port as nat))))) == (h, port),
{
    let v = h + ":"@ + decimal(port as nat);
    let all = hs.push((name, encode_utf8(v)));
    assert(all.drop_last() =~= hs);
    vstd::utf8::encode_utf8_valid_utf8(v);
    vstd::utf8::encode_utf8_decode_utf8(v);
    let prev = host_from_headers(hs);
    law_host_header_port(h, port, prev.0, prev.1);
}

/// The target of a `CONNECT` request: `host:port`, port 443 by default.
pub open spec fn connect_target(path: Seq<char>) -> (Seq<char>, u16) {
    match rfind_char(path, ':') {
        Some(c) => (path.subrange(0, c), port_or(path.subrange(c + 1, path.len() as int), 443)),
        None => (path, 443),
    }
}

/// Index of the first CR or LF byte.
pub open spec fn first_line_end(data: Seq<u8>) -> Option<int> {
    if exists|i: int| 0 <= i < data.len() && (data[i] == 13 || data[i] == 10) {
        Some(
            choose|i: int|
                0 <= i < data.len() && (data[i] == 13 || data[i] == 10) && forall|j: int|
                    0 <= j < i ==> data[j] != 13 && data[j] != 10,
        )
    } else {
        None
    }
}

pub open spec fn opt_text(o: Option<Seq<char>>) -> Seq<char> {
    match o {
        Some(s) => s,
        None => Seq::empty(),
    }
}

/// The request that a complete head and its data give.
pub open spec fn request_model(data: Seq<u8>, head: RawHeadView, n: int) -> RequestModel {
    let method = opt_text(head.method);
    let path = opt_text(head.path);
    let is_ssl = method == "CONNECT"@;
    let target = if is_ssl {
        connect_target(path)
    } else {
        host_from_headers(head.headers)
    };
    RequestModel {
        cmd: match first_line_end(data) {
            Some(p) => lossy_utf8(data.subrange(0, p)),
            None => Seq::empty(),
        },
        method,
        url: path,
        version: match head.version {
            Some(v) => version_text(v),
            None => Seq::empty(),
        },
        headers: decoded_headers(head.headers),
        body: if data.len() > n {
            Some(data.subrange(n, data.len() as int))
        } else {
            None
        },
        host: target.0,
        port: target.1,
        is_ssl,
        path,
    }
}

fn first_line_end_exec(data: &[u8]) -> (r: Option<usize>)
    ensures
        match r {
            Some(p) => first_line_end(data@) == Some(p as int) && p < data.len(),
            None => first_line_end(data@) is None,
        },
{
    let mut i: usize = 0;
    while i < data.len()
        invariant
            i <= data.len(),
            forall|j: int| 0 <= j < i ==> data@[j] != 13 && data@[j] != 10,
        decreases data.len() - i,
    {
        if data[i] == 13 || data[i] == 10 {
            let ghost p = choose|k: int|
                0 <= k < data@.len() && (data@[k] == 13 || data@[k] == 10) && forall|j: int|
                    0 <= j < k ==> data@[j] != 13 && data@[j] != 10;
            assert(0 <= i < data@.len() && (data@[i as int] == 13 || data@[i as int] == 10));
            assert(p == i) by {
                if p < i {
                    assert(data@[p] != 13 && data@[p] != 10);
                } else if p > i {
                    assert(data@[i as int] != 13 && data@[i as int] != 10);
                }
            }
            return Some(i);
        }
        i += 1;
    }
    None
}

fn opt_string(o: &Option<String>) -> (r: String)
    ensures
        r@ == opt_text(opt_view(*o)),
{
    match o {
        Some(s) => s.clone(),
        None => String::new(),
    }
}

fn port_or_exec(v: &[char], default: u16) -> (r: u16)
    ensures
        r == port_or(v@, default),
{
    match parse_u16(v) {
        Some(n) => n,
        None => default,
    }
}

impl HttpRequest {
    /// An empty request for port 80.
    pub fn new() -> (r: Self)
        ensures
            r@.cmd.len() == 0 && r@.method.len() == 0 && r@.url.len() == 0,
            r@.version.len() == 0 && r@.headers.len() == 0 && r@.body is None,
            r@.host.len() == 0 && r@.port == 80 && !r@.is_ssl && r@.path.len() == 0,
    {
        HttpRequest {
            cmd: String::new(),
            method: String::new(),
            url: String::new(),
            version: String::new(),
            headers: Vec::new(),
            body: None,
            host: String::new(),
            port: 80,
            is_ssl: false,
            path: String::new(),
        }
    }

    /// Builds the request from the data and what the head parser reported
    /// on it.  A partial or malformed head is an HTTP error.
    pub fn from_head(data: &[u8], head: RawHead) -> (r: PrivoxyResult<Self>)
        ensures
            match head@.status {
                HeadStatusView::Complete(n) => n <= data@.len() ==> (r matches Ok(req) && req@
                    == request_model(data@, head@, n as int)),
                HeadStatusView::Partial => r matches Err(PrivoxyError::Http(m)) && m@
                    == "Incomplete HTTP request"@,
                HeadStatusView::Failed(e) => r matches Err(PrivoxyError::Http(m)) && m@
                    == "Failed to parse HTTP request: "@ + e,
            },
    {
        let n = match &head.status {
            HeadStatus::Complete(n) => *n,
            HeadStatus::Partial => {
                return Err(PrivoxyError::Http("Incomplete HTTP request".to_string()));
            },
            HeadStatus::Failed(e) => {
                let mut m = String::new();
                push_str(&mut m, "Failed to parse HTTP request: ");
                push_str(&mut m, e.as_str());
                return Err(PrivoxyError::Http(m));
            },
        };
        if n > data.len() {
            return Err(PrivoxyError::Http("Incomplete HTTP request".to_string()));
        }
        let ghost hv = head@;
        let cmd = request_line_text(data);
        let method = opt_string(&head.method);
        let path = opt_string(&head.path);
        let version = match head.version {
            Some(v) => version_string(v),
            None => String::new(),
        };
        let headers = decode_headers(&head.headers);
        let (is_ssl, host, port) = request_target(&method, &path, &head.headers);
        let body = if data.len() > n {
            Some(copy_bytes(data, n, data.len()))
        } else {
            None
        };
        let req = HttpRequest {
            cmd,
            method,
            url: path.clone(),
            version,
            headers,
            body,
            host,
            port,
            is_ssl,
            path,
        };
        assert(req@ == request_model(data@, hv, n as int));
        Ok(req)
    }

    /// Parses a request head (and the body bytes that follow it).
    pub fn parse(data: &[u8]) -> (r: PrivoxyResult<Self>)
        ensures
            ({
                let head = request_head(data@, MAX_HEADERS);
                match head.status {
                    HeadStatusView::Complete(n) => r matches Ok(req) && req@ == request_model(
                        data@,
                        head,
                        n as int,
                    ),
                    HeadStatusView::Partial => r matches Err(PrivoxyError::Http(m)) && m@
                        == "Incomplete HTTP request"@,
                    HeadStatusView::Failed(e) => r matches Err(PrivoxyError::Http(m)) && m@
                        == "Failed to parse HTTP request: "@ + e,
                }
            }),
    {
        let head = parse_request_head(data, MAX_HEADERS);
        Self::from_head(data, head)
    }

    pub fn get_header(&self, name: &str) -> (r: Option<&String>)
        ensures
            opt_ref_view(r) == first_named(self@.headers, name@),
    {
        get_header(&self.headers, name)
    }

    pub fn get_all_headers(&self, name: &str) -> (r: Vec<&String>)
        ensures
            r@.map_values(|s: &String| s@) == values_named(self@.headers, name@),
    {
        get_all_headers(&self.headers, name)
    }

    pub fn set_header(&mut self, name: &str, value: &str)
        ensures
            final(self)@ == (RequestModel {
                headers: without_named(old(self)@.headers, name@).push((name@, value@)),
                ..old(self)@
            }),
    {
        set_header(&mut self.headers, name, value);
    }

    pub fn add_header(&mut self, name: &str, value: &str)
        ensures
            final(self)@ == (RequestModel {
                headers: old(self)@.headers.push((name@, value@)),
                ..old(self)@
            }),
    {
        add_header(&mut self.headers, name, value);
    }

    pub fn remove_header(&mut self, name: &str)
        ensures
            final(self)@ == (RequestModel {
                headers: without_named(old(self)@.headers, name@),
                ..old(self)@
            }),
    {
        remove_header(&mut self.headers, name);
    }

    pub fn is_get(&self) -> (r: bool)
        ensures
            r == (self.method@ == "GET"@),
    {
        str_eq(self.method.as_str(), "GET")
    }

    pub fn is_post(&self) -> (r: bool)
        ensures
            r == (self.method@ == "POST"@),
    {
        str_eq(self.method.as_str(), "POST")
    }

    /// The request line, the header lines and the blank line, encoded as UTF-8,
    /// then the body.
    pub fn to_bytes(&self) -> (r: Vec<u8>)
        ensures
            r@ == encode_utf8(
                self.method@ + " "@ + self.path@ + " "@ + self.version@ + "\r\n"@ + header_lines(
                    self@.headers,
                ) + "\r\n"@,
            ) + match self.body {
                Some(b) => b@,
                None => Seq::empty(),
            },
    {
        let mut head = String::new();
        push_str(&mut head, self.method.as_str());
        push_str(&mut head, " ");
        push_str(&mut head, self.path.as_str());
        push_str(&mut head, " ");
        push_str(&mut head, self.version.as_str());
        push_str(&mut head, "\r\n");
        push_header_lines(&mut head, &self.headers);
        push_str(&mut head, "\r\n");
        let mut out = slice_to_vec(head.as_str().as_bytes());
        match &self.body {
            Some(b) => {
                append_bytes(&mut out, b);
            },
            None => {},
        }
        out
    }
}

/// The request line: the data before the first CR or LF, decoded.
fn request_line_text(data: &[u8]) -> (r: String)
    ensures
        r@ == match first_line_end(data@) {
            Some(p) => lossy_utf8(data@.subrange(0, p)),
            None => Seq::empty(),
        },
{
    match first_line_end_exec(data) {
        Some(p) => {
            let line = copy_bytes(data, 0, p);
            utf8_lossy(&line)
        },
        None => String::new(),
    }
}

/// Whether the request is a `CONNECT`, and its target host and port.
fn request_target(method: &String, path: &String, raw: &Vec<(String, Vec<u8>)>) -> (r: (bool, String, u16))
    ensures
        r.0 == (method@ == "CONNECT"@),
        (r.1@, r.2) == if r.0 {
            connect_target(path@)
        } else {
            host_from_headers(raw_header_view(raw@))
        },
{
    let is_ssl = str_eq(method.as_str(), "CONNECT");
    if is_ssl {
        let pv = chars_of(path.as_str());
        match rfind_char_exec(&pv, ':') {
            Some(c) => (true, sub_string(&pv, 0, c), port_or_exec(&slice_chars(&pv, c + 1, pv.len()), 443)),
            None => (true, path.clone(), 443u16),
        }
    } else {
        let (h, p) = host_from_raw_headers(raw);
        (false, h, p)
    }
}

// ---------------------------------------------------------------------------
// Responses

/// A server's (or the proxy's own) response.
pub struct HttpResponse {
    pub version: String,
    pub status_code: u16,
    pub status_text: String,
    pub headers: Headers,
    pub body: Vec<u8>,
    pub compression_level: u8,
    /// Length of the head in the raw response it was parsed from.
    pub header_len: usize,
}

pub struct ResponseModel {
    pub version: Seq<char>,
    pub status_code: u16,
    pub status_text: Seq<char>,
    pub headers: Seq<(Seq<char>, Seq<char>)>,
    pub body: Seq<u8>,
    pub compression_level: u8,
    pub header_len: usize,
}

impl View for HttpResponse {
    type V = ResponseModel;

    open spec fn view(&self) -> ResponseModel {
        ResponseModel {
            version: self.version@,
            status_code: self.status_code,
            status_text: self.status_text@,
            headers: header_view(self.headers@),
            body: self.body@,
            compression_level: self.compression_level,
            header_len: self.header_len,
        }
    }
}

/// The response that a complete head and its data give.
pub open spec fn response_model(data: Seq<u8>, head: RawHeadView, n: int) -> ResponseModel {
    ResponseModel {
        version: match head.version {
            Some(v) => version_text(v),
            None => "HTTP/1.1"@,
        },
        status_code: match head.code {
            Some(c) => c,
            None => 200,
        },
        status_text: match head.reason {
            Some(r) => r,
            None => "OK"@,
        },
        headers: decoded_headers(head.headers),
        body: if data.len() > n {
            data.subrange(n, data.len() as int)
        } else {
            Seq::empty()
        },
        compression_level: COMPRESSION_LEVEL_DEFAULT,
        header_len: n as usize,
    }
}

/// The status line, the header lines and the blank line.
pub open spec fn response_head_text(r: ResponseModel) -> Seq<char> {
    r.version + " "@ + decimal(r.status_code as nat) + " "@ + r.status_text + "\r\n"@
        + header_lines(r.headers) + "\r\n"@
}

impl HttpResponse {
    /// An empty `HTTP/1.1 200 OK` response.
    pub fn new() -> (r: Self)
        ensures
            r@ == (ResponseModel {
                version: "HTTP/1.1"@,
                status_code: 200,
                status_text: "OK"@,
                headers: Seq::empty(),
                body: Seq::empty(),
                compression_level: COMPRESSION_LEVEL_DEFAULT,
                header_len: 0,
            }),
    {
        let r = HttpResponse {
            version: "HTTP/1.1".to_string(),
            status_code: 200,
            status_text: "OK".to_string(),
            headers: Vec::new(),
            body: Vec::new(),
            compression_level: COMPRESSION_LEVEL_DEFAULT,
            header_len: 0,
        };
        assert(header_view(r.headers@) =~= Seq::<(Seq<char>, Seq<char>)>::empty());
        r
    }

    /// An empty response with the given status.
    pub fn with_status(status_code: u16, status_text: &str) -> (r: Self)
        ensures
            r@ == (ResponseModel {
                version: "HTTP/1.1"@,
                status_code,
                status_text: status_text@,
                headers: Seq::empty(),
                body: Seq::empty(),
                compression_level: COMPRESSION_LEVEL_DEFAULT,
                header_len: 0,
            }),
    {
        let mut r = Self::new();
        r.status_code = status_code;
        r.status_text = own(status_text);
        r
    }

    /// Builds the response from the data and what the head parser reported
    /// on it.  A partial or malformed head is an HTTP error.
    pub fn from_head(data: &[u8], head: RawHead) -> (r: PrivoxyResult<Self>)
        ensures
            match head@.status {
                HeadStatusView::Complete(n) => n <= data@.len() ==> (r matches Ok(resp) && resp@
                    == response_model(data@, head@, n as int)),
                HeadStatusView::Partial => r matches Err(PrivoxyError::Http(m)) && m@
                    == "Incomplete HTTP response"@,
                HeadStatusView::Failed(e) => r matches Err(PrivoxyError::Http(m)) && m@
                    == "Failed to parse HTTP response: "@ + e,
            },
    {
        let n = match &head.status {
            HeadStatus::Complete(n) => *n,
            HeadStatus::Partial => {
                return Err(PrivoxyError::Http("Incomplete HTTP response".to_string()));
            },
            HeadStatus::Failed(e) => {
                let mut m = String::new();
                push_str(&mut m, "Failed to parse HTTP response: ");
                push_str(&mut m, e.as_str());
                return Err(PrivoxyError::Http(m));
            },
        };
        if n > data.len() {
            return Err(PrivoxyError::Http("Incomplete HTTP response".to_string()));
        }
        let mut resp = Self::new();
        resp.header_len = n;
        match head.code {
            Some(c) => {
                resp.status_code = c;
            },
            None => {},
        }
        match &head.reason {
            Some(t) => {
                resp.status_text = t.clone();
            },
            None => {},
        }
        match head.version {
            Some(v) => {
                resp.version = version_string(v);
            },
            None => {},
        }
        resp.headers = decode_headers(&head.headers);
        if data.len() > n {
            resp.body = copy_bytes(data, n, data.len());
        }
        Ok(resp)
    }

    /// Parses a response head (and the body bytes that follow it).
    pub fn parse(data: &[u8]) -> (r: PrivoxyResult<Self>)
        ensures
            ({
                let head = response_head(data@, MAX_HEADERS);
                match head.status {
                    HeadStatusView::Complete(n) => r matches Ok(resp) && resp@ == response_model(
                        data@,
                        head,
                        n as int,
                    ),
                    HeadStatusView::Partial => r matches Err(PrivoxyError::Http(m)) && m@
                        == "Incomplete HTTP response"@,
                    HeadStatusView::Failed(e) => r matches Err(PrivoxyError::Http(m)) && m@
                        == "Failed to parse HTTP response: "@ + e,
                }
            }),
    {
        let head = parse_response_head(data, MAX_HEADERS);
        Self::from_head(data, head)
    }

    /// Replaces the body and sets `Content-Length` to its length.
    pub fn set_body(&mut self, body: Vec<u8>)
        ensures
            final(self)@ == (ResponseModel {
                body: body@,
                headers: without_named(old(self)@.headers, "Content-Length"@).push(
                    ("Content-Length"@, decimal(body@.len())),
                ),
                ..old(self)@
            }),
    {
        let len = body.len();
        self.body = body;
        let mut n = String::new();
        push_decimal(&mut n, len as u64);
        set_header(&mut self.headers, "Content-Length", n.as_str());
    }

    pub fn header_length(&self) -> (r: usize)
        ensures
            r == self.header_len,
    {
        self.header_len
    }

    pub fn get_header(&self, name: &str) -> (r: Option<&String>)
        ensures
            opt_ref_view(r) == first_named(self@.headers, name@),
    {
        get_header(&self.headers, name)
    }

    pub fn set_header(&mut self, name: &str, value: &str)
        ensures
            final(self)@ == (ResponseModel {
                headers: without_named(old(self)@.headers, name@).push((name@, value@)),
                ..old(self)@
            }),
    {
        set_header(&mut self.headers, name, value);
    }

    pub fn add_header(&mut self, name: &str, value: &str)
        ensures
            final(self)@ == (ResponseModel {
                headers: old(self)@.headers.push((name@, value@)),
                ..old(self)@
            }),
    {
        add_header(&mut self.headers, name, value);
    }

    pub fn remove_header(&mut self, name: &str)
        ensures
            final(self)@ == (ResponseModel { headers: without_named(old(self)@.headers, name@), ..old(self)@ }),
    {
        remove_header(&mut self.headers, name);
    }

    /// The status line, the header lines and the blank line, encoded as
    /// UTF-8, then the body.
    pub fn to_bytes(&self) -> (r: Vec<u8>)
        ensures
            r@ == encode_utf8(response_head_text(self@)) + self.body@,
    {
        let mut head = String::new();
        push_str(&mut head, self.version.as_str());
        push_str(&mut head, " ");
        push_decimal(&mut head, self.status_code as u64);
        push_str(&mut head, " ");
        push_str(&mut head, self.status_text.as_str());
        push_str(&mut head, "\r\n");
        push_header_lines(&mut head, &self.headers);
        push_str(&mut head, "\r\n");
        let mut out = slice_to_vec(head.as_str().as_bytes());
        append_bytes(&mut out, &self.body);
        out
    }
}

/// The reason phrase the proxy uses for its own error responses.
pub open spec fn error_status_text(code: u16) -> Seq<char> {
    if code == 400 {
        "Bad Request"@
    } else if code == 403 {
        "Forbidden"@
    } else if code == 404 {
        "Not Found"@
    } else if code == 500 {
        "Internal Server Error"@
    } else if code == 502 {
        "Bad Gateway"@
    } else if code == 503 {
        "Service Unavailable"@
    } else {
        "Error"@
    }
}

/// The HTML page of an error response.
pub open spec fn error_page(code: u16, message: Seq<char>) -> Seq<char> {
    let c = decimal(code as nat);
    let t = error_status_text(code);
    "<html>\n<head><title>"@ + c + " "@ + t + "</title></head>\n<body>\n<h1>"@ + c + " "@ + t
        + "</h1>\n<p>"@ + message + "</p>\n</body>\n</html>"@
}

/// A small HTML error page with the given status.
pub fn create_error_response(status_code: u16, message: &str) -> (r: HttpResponse)
    ensures
        r@.version == "HTTP/1.1"@,
        r@.status_code == status_code,
        r@.status_text == error_status_text(status_code),
        r@.body == encode_utf8(error_page(status_code, message@)),
        r@.headers == seq![
            ("Content-Type"@, "text/html; charset=utf-8"@),
            ("Content-Length"@, decimal(encode_utf8(error_page(status_code, message@)).len())),
        ],
        r@.compression_level == COMPRESSION_LEVEL_DEFAULT,
        r@.header_len == 0,
{
    let status_text: &str = if status_code == 400 {
        "Bad Request"
    } else if status_code == 403 {
        "Forbidden"
    } else if status_code == 404 {
        "Not Found"
    } else if status_code == 500 {
        "Internal Server Error"
    } else if status_code == 502 {
        "Bad Gateway"
    } else if status_code == 503 {
        "Service Unavailable"
    } else {
        "Error"
    };
    let mut body = String::new();
    push_str(&mut body, "<html>\n<head><title>");
    push_decimal(&mut body, status_code as u64);
    push_str(&mut body, " ");
    push_str(&mut body, status_text);
    push_str(&mut body, "</title></head>\n<body>\n<h1>");
    push_decimal(&mut body, status_code as u64);
    push_str(&mut body, " ");
    push_str(&mut body, status_text);
    push_str(&mut body, "</h1>\n<p>");
    push_str(&mut body, message);
    push_str(&mut body, "</p>\n</body>\n</html>");
    assert(status_text@ == error_status_text(status_code));
    assert(body@ =~= error_page(status_code, message@));
    let mut response = HttpResponse::with_status(status_code, status_text);
    response.set_header("Content-Type", "text/html; charset=utf-8");
    response.set_body(slice_to_vec(body.as_str().as_bytes()));
    proof {
        reveal_strlit("Content-Type");
        reveal_strlit("Content-Length");
        assert(!eq_ic("Content-Type"@, "Content-Length"@)) by {
            assert(crate::text::lower("Content-Type"@).len() != crate::text::lower("Content-Length"@).len());
        }
        let h1 = without_named(Seq::<(Seq<char>, Seq<char>)>::empty(), "Content-Type"@).push(
            ("Content-Type"@, "text/html; charset=utf-8"@),
        );
        assert(h1 =~= seq![("Content-Type"@, "text/html; charset=utf-8"@)]);
        assert(h1.drop_last() =~= Seq::<(Seq<char>, Seq<char>)>::empty());
        assert(h1.last() == ("Content-Type"@, "text/html; charset=utf-8"@));
        assert(without_named(h1.drop_last(), "Content-Length"@) =~= Seq::<(Seq<char>, Seq<char>)>::empty());
        assert(without_named(h1, "Content-Length"@) =~= Seq::<(Seq<char>, Seq<char>)>::empty().push(h1.last()));
        assert(without_named(h1, "Content-Length"@) =~= h1);
    }
    response
}

/// The reply to a `CONNECT` request: `200 Connection established`.
pub fn create_connect_response() -> (r: HttpResponse)
    ensures
        r@ == (ResponseModel {
            version: "HTTP/1.1"@,
            status_code: 200,
            status_text: "Connection established"@,
            headers: Seq::empty(),
            body: Seq::empty(),
            compression_level: COMPRESSION_LEVEL_DEFAULT,
            header_len: 0,
        }),
{
    HttpResponse::with_status(200, "Connection established")
}

// ---------------------------------------------------------------------------
// Laws of header lists

proof fn lemma_without_named_has_none(h: Seq<(Seq<char>, Seq<char>)>, name: Seq<char>)
    ensures
        values_named(without_named(h, name), name) == Seq::<Seq<char>>::empty(),
    decreases h.len(),
{
    if h.len() > 0 {
        lemma_without_named_has_none(h.drop_last(), name);
        if !eq_ic(h.last().0, name) {
            assert(without_named(h, name).drop_last() =~= without_named(h.drop_last(), name));
        }
    }
}

proof fn lemma_without_named_keeps_others(h: Seq<(Seq<char>, Seq<char>)>, name: Seq<char>, other: Seq<char>)
    requires
        !eq_ic(other, name),
    ensures
        values_named(without_named(h, name), other) == values_named(h, other),
    decreases h.len(),
{
    if h.len() > 0 {
        lemma_without_named_keeps_others(h.drop_last(), name, other);
        if !eq_ic(h.last().0, name) {
            assert(without_named(h, name).drop_last() =~= without_named(h.drop_last(), name));
        } else {
            assert(!eq_ic(h.last().0, other));
        }
    }
}

/// After a header is set, its name has exactly that one value, and it is
/// what a lookup gives; every other name keeps its values.
pub proof fn law_set_header_then_get(
    h: Seq<(Seq<char>, Seq<char>)>,
    name: Seq<char>,
    value: Seq<char>,
    other: Seq<char>,
)
    ensures
        values_named(without_named(h, name).push((name, value)), name) == seq![value],
        first_named(without_named(h, name).push((name, value)), name) == Some(value),
        !eq_ic(other, name) ==> values_named(without_named(h, name).push((name, value)), other)
            == values_named(h, other),
{
    lemma_without_named_has_none(h, name);
    let s = without_named(h, name).push((name, value));
    assert(s.drop_last() =~= without_named(h, name));
    assert(values_named(s, name) =~= seq![value]);
    if !eq_ic(other, name) {
        lemma_without_named_keeps_others(h, name, other);
    }
}

/// After a header is removed, no value is left under its name, and every
/// other name keeps its values.
pub proof fn law_remove_header_then_get(h: Seq<(Seq<char>, Seq<char>)>, name: Seq<char>, other: Seq<char>)
    ensures
        values_named(without_named(h, name), name) == Seq::<Seq<char>>::empty(),
        first_named(without_named(h, name), name) is None,
        !eq_ic(other, name) ==> values_named(without_named(h, name), other) == values_named(h, other),
{
    lemma_without_named_has_none(h, name);
    if !eq_ic(other, name) {
        lemma_without_named_keeps_others(h, name, other);
    }
}

/// Adding a header keeps the earlier values of its name and puts the new
/// value after them: multiple headers of one name keep their order.
pub proof fn law_add_header_appends(h: Seq<(Seq<char>, Seq<char>)>, name: Seq<char>, value: Seq<char>)
    ensures
        values_named(h.push((name, value)), name) == values_named(h, name).push(value),
{
    assert(h.push((name, value)).drop_last() =~= h);
}

/// Host and port from the raw headers, as `host_from_headers` gives them.
fn host_from_raw_headers(raw: &Vec<(String, Vec<u8>)>) -> (r: (String, u16))
    ensures
        (r.0@, r.1) == host_from_headers(raw_header_view(raw@)),
{
    let ghost rv = raw_header_view(raw@);
    let mut host = String::new();
    let mut port: u16 = 80;
    let mut i: usize = 0;
    proof {
        reveal_strlit("Host");
        assert(rv.take(0) =~= Seq::<(Seq<char>, Seq<u8>)>::empty());
    }
    while i < raw.len()
        invariant
            i <= raw.len(),
            rv == raw_header_view(raw@),
            (host@, port) == host_from_headers(rv.take(i as int)),
        decreases raw.len() - i,
    {
        proof {
            assert(rv.take(i as int + 1).drop_last() =~= rv.take(i as int));
        }
        if str_eq_ic(raw[i].0.as_str(), "Host") {
            match string_from_utf8(raw[i].1.clone()) {
                Some(v) => {
                    let vc = chars_of(v.as_str());
                    match find_char_exec(&vc, ':') {
                        Some(c) => {
                            host = sub_string(&vc, 0, c);
                            port = port_or_exec(&slice_chars(&vc, c + 1, vc.len()), 80);
                        },
                        None => {
                            host = v;
                        },
                    }
                },
                None => {},
            }
        }
        i += 1;
    }
    assert(rv.take(i as int) =~= rv);
    (host, port)
}

/// Copy of `data[a..b]`.
fn copy_bytes(data: &[u8], a: usize, b: usize) -> (r: Vec<u8>)
    requires
        a <= b <= data.len(),
    ensures
        r@ == data@.subrange(a as int, b as int),
{
    let mut r: Vec<u8> = Vec::new();
    let mut i = a;
    while i < b
        invariant
            a <= i <= b,
            b <= data.len(),
            r@ == data@.subrange(a as int, i as int),
        decreases b - i,
    {
        r.push(data[i]);
        i += 1;
        assert(r@ =~= data@.subrange(a as int, i as int));
    }
    r
}

fn append_bytes(out: &mut Vec<u8>, b: &Vec<u8>)
    ensures
        final(out)@ == old(out)@ + b@,
{
    let mut i: usize = 0;
    while i < b.len()
        invariant
            i <= b.len(),
            out@ == old(out)@ + b@.subrange(0, i as int),
        decreases b.len() - i,
    {
        out.push(b[i]);
        i += 1;
        assert(out@ =~= old(out)@ + b@.subrange(0, i as int));
    }
    assert(b@.subrange(0, i as int) =~= b@);
}

} // verus!
