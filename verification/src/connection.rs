//! Decisions of a client connection: whether a request is answered at
//! once, which forwarder it goes through, the bytes that are passed on, and
//! what is done to the response before the client sees it.

use vstd::prelude::*;
use vstd::string::StringSliceAdditionalSpecFns;
use crate::text::{
    chars_of, from_chars, own, push_str, push_chars, slice_chars, str_starts_with, starts_with, find_char,
    find_char_exec, str_views, decimal, push_decimal,
};
use crate::config::{Config, ForwardSpec, ForwardSpecModel, ForwardType, UrlAction, forward_view};
use crate::forwarding::{host_matches_pattern, matches_host_pattern, first_forwarder};
use crate::loaders::{forward_directive_result, parse_forward_directive};
use crate::http::{HttpRequest, HttpResponse, ResponseModel, header_view, opt_view, first_named, without_named};
use crate::config::Action;
use crate::action::{
    blocked_image_response, blocked_page_response, empty_document_response, redirect_response,
    create_blocked_image_response, create_blocked_page_response, create_empty_document_response,
    create_redirect_response,
};
use crate::filter::{FilterType, FilterVariables};
use crate::content_filter::Filter;
use crate::header_actions::{HeaderTable, table_insert, cookie_lifetime_limited, apply_limit_cookie_lifetime, apply_force_text_mode};
use crate::filter_actions::{
    ctx_view, header_taggers_run, filters_model, apply_server_header_taggers, body_filtered, body_taggers_run,
    apply_content_filters, apply_client_body_filter, apply_client_body_taggers,
};
use crate::content_filter::FilterModel;
use crate::action::ActionContext;
use crate::compression::{CompressionAlgorithm, decompress};
use crate::bindings::{inflated, gunzipped, unicode_lowercase, str_to_lowercase};
use crate::text::{contains, occurs_at, str_eq, str_contains};
use crate::http::{MAX_HEADERS, HeadStatusView, request_model, error_page, create_error_response};
use crate::bindings::request_head;
use crate::error::PrivoxyError;
use crate::action::{check_limit_connect, limit_connect_allows};
use vstd::utf8::encode_utf8;

verus! {

// ---------------------------------------------------------------------------
// Request paths

/// The path of a request target: an absolute `http://` or `https://` URL
/// loses its scheme and host (leaving `/` where no path follows); any other
/// target stays as it is.
pub open spec fn normalized_path(p: Seq<char>) -> Seq<char> {
    if starts_with(p, "http://"@) {
        let rest = p.subrange(7, p.len() as int);
        match find_char(rest, '/') {
            Some(i) => rest.subrange(i, rest.len() as int),
            None => "/"@,
        }
    } else if starts_with(p, "https://"@) {
        let rest = p.subrange(8, p.len() as int);
        match find_char(rest, '/') {
            Some(i) => rest.subrange(i, rest.len() as int),
            None => "/"@,
        }
    } else {
        p
    }
}

/// The path that is sent to a web server for the request target `path`.
pub fn normalize_request_path(path: &str) -> (r: String)
    ensures
        r@ == normalized_path(path@),
{
    let v = chars_of(path);
    proof {
        reveal_strlit("http://");
        reveal_strlit("https://");
    }
    let skip: usize = if str_starts_with(path, "http://") {
        7
    } else if str_starts_with(path, "https://") {
        8
    } else {
        return own(path);
    };
    assert(v@.len() >= skip);
    let rest = slice_chars(v.as_slice(), skip, v.len());
    match find_char_exec(rest.as_slice(), '/') {
        Some(i) => from_chars(slice_chars(rest.as_slice(), i, rest.len()).as_slice()),
        None => own("/"),
    }
}

// ---------------------------------------------------------------------------
// The request passed on

/// Whether the request goes to a parent HTTP proxy, which wants the whole
/// URL.
pub open spec fn to_http_proxy(fs: ForwardSpecModel) -> bool {
    fs.forward_host is Some && fs.forward_type != ForwardType::ForwardWebserver
}

/// The request line passed on.
pub open spec fn request_line(r: crate::http::RequestModel, fs: ForwardSpecModel) -> Seq<char> {
    if to_http_proxy(fs) && !r.is_ssl {
        r.method + " "@ + "http"@ + "://"@ + r.host + ":"@ + decimal(r.port as nat) + r.path + " "@ + r.version
            + "\r\n"@
    } else {
        r.method + " "@ + normalized_path(r.path) + " "@ + r.version + "\r\n"@
    }
}

/// The header lines of a request, in order.
pub open spec fn header_block(h: Seq<(Seq<char>, Seq<char>)>) -> Seq<char>
    decreases h.len(),
{
    if h.len() == 0 {
        Seq::empty()
    } else {
        header_block(h.drop_last()) + h.last().0 + ": "@ + h.last().1 + "\r\n"@
    }
}

/// The bytes of the request passed on: the request line, the headers, an
/// empty line, then the body.
pub open spec fn request_bytes(r: crate::http::RequestModel, fs: ForwardSpecModel) -> Seq<u8> {
    vstd::utf8::encode_utf8(request_line(r, fs) + header_block(r.headers) + "\r\n"@) + match r.body {
        Some(b) => b,
        None => Seq::empty(),
    }
}

/// The bytes of `request` as they are sent on through `forward_spec`.
pub fn build_request_bytes(request: &HttpRequest, forward_spec: &ForwardSpec) -> (r: Vec<u8>)
    ensures
        r@ == request_bytes(request@, forward_spec@),
{
    let mut text = String::new();
    let proxy = forward_spec.forward_host.is_some() && forward_spec.forward_type != ForwardType::ForwardWebserver;
    if proxy && !request.is_ssl {
        push_str(&mut text, request.method.as_str());
        push_str(&mut text, " ");
        push_str(&mut text, "http");
        push_str(&mut text, "://");
        push_str(&mut text, request.host.as_str());
        push_str(&mut text, ":");
        push_decimal(&mut text, request.port as u64);
        push_str(&mut text, request.path.as_str());
        push_str(&mut text, " ");
        push_str(&mut text, request.version.as_str());
        push_str(&mut text, "\r\n");
    } else {
        push_str(&mut text, request.method.as_str());
        push_str(&mut text, " ");
        let p = normalize_request_path(request.path.as_str());
        push_str(&mut text, p.as_str());
        push_str(&mut text, " ");
        push_str(&mut text, request.version.as_str());
        push_str(&mut text, "\r\n");
    }
    let ghost line = text@;
    assert(line =~= request_line(request@, forward_spec@));
    let ghost hv = header_view(request.headers@);
    let mut i: usize = 0;
    assert(hv.take(0) =~= Seq::<(Seq<char>, Seq<char>)>::empty());
    assert(text@ =~= line + header_block(hv.take(0)));
    while i < request.headers.len()
        invariant
            i <= request.headers@.len(),
            hv == header_view(request.headers@),
            text@ == line + header_block(hv.take(i as int)),
        decreases request.headers.len() - i,
    {
        assert(hv.take(i + 1).drop_last() =~= hv.take(i as int));
        assert(hv.take(i + 1).last() == (request.headers@[i as int].0@, request.headers@[i as int].1@));
        push_str(&mut text, request.headers[i].0.as_str());
        push_str(&mut text, ": ");
        push_str(&mut text, request.headers[i].1.as_str());
        push_str(&mut text, "\r\n");
        assert(text@ =~= line + header_block(hv.take(i + 1)));
        i += 1;
    }
    assert(hv.take(hv.len() as int) =~= hv);
    push_str(&mut text, "\r\n");
    let ts = text.as_str();
    assert(ts.spec_bytes() == vstd::utf8::encode_utf8(ts@));
    let mut out = vstd::slice::slice_to_vec(ts.as_bytes());
    match &request.body {
        Some(b) => {
            let mut k: usize = 0;
            let ghost start = out@;
            while k < b.len()
                invariant
                    k <= b@.len(),
                    out@ == start + b@.subrange(0, k as int),
                decreases b.len() - k,
            {
                out.push(b[k]);
                assert(out@ =~= start + b@.subrange(0, k + 1));
                k += 1;
            }
            assert(b@.subrange(0, b@.len() as int) =~= b@);
        },
        None => {
            assert(out@ =~= out@ + Seq::<u8>::empty());
        },
    }
    out
}

// ---------------------------------------------------------------------------
// Choosing the forwarder

/// The forwarder that an entry's `forward-override` gives, for the first of
/// its patterns that covers `host`: the parsed directive (a plain
/// connection for a line that is no directive) with that pattern.  Nothing
/// where the override does not parse.
pub open spec fn override_in_patterns(ps: Seq<Seq<char>>, fo: Option<Seq<char>>, host: Seq<char>) -> Option<ForwardSpecModel>
    decreases ps.len(),
{
    if ps.len() == 0 {
        None
    } else if host_matches_pattern(host, ps[0]) && fo is Some && forward_directive_result(fo->0) is Ok {
        match forward_directive_result(fo->0) {
            Ok(Some(m)) => Some(ForwardSpecModel { pattern: ps[0], ..m }),
            _ => Some(
                ForwardSpecModel {
                    pattern: ps[0],
                    forward_type: ForwardType::Direct,
                    gateway_host: None,
                    gateway_port: 0,
                    gateway_username: None,
                    gateway_password: None,
                    forward_host: None,
                    forward_port: 0,
                },
            ),
        }
    } else {
        override_in_patterns(ps.drop_first(), fo, host)
    }
}

/// The forwarder that the first entry with a matching override gives.
pub open spec fn override_forwarder(entries: Seq<UrlAction>, host: Seq<char>) -> Option<ForwardSpecModel>
    decreases entries.len(),
{
    if entries.len() == 0 {
        None
    } else {
        match override_in_patterns(
            str_views(entries[0].patterns@),
            opt_view(entries[0].action.forward_override),
            host,
        ) {
            Some(s) => Some(s),
            None => override_forwarder(entries.drop_first(), host),
        }
    }
}

pub fn copy_forward_spec(s: &ForwardSpec) -> (r: ForwardSpec)
    ensures
        r@ == s@,
{
    ForwardSpec {
        pattern: s.pattern.clone(),
        forward_type: s.forward_type,
        gateway_host: crate::action_string::clone_opt(&s.gateway_host),
        gateway_port: s.gateway_port,
        gateway_username: crate::action_string::clone_opt(&s.gateway_username),
        gateway_password: crate::action_string::clone_opt(&s.gateway_password),
        forward_host: crate::action_string::clone_opt(&s.forward_host),
        forward_port: s.forward_port,
    }
}

fn override_for_entry(entry: &UrlAction, host: &str) -> (r: Option<ForwardSpec>)
    ensures
        match override_in_patterns(str_views(entry.patterns@), opt_view(entry.action.forward_override), host@) {
            Some(m) => r matches Some(x) && x@ == m,
            None => r is None,
        },
{
    let ghost ps = str_views(entry.patterns@);
    let ghost fo = opt_view(entry.action.forward_override);
    let mut i: usize = 0;
    assert(ps.skip(0) =~= ps);
    while i < entry.patterns.len()
        invariant
            i <= entry.patterns@.len(),
            ps == str_views(entry.patterns@),
            fo == opt_view(entry.action.forward_override),
            override_in_patterns(ps, fo, host@) == override_in_patterns(ps.skip(i as int), fo, host@),
        decreases entry.patterns.len() - i,
    {
        assert(ps.skip(i as int)[0] == entry.patterns@[i as int]@);
        assert(ps.skip(i as int).drop_first() =~= ps.skip(i + 1));
        let pattern = entry.patterns[i].as_str();
        if matches_host_pattern(host, pattern) {
            match &entry.action.forward_override {
                Some(fo_text) => match parse_forward_directive(fo_text.as_str()) {
                    Ok(Some(mut spec)) => {
                        spec.pattern = own(pattern);
                        return Some(spec);
                    },
                    Ok(None) => {
                        return Some(
                            ForwardSpec {
                                pattern: own(pattern),
                                forward_type: ForwardType::Direct,
                                gateway_host: None,
                                gateway_port: 0,
                                gateway_username: None,
                                gateway_password: None,
                                forward_host: None,
                                forward_port: 0,
                            },
                        );
                    },
                    Err(_) => {},
                },
                None => {},
            }
        }
        i += 1;
    }
    None
}

/// The forwarder for a request to `host`: an override from the actions
/// files first, then the first forwarding rule of the configuration that
/// covers the host.
pub open spec fn find_forwarder(config: &Config, host: Seq<char>) -> Option<ForwardSpecModel> {
    match override_forwarder(config.url_actions@, host) {
        Some(m) => Some(m),
        None => match first_forwarder(forward_view(config.forward_specs@), host) {
            Some(i) => Some(config.forward_specs@[i]@),
            None => None,
        },
    }
}

/// The forwarder for a request to `host`: an override from the actions
/// files first, then the first forwarding rule of the configuration that
/// covers the host.
pub fn find_forward_spec(config: &Config, host: &str, _port: u16) -> (r: Option<ForwardSpec>)
    ensures
        match override_forwarder(config.url_actions@, host@) {
            Some(m) => r matches Some(x) && x@ == m,
            None => match first_forwarder(forward_view(config.forward_specs@), host@) {
                Some(i) => r matches Some(x) && 0 <= i < config.forward_specs@.len() && x@
                    == config.forward_specs@[i]@,
                None => r is None,
            },
        },
{
    let ghost es = config.url_actions@;
    let mut i: usize = 0;
    assert(es.skip(0) =~= es);
    while i < config.url_actions.len()
        invariant
            i <= config.url_actions@.len(),
            es == config.url_actions@,
            override_forwarder(es, host@) == override_forwarder(es.skip(i as int), host@),
        decreases config.url_actions.len() - i,
    {
        assert(es.skip(i as int)[0] == es[i as int]);
        assert(es.skip(i as int).drop_first() =~= es.skip(i + 1));
        match override_for_entry(&config.url_actions[i], host) {
            Some(s) => {
                return Some(s);
            },
            None => {},
        }
        i += 1;
    }
    assert(es.skip(i as int).len() == 0);
    match config.get_forward_spec(host, _port) {
        Some(s) => Some(copy_forward_spec(s)),
        None => None,
    }
}

// ---------------------------------------------------------------------------
// Answering a request from its actions

/// What becomes of a request once the actions for its URL are known.
pub enum RequestOutcome {
    /// The proxy answers at once with this response.
    Respond(HttpResponse),
    /// The request goes on to the web server.
    Forward,
}

/// The reason a block gives: the one the actions name, or a general one.
pub open spec fn block_reason_or_default(reason: Option<Seq<char>>) -> Seq<char> {
    match reason {
        Some(r) => r,
        None => "Blocked by Privoxy"@,
    }
}

/// The answer the proxy gives at once to a request for `url` under
/// `action`: for a block, a transparent image, an empty document or a page
/// with the reason (in that order of preference); else a redirect where the
/// actions name one.  Nothing where the request goes on.
pub open spec fn immediate_response(url: Seq<char>, action: Option<&Action>) -> Option<ResponseModel> {
    match action {
        None => None,
        Some(a) => if a.block {
            if a.handle_as_image {
                Some(blocked_image_response())
            } else if a.handle_as_empty_document {
                Some(empty_document_response())
            } else {
                Some(blocked_page_response(url, block_reason_or_default(opt_view(a.block_reason))))
            }
        } else {
            match a.redirect {
                Some(to) => Some(redirect_response(to@)),
                None => None,
            }
        },
    }
}

/// Whether a request for `url` (host and path) under `action` is answered
/// by the proxy itself, and with what.
pub fn decide_request(url: &str, action: Option<&Action>) -> (r: RequestOutcome)
    ensures
        match r {
            RequestOutcome::Respond(resp) => immediate_response(url@, action) == Some(resp@),
            RequestOutcome::Forward => immediate_response(url@, action) is None,
        },
{
    match action {
        None => RequestOutcome::Forward,
        Some(a) => {
            if a.block {
                if a.handle_as_image {
                    RequestOutcome::Respond(create_blocked_image_response())
                } else if a.handle_as_empty_document {
                    RequestOutcome::Respond(create_empty_document_response())
                } else {
                    let resp = match &a.block_reason {
                        Some(reason) => create_blocked_page_response(url, reason.as_str()),
                        None => create_blocked_page_response(url, "Blocked by Privoxy"),
                    };
                    RequestOutcome::Respond(resp)
                }
            } else {
                match &a.redirect {
                    Some(to) => RequestOutcome::Respond(create_redirect_response(to.as_str())),
                    None => RequestOutcome::Forward,
                }
            }
        },
    }
}

// ---------------------------------------------------------------------------
// What filters see of a request

/// The host part of `url` (host and path, no scheme): up to the first `/`.
pub open spec fn url_host_part(url: Seq<char>) -> Seq<char> {
    match find_char(url, '/') {
        Some(i) => url.subrange(0, i),
        None => url,
    }
}

/// The path variable of `url`: from the first `/` on, behind one more `/`;
/// empty where there is no `/`.
pub open spec fn url_path_part(url: Seq<char>) -> Seq<char> {
    match find_char(url, '/') {
        Some(i) => "/"@ + url.subrange(i, url.len() as int),
        None => Seq::empty(),
    }
}

/// The variables that the filters of a request for `url` see, for the
/// client at `origin`.
pub fn filter_variables_for(url: &str, origin: &str) -> (r: FilterVariables)
    ensures
        r.host@ == url_host_part(url@),
        r.path@ == url_path_part(url@),
        r.url@ == "http://"@ + url@,
        r.origin@ == origin@,
        r.listen_address@ == "127.0.0.1:8118"@,
{
    let v = chars_of(url);
    let (host, path) = match find_char_exec(v.as_slice(), '/') {
        Some(i) => {
            let mut path = own("/");
            push_chars(&mut path, slice_chars(v.as_slice(), i, v.len()).as_slice());
            (from_chars(slice_chars(v.as_slice(), 0, i).as_slice()), path)
        },
        None => (own(url), String::new()),
    };
    let mut full = own("http://");
    push_str(&mut full, url);
    FilterVariables { host, url: full, path, origin: own(origin), listen_address: own("127.0.0.1:8118") }
}

// ---------------------------------------------------------------------------
// The response on its way back

/// Where a blocked image is sent instead: the image blocker's address, for
/// an action that blocks and handles the request as an image, and names a
/// blocker other than `blank` and `pattern`.
pub open spec fn image_redirect_target(a: &Action) -> Option<Seq<char>> {
    if a.handle_as_image && a.block {
        match a.set_image_blocker {
            Some(b) => if b@ != "blank"@ && b@ != "pattern"@ {
                Some(b@)
            } else {
                None
            },
            None => None,
        }
    } else {
        None
    }
}

/// `r` turned into a `302 Found` to `to`, with an empty body.
pub open spec fn image_redirected(r: ResponseModel, to: Seq<char>) -> ResponseModel {
    ResponseModel {
        status_code: 302,
        status_text: "Found"@,
        headers: without_named(without_named(r.headers, "Location"@).push(("Location"@, to)), "Content-Length"@).push(
            ("Content-Length"@, "0"@),
        ),
        body: Seq::empty(),
        ..r
    }
}

/// Sends a blocked image to the image blocker's address in place of the
/// server's answer.
pub fn apply_image_blocker_redirect(action: &Action, response: &mut HttpResponse)
    ensures
        final(response)@ == match image_redirect_target(action) {
            Some(to) => image_redirected(old(response)@, to),
            None => old(response)@,
        },
{
    if action.handle_as_image && action.block {
        match &action.set_image_blocker {
            Some(b) => {
                if !str_eq(b.as_str(), "blank") && !str_eq(b.as_str(), "pattern") {
                    response.status_code = 302;
                    response.status_text = own("Found");
                    response.set_header("Location", b.as_str());
                    response.body = Vec::new();
                    response.set_header("Content-Length", "0");
                }
            },
            None => {},
        }
    }
}

/// The compression that the response's `Content-Encoding` names, where the
/// proxy undoes it: `gzip` or `deflate`.
pub open spec fn content_encoding_algorithm(r: ResponseModel) -> Option<CompressionAlgorithm> {
    match first_named(r.headers, "Content-Encoding"@) {
        Some(v) => if v == "gzip"@ {
            Some(CompressionAlgorithm::Gzip)
        } else if v == "deflate"@ {
            Some(CompressionAlgorithm::Deflate)
        } else {
            None
        },
        None => None,
    }
}

/// `body` unpacked with `alg`; nothing where the data does not unpack.
pub open spec fn unpacked_body(alg: CompressionAlgorithm, body: Seq<u8>) -> Option<Seq<u8>> {
    match alg {
        CompressionAlgorithm::Gzip => match gunzipped(body) {
            Ok(v) => Some(v),
            Err(_) => None,
        },
        CompressionAlgorithm::Deflate => match inflated(body) {
            Ok(v) => Some(v),
            Err(_) => None,
        },
        CompressionAlgorithm::Identity => Some(body),
    }
}

/// `r` with a compressed body unpacked, so that filters see the text: the
/// `Content-Encoding` goes and the `Content-Length` gives the new length.
/// A response that is not compressed, has no body, or does not unpack stays
/// as it is.
pub open spec fn decoded_response(r: ResponseModel) -> ResponseModel {
    match content_encoding_algorithm(r) {
        Some(alg) => if r.body.len() > 0 {
            match unpacked_body(alg, r.body) {
                Some(d) => ResponseModel {
                    body: d,
                    headers: without_named(without_named(r.headers, "Content-Encoding"@), "Content-Length"@).push(
                        ("Content-Length"@, decimal(d.len())),
                    ),
                    ..r
                },
                None => r,
            }
        } else {
            r
        },
        None => r,
    }
}

/// Unpacks a gzip or deflate body of the server's answer.
pub fn decode_response_body(response: &mut HttpResponse)
    ensures
        final(response)@ == decoded_response(old(response)@),
{
    let alg = match response.get_header("Content-Encoding") {
        Some(v) => if str_eq(v.as_str(), "gzip") {
            Some(CompressionAlgorithm::Gzip)
        } else if str_eq(v.as_str(), "deflate") {
            Some(CompressionAlgorithm::Deflate)
        } else {
            None
        },
        None => None,
    };
    match alg {
        Some(a) => {
            if response.body.len() > 0 {
                match decompress(response.body.as_slice(), a) {
                    Ok(d) => {
                        response.remove_header("Content-Encoding");
                        response.set_body(d);
                    },
                    Err(_) => {},
                }
            }
        },
        None => {},
    }
}

/// Whether a content type (in lower case) is text the content filters
/// work on: `text/...`, or one that names JavaScript, JSON or XML.
pub open spec fn filterable_type(ct: Seq<char>) -> bool {
    starts_with(ct, "text/"@) || contains(ct, "javascript"@) || contains(ct, "json"@) || contains(ct, "xml"@)
}

/// Whether the content filters run on `r`: it has a body and a textual
/// `Content-Type`.
pub open spec fn content_filterable(r: ResponseModel) -> bool {
    r.body.len() > 0 && match first_named(r.headers, "Content-Type"@) {
        Some(ct) => filterable_type(unicode_lowercase(ct)),
        None => false,
    }
}

/// Whether the content filters run on `response`.
pub fn is_content_filterable(response: &HttpResponse) -> (r: bool)
    ensures
        r == content_filterable(response@),
{
    if response.body.len() == 0 {
        return false;
    }
    match response.get_header("Content-Type") {
        Some(ct) => {
            let l = str_to_lowercase(ct.as_str());
            let t = l.as_str();
            str_starts_with(t, "text/") || str_contains(t, "javascript") || str_contains(t, "json")
                || str_contains(t, "xml")
        },
        None => false,
    }
}

/// Whether the answer is a GIF image that GIF deanimation applies to: its
/// `Content-Type` names `image/gif`, or the body starts with `GIF`.
pub open spec fn is_gif_response(r: ResponseModel) -> bool {
    (match first_named(r.headers, "Content-Type"@) {
        Some(ct) => contains(unicode_lowercase(ct), "image/gif"@),
        None => false,
    }) || (r.body.len() >= 3 && r.body[0] == 0x47u8 && r.body[1] == 0x49u8 && r.body[2] == 0x46u8)
}

/// Whether GIF deanimation applies to `response`.
pub fn looks_like_gif(response: &HttpResponse) -> (r: bool)
    ensures
        r == is_gif_response(response@),
{
    let by_type = match response.get_header("Content-Type") {
        Some(ct) => {
            let l = str_to_lowercase(ct.as_str());
            str_contains(l.as_str(), "image/gif")
        },
        None => false,
    };
    by_type || (response.body.len() >= 3 && response.body[0] == 0x47u8 && response.body[1] == 0x49u8
        && response.body[2] == 0x46u8)
}

// ---------------------------------------------------------------------------
// Reaching the web server

/// `host:port`.
pub open spec fn host_port(host: Seq<char>, port: u16) -> Seq<char> {
    host + ":"@ + decimal(port as nat)
}

/// The first connection a request's forwarder calls for.
pub enum ConnectStep {
    /// A SOCKS 5 gateway at `gateway`, asked for `next_hop`.
    Socks5 { gateway: String, next_hop: String },
    /// A SOCKS 4 gateway at `gateway`, asked for `next_hop`.
    Socks4 { gateway: String, next_hop: String },
    /// A gateway of another kind, used as it is.
    Gateway { gateway: String },
    /// A parent HTTP proxy at `proxy`.
    HttpProxy { proxy: String },
    /// The web server itself at `target`.
    Direct { target: String },
}

/// A [`ConnectStep`] with its addresses as text.
pub enum ConnectStepModel {
    Socks5 { gateway: Seq<char>, next_hop: Seq<char> },
    Socks4 { gateway: Seq<char>, next_hop: Seq<char> },
    Gateway { gateway: Seq<char> },
    HttpProxy { proxy: Seq<char> },
    Direct { target: Seq<char> },
}

impl View for ConnectStep {
    type V = ConnectStepModel;

    open spec fn view(&self) -> ConnectStepModel {
        match self {
            ConnectStep::Socks5 { gateway, next_hop } => ConnectStepModel::Socks5 {
                gateway: gateway@,
                next_hop: next_hop@,
            },
            ConnectStep::Socks4 { gateway, next_hop } => ConnectStepModel::Socks4 {
                gateway: gateway@,
                next_hop: next_hop@,
            },
            ConnectStep::Gateway { gateway } => ConnectStepModel::Gateway { gateway: gateway@ },
            ConnectStep::HttpProxy { proxy } => ConnectStepModel::HttpProxy { proxy: proxy@ },
            ConnectStep::Direct { target } => ConnectStepModel::Direct { target: target@ },
        }
    }
}

/// How a request for `host:port` that goes through `fs` is connected: a
/// gateway first where one is set (over SOCKS 4 or 5 to the parent proxy, or
/// else to the server), else the parent proxy, else the server itself.
pub open spec fn connect_step(fs: ForwardSpecModel, host: Seq<char>, port: u16) -> ConnectStepModel {
    let next_hop = match fs.forward_host {
        Some(f) => host_port(f, fs.forward_port),
        None => host_port(host, port),
    };
    match fs.gateway_host {
        Some(g) => match fs.forward_type {
            ForwardType::Socks5 | ForwardType::Socks5t => ConnectStepModel::Socks5 {
                gateway: host_port(g, fs.gateway_port),
                next_hop,
            },
            ForwardType::Socks4 | ForwardType::Socks4a => ConnectStepModel::Socks4 {
                gateway: host_port(g, fs.gateway_port),
                next_hop,
            },
            _ => ConnectStepModel::Gateway { gateway: host_port(g, fs.gateway_port) },
        },
        None => match fs.forward_host {
            Some(f) => ConnectStepModel::HttpProxy { proxy: host_port(f, fs.forward_port) },
            None => ConnectStepModel::Direct { target: host_port(host, port) },
        },
    }
}

fn host_port_text(host: &str, port: u16) -> (r: String)
    ensures
        r@ == host_port(host@, port),
{
    let mut r = own(host);
    push_str(&mut r, ":");
    push_decimal(&mut r, port as u64);
    r
}

/// The first connection for a request to `host:port` through `fs`.
pub fn plan_connection(fs: &ForwardSpec, host: &str, port: u16) -> (r: ConnectStep)
    ensures
        r@ == connect_step(fs@, host@, port),
{
    let next_hop = match &fs.forward_host {
        Some(f) => host_port_text(f.as_str(), fs.forward_port),
        None => host_port_text(host, port),
    };
    match &fs.gateway_host {
        Some(g) => {
            let gateway = host_port_text(g.as_str(), fs.gateway_port);
            match fs.forward_type {
                ForwardType::Socks5 | ForwardType::Socks5t => ConnectStep::Socks5 { gateway, next_hop },
                ForwardType::Socks4 | ForwardType::Socks4a => ConnectStep::Socks4 { gateway, next_hop },
                _ => ConnectStep::Gateway { gateway },
            }
        },
        None => match &fs.forward_host {
            Some(_) => ConnectStep::HttpProxy { proxy: next_hop },
            None => ConnectStep::Direct { target: next_hop },
        },
    }
}

/// The forwarder of a request that no rule covers: straight to the server.
pub open spec fn direct_forwarder() -> ForwardSpecModel {
    ForwardSpecModel {
        pattern: Seq::empty(),
        forward_type: ForwardType::Direct,
        gateway_host: None,
        gateway_port: 0,
        gateway_username: None,
        gateway_password: None,
        forward_host: None,
        forward_port: 0,
    }
}

/// The forwarder a request for `host:port` goes through, and its first
/// connection: the one [`find_forward_spec`] picks, or straight to the
/// server where it picks none.
pub fn connection_plan(config: &Config, host: &str, port: u16) -> (r: (ForwardSpec, ConnectStep))
    ensures
        match find_forwarder(config, host@) {
            Some(f) => r.0@ == f,
            None => r.0@ == direct_forwarder(),
        },
        r.1@ == connect_step(r.0@, host@, port),
{
    let fs = match find_forward_spec(config, host, port) {
        Some(f) => f,
        None => ForwardSpec {
            pattern: String::new(),
            forward_type: ForwardType::Direct,
            gateway_host: None,
            gateway_port: 0,
            gateway_username: None,
            gateway_password: None,
            forward_host: None,
            forward_port: 0,
        },
    };
    let step = plan_connection(&fs, host, port);
    (fs, step)
}

/// The error of a connection that did not answer within `secs` seconds.
pub open spec fn timeout_message(host: Seq<char>, port: u16, secs: u64) -> Seq<char> {
    "Connection to "@ + host_port(host, port) + " timed out after "@ + decimal(secs as nat) + "s"@
}

/// The error of a connection to `host:port` that timed out.
pub fn connect_timeout_error(host: &str, port: u16, secs: u64) -> (r: crate::error::PrivoxyError)
    ensures
        r matches crate::error::PrivoxyError::Connection(m) && m@ == timeout_message(host@, port, secs),
{
    let mut m = own("Connection to ");
    let hp = host_port_text(host, port);
    push_str(&mut m, hp.as_str());
    push_str(&mut m, " timed out after ");
    push_decimal(&mut m, secs);
    push_str(&mut m, "s");
    crate::error::PrivoxyError::Connection(m)
}

// ---------------------------------------------------------------------------
// Reading the request

/// What the reader does with the bytes a client has sent so far.
pub enum ReadStep {
    /// A whole request head has arrived.
    Request(HttpRequest),
    /// The head is not complete yet: read on.
    NeedMore,
    /// The bytes are no request.
    Fail(PrivoxyError),
}

/// What the reader does with `data`: a complete head gives the request; a
/// head that is cut short, or a parse error whose message speaks of an
/// incomplete request, asks for more bytes; any other error ends the read.
pub open spec fn read_step_for(data: Seq<u8>, r: ReadStep) -> bool {
    let head = request_head(data, MAX_HEADERS);
    match head.status {
        HeadStatusView::Complete(n) => r matches ReadStep::Request(req) && req@ == request_model(data, head, n as int),
        HeadStatusView::Partial => r is NeedMore,
        HeadStatusView::Failed(e) => {
            let m = "Failed to parse HTTP request: "@ + e;
            if contains(m, "Incomplete"@) {
                r is NeedMore
            } else {
                r matches ReadStep::Fail(PrivoxyError::Http(x)) && x@ == m
            }
        },
    }
}

/// Decides, from the bytes read so far, whether the request is complete.
pub fn read_step(data: &[u8]) -> (r: ReadStep)
    ensures
        read_step_for(data@, r),
{
    proof {
        reveal_strlit("Incomplete HTTP request");
        reveal_strlit("Incomplete");
        assert("Incomplete HTTP request"@.subrange(0, 10) =~= "Incomplete"@);
        assert(occurs_at("Incomplete HTTP request"@, "Incomplete"@, 0));
    }
    match HttpRequest::parse(data) {
        Ok(req) => ReadStep::Request(req),
        Err(PrivoxyError::Http(m)) => {
            if str_contains(m.as_str(), "Incomplete") {
                ReadStep::NeedMore
            } else {
                ReadStep::Fail(PrivoxyError::Http(m))
            }
        },
        Err(e) => ReadStep::Fail(e),
    }
}

// ---------------------------------------------------------------------------
// Tunnels

/// The message of a `CONNECT` refused by the limit-connect action.
pub open spec fn limit_connect_message(port: u16) -> Seq<char> {
    "CONNECT to port "@ + decimal(port as nat) + " is not allowed by limit-connect policy"@
}

/// The answer to a `CONNECT` to `port` that the actions refuse: a `403`
/// naming the port.  Nothing where the tunnel may be opened.
pub fn connect_refusal(action: Option<&Action>, port: u16) -> (r: Option<HttpResponse>)
    ensures
        match action {
            Some(a) => if limit_connect_allows(a@.limit_connect, port) {
                r is None
            } else {
                r matches Some(resp) && resp@.status_code == 403 && resp@.body == encode_utf8(
                    error_page(403, limit_connect_message(port)),
                )
            },
            None => r is None,
        },
{
    match action {
        Some(a) => {
            if check_limit_connect(a, port) {
                None
            } else {
                let mut m = own("CONNECT to port ");
                push_decimal(&mut m, port as u64);
                push_str(&mut m, " is not allowed by limit-connect policy");
                Some(create_error_response(403, m.as_str()))
            }
        },
        None => None,
    }
}

/// The answer where the server of `host:port` cannot be reached: a `502`
/// that names it.
pub fn cannot_connect_response(host: &str, port: u16) -> (r: HttpResponse)
    ensures
        r@.status_code == 502,
        r@.body == encode_utf8(error_page(502, "Cannot connect to "@ + host_port(host@, port))),
{
    let mut m = own("Cannot connect to ");
    let hp = host_port_text(host, port);
    push_str(&mut m, hp.as_str());
    create_error_response(502, m.as_str())
}


// ---------------------------------------------------------------------------
// The actions on the server's answer

/// What the actions make of the headers of the server's answer: cookie
/// lifetimes limited, then text mode forced.
pub open spec fn response_headers_after(h: Seq<(Seq<char>, Seq<char>)>, action: &Action) -> Seq<(Seq<char>, Seq<char>)> {
    let limited = cookie_lifetime_limited(h, action.limit_cookie_lifetime);
    if action.force_text_mode {
        table_insert(limited, "Content-Type"@, "text/plain"@)
    } else {
        limited
    }
}

/// The server's answer after the actions: its headers as
/// `response_headers_after` makes them, then a blocked image sent to the
/// image blocker.
pub open spec fn response_after_action(r: ResponseModel, action: &Action) -> ResponseModel {
    let m = ResponseModel { headers: response_headers_after(r.headers, action), ..r };
    match image_redirect_target(action) {
        Some(to) => image_redirected(m, to),
        None => m,
    }
}

/// Applies the actions to the server's answer: the server header taggers
/// add their tags to `ctx`, cookie lifetimes are limited, text mode is
/// forced, and a blocked image is redirected to the image blocker.
pub fn apply_action_to_response(
    action: &Action,
    response: &mut HttpResponse,
    filters: &Vec<Filter>,
    config: &Config,
    ctx: &mut ActionContext,
    vars: &FilterVariables,
)
    ensures
        ctx_view(*final(ctx)) == header_taggers_run(
            ctx_view(*old(ctx)),
            filters_model(filters@),
            str_views(action.server_header_tagger_names@),
            FilterType::ServerHeaderTagger,
            old(response)@.headers,
            *vars,
            config.url_actions@,
        ),
        final(response)@ == response_after_action(old(response)@, action),
{
    let mut table = HeaderTable { entries: Vec::new() };
    std::mem::swap(&mut table.entries, &mut response.headers);
    assert(table@ =~= old(response)@.headers);
    apply_server_header_taggers(&table, filters, config, action, ctx, vars);
    apply_limit_cookie_lifetime(&mut table, action);
    apply_force_text_mode(&mut table, action);
    std::mem::swap(&mut table.entries, &mut response.headers);
    assert(response@.headers =~= response_headers_after(old(response)@.headers, action));
    assert(response@ == (ResponseModel { headers: response_headers_after(old(response)@.headers, action), ..old(response)@ }));
    apply_image_blocker_redirect(action, response);
}


/// A body after the content filters of `action`: its content filters
/// where it names some or turns filtering on, then its client body
/// filters where it names some.
pub open spec fn body_after_filters(body: Seq<u8>, fs: Seq<FilterModel>, action: &Action, vars: FilterVariables) -> Seq<u8> {
    let b1 = if action.filter_names@.len() > 0 || action.filter {
        body_filtered(body, fs, str_views(action.filter_names@), FilterType::Content, vars)
    } else {
        body
    };
    if action.client_body_filter_names@.len() > 0 {
        body_filtered(b1, fs, str_views(action.client_body_filter_names@), FilterType::ClientBody, vars)
    } else {
        b1
    }
}

/// Runs the filters of `action` on the body of the server's answer, where
/// the body is textual and filters are configured, and then its client
/// body taggers on the result.
pub fn filter_response_body(
    response: &mut HttpResponse,
    filters: &Vec<Filter>,
    config: &Config,
    action: Option<&Action>,
    ctx: &mut ActionContext,
    vars: &FilterVariables,
)
    ensures
        match action {
            Some(a) => if content_filterable(old(response)@) && filters@.len() > 0 {
                let b = body_after_filters(old(response)@.body, filters_model(filters@), a, *vars);
                &&& final(response)@ == (ResponseModel { body: b, ..old(response)@ })
                &&& ctx_view(*final(ctx)) == if a.client_body_tagger_names@.len() > 0 && b.len() > 0
                    && vstd::utf8::valid_utf8(b) {
                    body_taggers_run(
                        ctx_view(*old(ctx)),
                        filters_model(filters@),
                        str_views(a.client_body_tagger_names@),
                        vstd::utf8::decode_utf8(b),
                        *vars,
                        config.url_actions@,
                    )
                } else {
                    ctx_view(*old(ctx))
                }
            } else {
                final(response)@ == old(response)@ && ctx_view(*final(ctx)) == ctx_view(*old(ctx))
            },
            None => final(response)@ == old(response)@ && ctx_view(*final(ctx)) == ctx_view(*old(ctx)),
        },
{
    let a = match action {
        Some(a) => a,
        None => {
            return;
        },
    };
    if !is_content_filterable(response) || filters.len() == 0 {
        return;
    }
    let mut body: Vec<u8> = Vec::new();
    std::mem::swap(&mut body, &mut response.body);
    if a.filter_names.len() > 0 || a.filter {
        let _ = apply_content_filters(&mut body, filters, a, vars);
    }
    if a.client_body_filter_names.len() > 0 {
        let _ = apply_client_body_filter(&mut body, filters, a, vars);
    }
    if a.client_body_tagger_names.len() > 0 {
        apply_client_body_taggers(body.as_slice(), filters, config, a, ctx, vars);
    }
    std::mem::swap(&mut body, &mut response.body);
}


// ---------------------------------------------------------------------------
// Retrying a connection

/// The attempts to reach a server: the one under way (counting from 0),
/// how many retries the configuration allows after the first, and the error
/// of the last failed attempt.
pub struct ConnectAttempts {
    pub attempt: u32,
    pub retries: u32,
    pub last_error: Option<PrivoxyError>,
}

impl ConnectAttempts {
    /// The first attempt, with `retries` more allowed.
    pub fn new(retries: u32) -> (r: Self)
        ensures
            r.attempt == 0,
            r.retries == retries,
            r.last_error is None,
    {
        ConnectAttempts { attempt: 0, retries, last_error: None }
    }

    /// Records that the attempt under way failed with `error`, and says
    /// whether another attempt follows: attempts run from 0 to `retries`.
    pub fn record_failure(&mut self, error: PrivoxyError) -> (again: bool)
        ensures
            final(self).last_error == Some(error),
            final(self).retries == old(self).retries,
            again == (old(self).attempt < old(self).retries),
            again ==> final(self).attempt == old(self).attempt + 1,
            !again ==> final(self).attempt == old(self).attempt,
    {
        self.last_error = Some(error);
        if self.attempt < self.retries {
            self.attempt = self.attempt + 1;
            true
        } else {
            false
        }
    }

    /// The error the connection ends with once no attempt is left: that of
    /// the last attempt.
    pub fn final_error(self) -> (r: PrivoxyError)
        ensures
            match self.last_error {
                Some(e) => r == e,
                None => r matches PrivoxyError::Connection(m) && m@ == "Unknown connection error"@,
            },
    {
        match self.last_error {
            Some(e) => e,
            None => PrivoxyError::Connection(own("Unknown connection error")),
        }
    }
}

} // verus!
