//! The decisions of the web interface: which page a request gets, the
//! parameters of a request, the symbols common to all pages, and the action
//! text that the action editor's form describes.

use vstd::prelude::*;
use crate::action::{url_matches, url_matches_pattern};
use crate::config::UrlAction;
use crate::cgiedit::{EditableFile, LineData, LineModel, LineType, DataModel, lines_view, fields_but_lines_kept};
use crate::encode::html_escaped;
use crate::template::{rendered, render_template};
use vstd::string::StringSliceAdditionalSpecFns;
use crate::text::{
    chars_of, from_chars, own, push_str, push_chars, str_eq, str_contains, contains, split_char, eq_ic,
    str_eq_ic, starts_with, find_char,
    split_char_exec, trim, trim_str, words, words_exec, views, str_views, decimal, push_decimal,
};
use crate::config::{Config, split_once, split_once_exec, listen_view};
use crate::encode::{url_decode, url_decoded_bytes};
use crate::bindings::{lossy_utf8, utf8_lossy};
use crate::http::opt_view;
use crate::state::Statistics;
use crate::constants::VERSION;

verus! {

// ---------------------------------------------------------------------------
// Routing

/// The pages of the web interface.
#[derive(Debug, Clone, Copy, PartialEq, Eq, Structural)]
pub enum CgiPage {
    Main,
    Status,
    ShowRequest,
    ShowUrlInfo,
    Favicon,
    Banner,
    ClientTags,
    ToggleClientTag,
    EditActionsList,
    EditActionsFile,
    EditActionLine,
    DeleteActionLine,
    AddUrlForm,
    EditUrlForm,
    RemoveUrlForm,
    AddSectionForm,
    RemoveSectionForm,
    SwapSections,
    EditActionsForUrl,
    /// The form of the action editor was sent.
    EditActionsSubmit,
    /// The per-URL form of the action editor was sent.
    EditActionsForUrlSubmit,
    /// A form address was asked for without sending the form.
    PostRequired,
    Toggle,
    RobotsTxt,
    Stylesheet,
    TransparentImage,
    UrlInfoOsd,
    UserManual,
    Wpad,
    NotFound,
    /// The request did not come from a page of the interface.
    ErrorReferer,
    /// Editing actions is switched off.
    EditingDisabled,
    /// Toggling from a browser is switched off.
    ToggleDisabled,
    /// An editor page that needs parameters was asked for without a query.
    MissingQueryString,
    /// The file editor was asked for without naming a file.
    MissingFileParameter,
    /// Two sections are swapped at once: the file and both sections were
    /// named.
    SwapSectionsNow,
}

/// A page of the action editor: shown where editing is on and the request
/// came from the interface.
pub open spec fn editor_page(p: CgiPage, editing: bool, safe: bool) -> CgiPage {
    if !editing {
        CgiPage::EditingDisabled
    } else if !safe {
        CgiPage::ErrorReferer
    } else {
        p
    }
}

/// The page for a request: a sent editor form (when `is_post`) or the page
/// named by `path`.  Editor pages need `editing` and a request from the
/// interface (`safe`); so do the client tag pages (`safe`) and the toggle
/// (`toggling` and `safe`).
pub open spec fn route_of(is_post: bool, path: Seq<char>, editing: bool, toggling: bool, safe: bool) -> CgiPage {
    if is_post && (path == "/eas"@ || path == "/edit-actions-submit"@) {
        if !safe {
            CgiPage::ErrorReferer
        } else if path == "/edit-actions-submit"@ {
            CgiPage::EditActionsSubmit
        } else {
            CgiPage::EditActionsForUrlSubmit
        }
    } else if path == "/"@ || path == "/index.html"@ {
        CgiPage::Main
    } else if path == "/show-status"@ || path == "/status"@ {
        CgiPage::Status
    } else if path == "/show-request"@ {
        CgiPage::ShowRequest
    } else if path == "/show-url-info"@ {
        CgiPage::ShowUrlInfo
    } else if path == "/favicon.ico"@ {
        CgiPage::Favicon
    } else if path == "/send-banner"@ {
        CgiPage::Banner
    } else if path == "/client-tags"@ {
        if safe { CgiPage::ClientTags } else { CgiPage::ErrorReferer }
    } else if path == "/toggle-client-tag"@ {
        if safe { CgiPage::ToggleClientTag } else { CgiPage::ErrorReferer }
    } else if path == "/edit-actions"@ || path == "/edit-actions-list"@ {
        editor_page(CgiPage::EditActionsList, editing, safe)
    } else if path == "/edit-actions-file"@ {
        editor_page(CgiPage::EditActionsFile, editing, safe)
    } else if path == "/edit-action-line"@ {
        editor_page(CgiPage::EditActionLine, editing, safe)
    } else if path == "/delete-action-line"@ {
        editor_page(CgiPage::DeleteActionLine, editing, safe)
    } else if path == "/add-url-pattern"@ || path == "/eaa"@ {
        editor_page(CgiPage::AddUrlForm, editing, safe)
    } else if path == "/edit-actions-submit"@ {
        CgiPage::PostRequired
    } else if path == "/edit-actions-for-url"@ || path == "/eafu"@ {
        editor_page(CgiPage::EditActionsForUrl, editing, safe)
    } else if path == "/eau"@ {
        editor_page(CgiPage::EditUrlForm, editing, safe)
    } else if path == "/ear"@ {
        editor_page(CgiPage::RemoveUrlForm, editing, safe)
    } else if path == "/easa"@ {
        editor_page(CgiPage::AddSectionForm, editing, safe)
    } else if path == "/easr"@ {
        editor_page(CgiPage::RemoveSectionForm, editing, safe)
    } else if path == "/eass"@ {
        editor_page(CgiPage::SwapSections, editing, safe)
    } else if path == "/toggle"@ {
        if !toggling {
            CgiPage::ToggleDisabled
        } else if !safe {
            CgiPage::ErrorReferer
        } else {
            CgiPage::Toggle
        }
    } else if path == "/robots.txt"@ {
        CgiPage::RobotsTxt
    } else if path == "/send-stylesheet"@ || path == "/style.css"@ {
        CgiPage::Stylesheet
    } else if path == "/t"@ {
        CgiPage::TransparentImage
    } else if path == "/url-info-osd.xml"@ {
        CgiPage::UrlInfoOsd
    } else if path == "/user-manual"@ {
        CgiPage::UserManual
    } else if path == "/wpad.dat"@ {
        CgiPage::Wpad
    } else {
        CgiPage::NotFound
    }
}

fn editor_page_exec(p: CgiPage, editing: bool, safe: bool) -> (r: CgiPage)
    ensures
        r == editor_page(p, editing, safe),
{
    if !editing {
        CgiPage::EditingDisabled
    } else if !safe {
        CgiPage::ErrorReferer
    } else {
        p
    }
}

/// Which page a request for `path` gets.
pub fn route(is_post: bool, path: &str, editing: bool, toggling: bool, safe: bool) -> (r: CgiPage)
    ensures
        r == route_of(is_post, path@, editing, toggling, safe),
{
    if is_post && (str_eq(path, "/eas") || str_eq(path, "/edit-actions-submit")) {
        return if !safe {
            CgiPage::ErrorReferer
        } else if str_eq(path, "/edit-actions-submit") {
            CgiPage::EditActionsSubmit
        } else {
            CgiPage::EditActionsForUrlSubmit
        };
    }
    if str_eq(path, "/") || str_eq(path, "/index.html") {
        CgiPage::Main
    } else if str_eq(path, "/show-status") || str_eq(path, "/status") {
        CgiPage::Status
    } else if str_eq(path, "/show-request") {
        CgiPage::ShowRequest
    } else if str_eq(path, "/show-url-info") {
        CgiPage::ShowUrlInfo
    } else if str_eq(path, "/favicon.ico") {
        CgiPage::Favicon
    } else if str_eq(path, "/send-banner") {
        CgiPage::Banner
    } else if str_eq(path, "/client-tags") {
        if safe { CgiPage::ClientTags } else { CgiPage::ErrorReferer }
    } else if str_eq(path, "/toggle-client-tag") {
        if safe { CgiPage::ToggleClientTag } else { CgiPage::ErrorReferer }
    } else if str_eq(path, "/edit-actions") || str_eq(path, "/edit-actions-list") {
        editor_page_exec(CgiPage::EditActionsList, editing, safe)
    } else if str_eq(path, "/edit-actions-file") {
        editor_page_exec(CgiPage::EditActionsFile, editing, safe)
    } else if str_eq(path, "/edit-action-line") {
        editor_page_exec(CgiPage::EditActionLine, editing, safe)
    } else if str_eq(path, "/delete-action-line") {
        editor_page_exec(CgiPage::DeleteActionLine, editing, safe)
    } else if str_eq(path, "/add-url-pattern") || str_eq(path, "/eaa") {
        editor_page_exec(CgiPage::AddUrlForm, editing, safe)
    } else if str_eq(path, "/edit-actions-submit") {
        CgiPage::PostRequired
    } else if str_eq(path, "/edit-actions-for-url") || str_eq(path, "/eafu") {
        editor_page_exec(CgiPage::EditActionsForUrl, editing, safe)
    } else if str_eq(path, "/eau") {
        editor_page_exec(CgiPage::EditUrlForm, editing, safe)
    } else if str_eq(path, "/ear") {
        editor_page_exec(CgiPage::RemoveUrlForm, editing, safe)
    } else if str_eq(path, "/easa") {
        editor_page_exec(CgiPage::AddSectionForm, editing, safe)
    } else if str_eq(path, "/easr") {
        editor_page_exec(CgiPage::RemoveSectionForm, editing, safe)
    } else if str_eq(path, "/eass") {
        editor_page_exec(CgiPage::SwapSections, editing, safe)
    } else if str_eq(path, "/toggle") {
        if !toggling {
            CgiPage::ToggleDisabled
        } else if !safe {
            CgiPage::ErrorReferer
        } else {
            CgiPage::Toggle
        }
    } else if str_eq(path, "/robots.txt") {
        CgiPage::RobotsTxt
    } else if str_eq(path, "/send-stylesheet") || str_eq(path, "/style.css") {
        CgiPage::Stylesheet
    } else if str_eq(path, "/t") {
        CgiPage::TransparentImage
    } else if str_eq(path, "/url-info-osd.xml") {
        CgiPage::UrlInfoOsd
    } else if str_eq(path, "/user-manual") {
        CgiPage::UserManual
    } else if str_eq(path, "/wpad.dat") {
        CgiPage::Wpad
    } else {
        CgiPage::NotFound
    }
}

// ---------------------------------------------------------------------------
// Parameters

pub open spec fn pairs_view(ps: Seq<(String, String)>) -> Seq<(Seq<char>, Seq<char>)> {
    ps.map_values(|p: (String, String)| (p.0@, p.1@))
}

/// The value of parameter `k`: the last one given, as a map keeps it.
pub open spec fn param_value(ps: Seq<(Seq<char>, Seq<char>)>, k: Seq<char>) -> Option<Seq<char>>
    decreases ps.len(),
{
    if ps.len() == 0 {
        None
    } else if ps.last().0 == k {
        Some(ps.last().1)
    } else {
        param_value(ps.drop_last(), k)
    }
}

/// The value of parameter `k`, if it was given.
pub fn param_get(params: &Vec<(String, String)>, k: &str) -> (r: Option<String>)
    ensures
        opt_view(r) == param_value(pairs_view(params@), k@),
{
    let ghost pv = pairs_view(params@);
    let mut i: usize = params.len();
    assert(pv.take(pv.len() as int) =~= pv);
    while i > 0
        invariant
            i <= params@.len(),
            pv == pairs_view(params@),
            pv.len() == params@.len(),
            param_value(pv, k@) == param_value(pv.take(i as int), k@),
        decreases i,
    {
        let ghost cur = pv.take(i as int);
        assert(cur.last() == (params@[i - 1].0@, params@[i - 1].1@));
        if str_eq(params[i - 1].0.as_str(), k) {
            return Some(params[i - 1].1.clone());
        }
        assert(cur.drop_last() =~= pv.take(i - 1));
        i -= 1;
    }
    None
}

/// A percent-encoded text decoded, or the text itself where decoding fails.
pub open spec fn decoded_or_same(v: Seq<char>) -> Seq<char> {
    let b = url_decoded_bytes(vstd::utf8::encode_utf8(v));
    if vstd::utf8::valid_utf8(b) {
        vstd::utf8::decode_utf8(b)
    } else {
        v
    }
}

fn decode_or_same(v: &str) -> (r: String)
    ensures
        r@ == decoded_or_same(v@),
{
    assert(v.spec_bytes() == vstd::utf8::encode_utf8(v@));
    match url_decode(v) {
        Ok(d) => d,
        Err(_) => own(v),
    }
}

/// One `key=value` part of a query: the value decoded; a part without `=`
/// is a key with an empty value.
pub open spec fn query_pair(part: Seq<char>) -> (Seq<char>, Seq<char>) {
    match split_once(part, '=') {
        Some(kv) => (kv.0, decoded_or_same(kv.1)),
        None => (part, Seq::empty()),
    }
}

/// The parameters of the parts of a query string, in order.
pub open spec fn query_parts_pairs(parts: Seq<Seq<char>>) -> Seq<(Seq<char>, Seq<char>)>
    decreases parts.len(),
{
    if parts.len() == 0 {
        Seq::empty()
    } else {
        query_parts_pairs(parts.drop_last()).push(query_pair(parts.last()))
    }
}

/// The parameters of a query string, in order.
pub open spec fn query_pairs(q: Seq<char>) -> Seq<(Seq<char>, Seq<char>)> {
    query_parts_pairs(split_char(q, '&'))
}

/// Reads the parameters of a query string `a=1&b=x%20y`.
pub fn parse_query_string(query: &str) -> (r: Vec<(String, String)>)
    ensures
        pairs_view(r@) == query_pairs(query@),
{
    let v = chars_of(query);
    let parts = split_char_exec(v.as_slice(), '&');
    let ghost ps = split_char(query@, '&');
    let mut out: Vec<(String, String)> = Vec::new();
    let mut i: usize = 0;
    while i < parts.len()
        invariant
            i <= parts@.len(),
            views(parts@) == ps,
            ps == split_char(query@, '&'),
            pairs_view(out@) == query_parts_pairs(ps.take(i as int)),
        decreases parts.len() - i,
    {
        assert(views(parts@)[i as int] == parts@[i as int]@);
        assert(ps.take(i + 1).drop_last() =~= ps.take(i as int));
        let pair = match split_once_exec(parts[i].as_slice(), '=') {
            Some((k, val)) => {
                let vs = from_chars(val.as_slice());
                (from_chars(k.as_slice()), decode_or_same(vs.as_str()))
            },
            None => (from_chars(parts[i].as_slice()), String::new()),
        };
        assert((pair.0@, pair.1@) == query_pair(ps[i as int]));
        let ghost before = out@;
        out.push(pair);
        assert(pairs_view(out@) =~= pairs_view(before).push(query_pair(ps[i as int])));
        i += 1;
    }
    assert(ps.take(parts@.len() as int) =~= ps);
    out
}

/// One part of a form body: both sides of its first `=` decoded; a part
/// without `=` gives nothing.
pub open spec fn body_pair(part: Seq<char>) -> Option<(Seq<char>, Seq<char>)> {
    match split_once(part, '=') {
        Some(kv) => Some((decoded_or_same(kv.0), decoded_or_same(kv.1))),
        None => None,
    }
}

/// The parameters of a form body, in order.
pub open spec fn body_pairs(parts: Seq<Seq<char>>) -> Seq<(Seq<char>, Seq<char>)>
    decreases parts.len(),
{
    if parts.len() == 0 {
        Seq::empty()
    } else {
        match body_pair(parts.last()) {
            Some(p) => body_pairs(parts.drop_last()).push(p),
            None => body_pairs(parts.drop_last()),
        }
    }
}

/// Reads the parameters of a form body `a=1&b=x%20y` (invalid UTF-8 is
/// replaced first).
pub fn parse_post_body(body: &[u8]) -> (r: Vec<(String, String)>)
    ensures
        pairs_view(r@) == body_pairs(split_char(lossy_utf8(body@), '&')),
{
    let text = utf8_lossy(body);
    let v = chars_of(text.as_str());
    let parts = split_char_exec(v.as_slice(), '&');
    let ghost ps = split_char(text@, '&');
    let mut out: Vec<(String, String)> = Vec::new();
    let mut i: usize = 0;
    while i < parts.len()
        invariant
            i <= parts@.len(),
            views(parts@) == ps,
            pairs_view(out@) == body_pairs(ps.take(i as int)),
        decreases parts.len() - i,
    {
        assert(views(parts@)[i as int] == parts@[i as int]@);
        assert(ps.take(i + 1).drop_last() =~= ps.take(i as int));
        match split_once_exec(parts[i].as_slice(), '=') {
            Some((k, val)) => {
                let ks = from_chars(k.as_slice());
                let vs = from_chars(val.as_slice());
                let ghost before = out@;
                out.push((decode_or_same(ks.as_str()), decode_or_same(vs.as_str())));
                assert(pairs_view(out@) =~= pairs_view(before).push(
                    (decoded_or_same(k@), decoded_or_same(val@)),
                ));
            },
            None => {},
        }
        i += 1;
    }
    assert(ps.take(parts@.len() as int) =~= ps);
    out
}

// ---------------------------------------------------------------------------
// The action editor's form

/// `+name{value}` for each word of a list.
pub open spec fn braced_each(prefix: Seq<char>, names: Seq<Seq<char>>) -> Seq<Seq<char>>
    decreases names.len(),
{
    if names.len() == 0 {
        Seq::empty()
    } else {
        braced_each(prefix, names.drop_last()).push(prefix + "{"@ + names.last() + "}"@)
    }
}

/// The tokens for a list parameter: one `+prefix{name}` per word.
pub open spec fn list_tokens(prefix: Seq<char>, v: Option<Seq<char>>) -> Seq<Seq<char>> {
    match v {
        Some(names) => if trim(names).len() == 0 {
            Seq::empty()
        } else {
            braced_each(prefix, words(names))
        },
        None => Seq::empty(),
    }
}

/// The token for a choice parameter: `-name` for `default`, otherwise
/// `+name{value}`; nothing where it was not sent.
pub open spec fn choice_tokens(name: Seq<char>, v: Option<Seq<char>>) -> Seq<Seq<char>> {
    match v {
        Some(x) => if x == "default"@ {
            seq!["-"@ + name]
        } else {
            seq!["+"@ + name + "{"@ + x + "}"@]
        },
        None => Seq::empty(),
    }
}

/// The token for a switch: `+name` where the parameter was sent, `-name`
/// otherwise.
pub open spec fn switch_token(name: Seq<char>, sent: bool) -> Seq<char> {
    if sent {
        "+"@ + name
    } else {
        "-"@ + name
    }
}

/// The block token: `+block`, with the trimmed reason in braces where one
/// was given, or `-block`.
pub open spec fn block_token(ps: Seq<(Seq<char>, Seq<char>)>) -> Seq<char> {
    if param_value(ps, "block"@) is Some {
        let reason = match param_value(ps, "block_reason"@) {
            Some(r) => trim(r),
            None => Seq::empty(),
        };
        if reason.len() == 0 {
            "+block"@
        } else {
            "+block{"@ + reason + "}"@
        }
    } else {
        "-block"@
    }
}

/// The action tokens that the editor's form describes, in order.
pub open spec fn submitted_tokens(ps: Seq<(Seq<char>, Seq<char>)>) -> Seq<Seq<char>> {
    seq![block_token(ps), switch_token("handle-as-image"@, param_value(ps, "handle_as_image"@) is Some)]
        + list_tokens("+filter"@, param_value(ps, "filter_names"@))
        + list_tokens("+client-header-filter"@, param_value(ps, "client_header_filter_names"@))
        + list_tokens("+server-header-filter"@, param_value(ps, "server_header_filter_names"@))
        + choice_tokens("hide-referrer"@, param_value(ps, "hide_referrer"@))
        + choice_tokens("hide-user-agent"@, param_value(ps, "hide_user_agent"@))
        + choice_tokens("set-image-blocker"@, param_value(ps, "set_image_blocker"@))
        + seq![
        switch_token("prevent-compression"@, param_value(ps, "prevent_compression"@) is Some),
        switch_token("session-cookies-only"@, param_value(ps, "session_cookies_only"@) is Some),
    ]
}

/// Tokens joined with single spaces.
pub open spec fn joined(ts: Seq<Seq<char>>, sep: Seq<char>) -> Seq<char>
    decreases ts.len(),
{
    if ts.len() == 0 {
        Seq::empty()
    } else if ts.len() == 1 {
        ts[0]
    } else {
        joined(ts.drop_last(), sep) + sep + ts.last()
    }
}

fn push_token(out: &mut Vec<String>, a: &str, b: &str, c: &str)
    ensures
        str_views(final(out)@) == str_views(old(out)@).push(a@ + b@ + c@),
{
    let mut s = own(a);
    push_str(&mut s, b);
    push_str(&mut s, c);
    let ghost before = out@;
    out.push(s);
    assert(str_views(out@) =~= str_views(before).push(a@ + b@ + c@));
}

fn push_list_tokens(out: &mut Vec<String>, prefix: &str, v: Option<String>)
    ensures
        str_views(final(out)@) == str_views(old(out)@) + list_tokens(prefix@, opt_view(v)),
{
    match v {
        Some(names) => {
            let t = trim_str(names.as_str());
            if t.as_str().unicode_len() == 0 {
                assert(str_views(out@) =~= str_views(out@) + Seq::<Seq<char>>::empty());
                return;
            }
            let nv = chars_of(names.as_str());
            let ws = words_exec(nv.as_slice());
            let ghost start = str_views(out@);
            let mut i: usize = 0;
            assert(views(ws@).take(0) =~= Seq::<Seq<char>>::empty());
            while i < ws.len()
                invariant
                    i <= ws@.len(),
                    views(ws@) == words(names@),
                    str_views(out@) == start + braced_each(prefix@, views(ws@).take(i as int)),
                decreases ws.len() - i,
            {
                assert(views(ws@).take(i + 1).drop_last() =~= views(ws@).take(i as int));
                assert(views(ws@)[i as int] == ws@[i as int]@);
                let w = from_chars(ws[i].as_slice());
                let mut p = own(prefix);
                push_str(&mut p, "{");
                let ghost before = str_views(out@);
                push_token(out, p.as_str(), w.as_str(), "}");
                assert(before.push(prefix@ + "{"@ + w@ + "}"@) =~= start + braced_each(
                    prefix@,
                    views(ws@).take(i + 1),
                ));
                i += 1;
            }
            assert(views(ws@).take(ws@.len() as int) =~= views(ws@));
        },
        None => {
            assert(str_views(out@) =~= str_views(out@) + Seq::<Seq<char>>::empty());
        },
    }
}

fn push_choice_token(out: &mut Vec<String>, name: &str, v: Option<String>)
    ensures
        str_views(final(out)@) == str_views(old(out)@) + choice_tokens(name@, opt_view(v)),
{
    let ghost start = str_views(out@);
    match v {
        Some(x) => {
            if str_eq(x.as_str(), "default") {
                push_token(out, "-", name, "");
                assert(("-"@ + name@ + ""@) =~= "-"@ + name@) by {
                    reveal_strlit("");
                }
            } else {
                let mut p = own("+");
                push_str(&mut p, name);
                push_str(&mut p, "{");
                push_token(out, p.as_str(), x.as_str(), "}");
            }
            assert(str_views(out@) =~= start + choice_tokens(name@, opt_view(v)));
        },
        None => {
            assert(str_views(out@) =~= start + Seq::<Seq<char>>::empty());
        },
    }
}

fn switch_token_exec(name: &str, sent: bool) -> (r: String)
    ensures
        r@ == switch_token(name@, sent),
{
    let mut s = if sent { own("+") } else { own("-") };
    push_str(&mut s, name);
    s
}

pub(crate) fn join_exec(ts: &Vec<String>, sep: &str) -> (r: String)
    ensures
        r@ == joined(str_views(ts@), sep@),
{
    let mut out = String::new();
    let mut i: usize = 0;
    while i < ts.len()
        invariant
            i <= ts@.len(),
            out@ == joined(str_views(ts@).take(i as int), sep@),
        decreases ts.len() - i,
    {
        assert(str_views(ts@).take(i + 1).drop_last() =~= str_views(ts@).take(i as int));
        if i > 0 {
            push_str(&mut out, sep);
        }
        push_str(&mut out, ts[i].as_str());
        proof {
            if i == 0 {
                assert(str_views(ts@).take(1)[0] == ts@[0]@);
                assert(out@ =~= joined(str_views(ts@).take(1), sep@));
            }
        }
        i += 1;
    }
    assert(str_views(ts@).take(ts@.len() as int) =~= str_views(ts@));
    out
}

/// The action text that the editor's form describes: block (with its
/// reason), the image switch, the filter lists, the header choices and the
/// compression and cookie switches.
pub fn edit_submission_action(params: &Vec<(String, String)>) -> (r: String)
    ensures
        r@ == joined(submitted_tokens(pairs_view(params@)), " "@),
{
    let ghost ps = pairs_view(params@);
    let mut toks: Vec<String> = Vec::new();
    let block = match param_get(params, "block") {
        Some(_) => {
            let reason = match param_get(params, "block_reason") {
                Some(r) => trim_str(r.as_str()),
                None => String::new(),
            };
            if reason.as_str().unicode_len() == 0 {
                own("+block")
            } else {
                let mut b = own("+block{");
                push_str(&mut b, reason.as_str());
                push_str(&mut b, "}");
                b
            }
        },
        None => own("-block"),
    };
    assert(block@ == block_token(ps));
    toks.push(block);
    toks.push(switch_token_exec("handle-as-image", param_get(params, "handle_as_image").is_some()));
    let ghost head = str_views(toks@);
    assert(head =~= seq![block_token(ps), switch_token("handle-as-image"@, param_value(ps, "handle_as_image"@) is Some)]);
    push_list_tokens(&mut toks, "+filter", param_get(params, "filter_names"));
    push_list_tokens(&mut toks, "+client-header-filter", param_get(params, "client_header_filter_names"));
    push_list_tokens(&mut toks, "+server-header-filter", param_get(params, "server_header_filter_names"));
    push_choice_token(&mut toks, "hide-referrer", param_get(params, "hide_referrer"));
    push_choice_token(&mut toks, "hide-user-agent", param_get(params, "hide_user_agent"));
    push_choice_token(&mut toks, "set-image-blocker", param_get(params, "set_image_blocker"));
    let ghost before = str_views(toks@);
    assert(before == head + list_tokens("+filter"@, param_value(ps, "filter_names"@))
        + list_tokens("+client-header-filter"@, param_value(ps, "client_header_filter_names"@))
        + list_tokens("+server-header-filter"@, param_value(ps, "server_header_filter_names"@))
        + choice_tokens("hide-referrer"@, param_value(ps, "hide_referrer"@))
        + choice_tokens("hide-user-agent"@, param_value(ps, "hide_user_agent"@))
        + choice_tokens("set-image-blocker"@, param_value(ps, "set_image_blocker"@)));
    toks.push(switch_token_exec("prevent-compression", param_get(params, "prevent_compression").is_some()));
    toks.push(switch_token_exec("session-cookies-only", param_get(params, "session_cookies_only").is_some()));
    assert(str_views(toks@) =~= submitted_tokens(ps));
    join_exec(&toks, " ")
}

/// The line of the action editor's form: the `line` parameter as a
/// number, or 0.
pub open spec fn submitted_line(ps: Seq<(Seq<char>, Seq<char>)>) -> usize {
    match param_value(ps, "line"@) {
        Some(v) => match crate::text::parse_unsigned(v, usize::MAX as int) {
            Some(n) => n as usize,
            None => 0,
        },
        None => 0,
    }
}

pub fn edit_submission_line(params: &Vec<(String, String)>) -> (r: usize)
    ensures
        r == submitted_line(pairs_view(params@)),
{
    match param_get(params, "line") {
        Some(v) => {
            let c = chars_of(v.as_str());
            match crate::text::parse_usize(c.as_slice()) {
                Some(n) => n,
                None => 0,
            }
        },
        None => 0,
    }
}

// ---------------------------------------------------------------------------
// Symbols common to all pages

/// `"alpha"` or `"beta"` where the version says so, else `"stable"`.
pub open spec fn code_status() -> Seq<char> {
    if contains(VERSION@, "alpha"@) {
        "alpha"@
    } else if contains(VERSION@, "beta"@) {
        "beta"@
    } else {
        "stable"@
    }
}

pub open spec fn or_empty(o: Option<Seq<char>>) -> Seq<char> {
    match o {
        Some(s) => s,
        None => Seq::empty(),
    }
}

/// The names that every page has, empty unless a page sets them.
pub open spec fn blank_symbol_names() -> Seq<Seq<char>> {
    seq![
        "forward-host"@, "forward-port"@, "gateway-host"@, "gateway-port"@, "socks-type"@,
        "force-prefix"@, "matches"@, "final"@, "default"@, "url"@, "client-tags"@,
        "client-ip-addr"@, "client-request"@, "processed-request"@, "refresh-delay"@,
        "invocation"@, "options"@, "file-description"@, "filepath"@, "contents"@,
        "block-reason-statistics"@, "filter-statistics"@,
    ]
}

pub open spec fn blanks(names: Seq<Seq<char>>) -> Seq<(Seq<char>, Seq<char>)>
    decreases names.len(),
{
    if names.len() == 0 {
        Seq::empty()
    } else {
        blanks(names.drop_last()).push((names.last(), Seq::empty()))
    }
}

/// A symbol that hides a `@if-name…` section where `hide` holds.
pub open spec fn killer(name: Seq<char>, hide: bool) -> Seq<(Seq<char>, Seq<char>)> {
    if hide {
        seq![(name, Seq::<char>::empty())]
    } else {
        Seq::empty()
    }
}

/// The host and port the proxy listens on first.
pub open spec fn listen_host(listen: Seq<(Seq<char>, u16)>) -> Seq<char> {
    if listen.len() > 0 { listen[0].0 } else { "127.0.0.1"@ }
}

pub open spec fn listen_port(listen: Seq<(Seq<char>, u16)>) -> Seq<char> {
    if listen.len() > 0 { decimal(listen[0].1 as nat) } else { "8118"@ }
}

/// The symbols about the proxy itself.
pub open spec fn basic_symbols(
    listen: Seq<(Seq<char>, u16)>,
    admin: Option<Seq<char>>,
    proxy_info: Option<Seq<char>>,
) -> Seq<(Seq<char>, Seq<char>)> {
    seq![
        ("version"@, VERSION@),
        ("homepage"@, "https://www.privoxy.org/"@),
        ("user-manual"@, "https://www.privoxy.org/user-manual/"@),
        ("my-hostname"@, listen_host(listen)),
        ("my-ip-address"@, listen_host(listen)),
        ("my-port"@, listen_port(listen)),
        ("default-cgi"@, "/"@),
        ("admin-address"@, or_empty(admin)),
        ("proxy-info-url"@, or_empty(proxy_info)),
        ("code-status"@, code_status()),
        ("can-toggle"@, "1"@),
    ]
}

/// The symbols that show whether filtering is on.
pub open spec fn enabled_symbols(enabled: bool) -> Seq<(Seq<char>, Seq<char>)> {
    if enabled {
        seq![("enabled-display"@, "enabled"@), ("disabled"@, Seq::<char>::empty())]
    } else {
        seq![("enabled-display"@, Seq::<char>::empty()), ("disabled"@, "disabled"@)]
    }
}

/// The counters, the time and the loaded files.
pub open spec fn counter_symbols(
    st: Statistics,
    percent: u32,
    time: Seq<char>,
    actions_files: Seq<Seq<char>>,
    filter_files: Seq<Seq<char>>,
    trust_files: Seq<Seq<char>>,
) -> Seq<(Seq<char>, Seq<char>)> {
    seq![
        ("requests-received"@, decimal(st.requests_received as nat)),
        ("requests-blocked"@, decimal(st.requests_blocked as nat)),
        ("percent-blocked"@, decimal(percent as nat)),
        ("urls-read"@, decimal(st.urls_read as nat)),
        ("urls-rejected"@, decimal(st.urls_rejected as nat)),
        ("time"@, time),
        ("actions-filenames"@, joined(actions_files, "<br>"@)),
        ("re-filter-filenames"@, joined(filter_files, "<br>"@)),
        ("trust-filename"@, joined(trust_files, "<br>"@)),
    ]
}

/// The symbols that hide the sections that do not apply.
pub open spec fn section_killers(
    st: Statistics,
    admin: Option<Seq<char>>,
    proxy_info: Option<Seq<char>>,
    manual: Option<Seq<char>>,
) -> Seq<(Seq<char>, Seq<char>)> {
    (if st.requests_received == 0 {
        seq![("have-stats"@, Seq::<char>::empty())]
    } else {
        seq![("have-no-stats"@, Seq::<char>::empty())]
    }) + killer("unstable"@, code_status() != "stable"@) + killer("have-adminaddr-info"@, admin is None)
        + killer("have-proxy-info"@, proxy_info is None) + killer("have-help-info"@, manual is None)
}

/// The symbols common to all pages, from the listening addresses, the
/// administrator address, the information and manual addresses, the loaded
/// file names, whether filtering is on, the counters, the share of blocked
/// requests and the current time.
pub open spec fn common_symbols(
    listen: Seq<(Seq<char>, u16)>,
    admin: Option<Seq<char>>,
    proxy_info: Option<Seq<char>>,
    manual: Option<Seq<char>>,
    actions_files: Seq<Seq<char>>,
    filter_files: Seq<Seq<char>>,
    trust_files: Seq<Seq<char>>,
    enabled: bool,
    st: Statistics,
    percent: u32,
    time: Seq<char>,
) -> Seq<(Seq<char>, Seq<char>)> {
    basic_symbols(listen, admin, proxy_info) + enabled_symbols(enabled) + counter_symbols(
        st,
        percent,
        time,
        actions_files,
        filter_files,
        trust_files,
    ) + blanks(blank_symbol_names()) + section_killers(st, admin, proxy_info, manual)
}

fn push_pair(v: &mut Vec<(String, String)>, k: &str, val: String)
    ensures
        pairs_view(final(v)@) == pairs_view(old(v)@).push((k@, val@)),
{
    let ghost before = v@;
    v.push((own(k), val));
    assert(pairs_view(v@) =~= pairs_view(before).push((k@, val@)));
}

fn decimal_text(n: u64) -> (r: String)
    ensures
        r@ == decimal(n as nat),
{
    let mut s = String::new();
    push_decimal(&mut s, n);
    s
}

fn opt_text(o: &Option<String>) -> (r: String)
    ensures
        r@ == or_empty(opt_view(*o)),
{
    match o {
        Some(s) => s.clone(),
        None => String::new(),
    }
}

fn code_status_exec() -> (r: &'static str)
    ensures
        r@ == code_status(),
{
    if str_contains(VERSION, "alpha") {
        "alpha"
    } else if str_contains(VERSION, "beta") {
        "beta"
    } else {
        "stable"
    }
}

fn push_basics(v: &mut Vec<(String, String)>, config: &Config)
    ensures
        pairs_view(final(v)@) == pairs_view(old(v)@) + basic_symbols(
            listen_view(config.listen_addresses@),
            opt_view(config.admin_address),
            opt_view(config.proxy_info_url),
        ),
{
    let ghost start = pairs_view(v@);
    let ghost lv = listen_view(config.listen_addresses@);
    assert(lv.len() == config.listen_addresses@.len());
    let (host, port) = if config.listen_addresses.len() > 0 {
        assert(lv[0] == (config.listen_addresses@[0].addr@, config.listen_addresses@[0].port));
        (config.listen_addresses[0].addr.clone(), decimal_text(config.listen_addresses[0].port as u64))
    } else {
        (own("127.0.0.1"), own("8118"))
    };
    let status = code_status_exec();
    push_pair(v, "version", own(VERSION));
    push_pair(v, "homepage", own("https://www.privoxy.org/"));
    push_pair(v, "user-manual", own("https://www.privoxy.org/user-manual/"));
    push_pair(v, "my-hostname", host.clone());
    push_pair(v, "my-ip-address", host);
    push_pair(v, "my-port", port);
    push_pair(v, "default-cgi", own("/"));
    push_pair(v, "admin-address", opt_text(&config.admin_address));
    push_pair(v, "proxy-info-url", opt_text(&config.proxy_info_url));
    push_pair(v, "code-status", own(status));
    push_pair(v, "can-toggle", own("1"));
    assert(pairs_view(v@) =~= start + basic_symbols(
        lv,
        opt_view(config.admin_address),
        opt_view(config.proxy_info_url),
    ));
}

fn push_enabled(v: &mut Vec<(String, String)>, enabled: bool)
    ensures
        pairs_view(final(v)@) == pairs_view(old(v)@) + enabled_symbols(enabled),
{
    let ghost start = pairs_view(v@);
    if enabled {
        push_pair(v, "enabled-display", own("enabled"));
        push_pair(v, "disabled", String::new());
    } else {
        push_pair(v, "enabled-display", String::new());
        push_pair(v, "disabled", own("disabled"));
    }
    assert(pairs_view(v@) =~= start + enabled_symbols(enabled));
}

fn push_counters(v: &mut Vec<(String, String)>, config: &Config, stats: &Statistics, percent_blocked: u32, time: &str)
    ensures
        pairs_view(final(v)@) == pairs_view(old(v)@) + counter_symbols(
            *stats,
            percent_blocked,
            time@,
            str_views(config.actions_files@),
            str_views(config.filter_files@),
            str_views(config.trust_files@),
        ),
{
    let ghost start = pairs_view(v@);
    push_pair(v, "requests-received", decimal_text(stats.requests_received));
    push_pair(v, "requests-blocked", decimal_text(stats.requests_blocked));
    push_pair(v, "percent-blocked", decimal_text(percent_blocked as u64));
    push_pair(v, "urls-read", decimal_text(stats.urls_read));
    push_pair(v, "urls-rejected", decimal_text(stats.urls_rejected));
    push_pair(v, "time", own(time));
    push_pair(v, "actions-filenames", join_exec(&config.actions_files, "<br>"));
    push_pair(v, "re-filter-filenames", join_exec(&config.filter_files, "<br>"));
    push_pair(v, "trust-filename", join_exec(&config.trust_files, "<br>"));
    assert(pairs_view(v@) =~= start + counter_symbols(
        *stats,
        percent_blocked,
        time@,
        str_views(config.actions_files@),
        str_views(config.filter_files@),
        str_views(config.trust_files@),
    ));
}

fn push_killer(v: &mut Vec<(String, String)>, name: &str, hide: bool)
    ensures
        pairs_view(final(v)@) == pairs_view(old(v)@) + killer(name@, hide),
{
    let ghost start = pairs_view(v@);
    if hide {
        push_pair(v, name, String::new());
    }
    assert(pairs_view(v@) =~= start + killer(name@, hide));
}

fn push_killers(v: &mut Vec<(String, String)>, config: &Config, stats: &Statistics)
    ensures
        pairs_view(final(v)@) == pairs_view(old(v)@) + section_killers(
            *stats,
            opt_view(config.admin_address),
            opt_view(config.proxy_info_url),
            opt_view(config.user_manual),
        ),
{
    let ghost start = pairs_view(v@);
    if stats.requests_received == 0 {
        push_pair(v, "have-stats", String::new());
    } else {
        push_pair(v, "have-no-stats", String::new());
    }
    let ghost a = pairs_view(v@);
    let status = code_status_exec();
    push_killer(v, "unstable", !str_eq(status, "stable"));
    let ghost b = pairs_view(v@);
    push_killer(v, "have-adminaddr-info", config.admin_address.is_none());
    let ghost c = pairs_view(v@);
    push_killer(v, "have-proxy-info", config.proxy_info_url.is_none());
    let ghost d = pairs_view(v@);
    push_killer(v, "have-help-info", config.user_manual.is_none());
    assert(pairs_view(v@) =~= start + section_killers(
        *stats,
        opt_view(config.admin_address),
        opt_view(config.proxy_info_url),
        opt_view(config.user_manual),
    ));
}

/// The symbols common to all pages.  The share of blocked requests is
/// given in percent.
pub fn create_common_symbols(
    config: &Config,
    enabled: bool,
    stats: &Statistics,
    percent_blocked: u32,
    time: &str,
) -> (r: Vec<(String, String)>)
    ensures
        pairs_view(r@) == common_symbols(
            listen_view(config.listen_addresses@),
            opt_view(config.admin_address),
            opt_view(config.proxy_info_url),
            opt_view(config.user_manual),
            str_views(config.actions_files@),
            str_views(config.filter_files@),
            str_views(config.trust_files@),
            enabled,
            *stats,
            percent_blocked,
            time@,
        ),
{
    let mut v: Vec<(String, String)> = Vec::new();
    assert(pairs_view(v@) =~= Seq::<(Seq<char>, Seq<char>)>::empty());
    push_basics(&mut v, config);
    push_enabled(&mut v, enabled);
    push_counters(&mut v, config, stats, percent_blocked, time);
    push_blanks(&mut v);
    push_killers(&mut v, config, stats);
    assert(pairs_view(v@) =~= common_symbols(
        listen_view(config.listen_addresses@),
        opt_view(config.admin_address),
        opt_view(config.proxy_info_url),
        opt_view(config.user_manual),
        str_views(config.actions_files@),
        str_views(config.filter_files@),
        str_views(config.trust_files@),
        enabled,
        *stats,
        percent_blocked,
        time@,
    ));
    v
}

fn push_blanks(v: &mut Vec<(String, String)>)
    ensures
        pairs_view(final(v)@) == pairs_view(old(v)@) + blanks(blank_symbol_names()),
{
    let ghost start = pairs_view(v@);
    push_pair(v, "forward-host", String::new());
    push_pair(v, "forward-port", String::new());
    push_pair(v, "gateway-host", String::new());
    push_pair(v, "gateway-port", String::new());
    push_pair(v, "socks-type", String::new());
    push_pair(v, "force-prefix", String::new());
    push_pair(v, "matches", String::new());
    push_pair(v, "final", String::new());
    push_pair(v, "default", String::new());
    push_pair(v, "url", String::new());
    push_pair(v, "client-tags", String::new());
    push_pair(v, "client-ip-addr", String::new());
    push_pair(v, "client-request", String::new());
    push_pair(v, "processed-request", String::new());
    push_pair(v, "refresh-delay", String::new());
    push_pair(v, "invocation", String::new());
    push_pair(v, "options", String::new());
    push_pair(v, "file-description", String::new());
    push_pair(v, "filepath", String::new());
    push_pair(v, "contents", String::new());
    push_pair(v, "block-reason-statistics", String::new());
    push_pair(v, "filter-statistics", String::new());
    proof {
        reveal_with_fuel(blanks, 23);
        assert(pairs_view(v@) =~= start + blanks(blank_symbol_names()));
    }
}

// ---------------------------------------------------------------------------
// Requests for the interface

/// Whether a request is for the web interface: the names `p.p` and
/// `config.privoxy.org` (with or without a final dot, in any case), or the
/// local host on the default port or a port the proxy listens on.
pub open spec fn is_cgi_host(host: Seq<char>, port: u16, listen: Seq<(Seq<char>, u16)>) -> bool {
    if eq_ic(host, "p.p"@) || eq_ic(host, "p.p."@) || eq_ic(host, "config.privoxy.org"@) || eq_ic(
        host,
        "config.privoxy.org."@,
    ) {
        true
    } else if eq_ic(host, "localhost"@) || host == "127.0.0.1"@ || host == "::1"@ {
        port == 8118 || exists|i: int| 0 <= i < listen.len() && #[trigger] listen[i].1 == port
    } else {
        false
    }
}

/// Whether `req` is a request for the web interface.
pub fn is_cgi_request(config: &Config, req: &crate::http::HttpRequest) -> (r: bool)
    ensures
        r == is_cgi_host(req.host@, req.port, listen_view(config.listen_addresses@)),
{
    let host = req.host.as_str();
    if str_eq_ic(host, "p.p") || str_eq_ic(host, "p.p.") || str_eq_ic(host, "config.privoxy.org") || str_eq_ic(
        host,
        "config.privoxy.org.",
    ) {
        return true;
    }
    if str_eq_ic(host, "localhost") || str_eq(host, "127.0.0.1") || str_eq(host, "::1") {
        if req.port == 8118 {
            return true;
        }
        let ghost lv = listen_view(config.listen_addresses@);
        assert(is_cgi_host(req.host@, req.port, lv) == exists|k: int|
            0 <= k < lv.len() && #[trigger] lv[k].1 == req.port);
        let mut i: usize = 0;
        while i < config.listen_addresses.len()
            invariant
                i <= config.listen_addresses@.len(),
                lv == listen_view(config.listen_addresses@),
                lv.len() == config.listen_addresses@.len(),
                is_cgi_host(req.host@, req.port, lv) == exists|k: int|
                    0 <= k < lv.len() && #[trigger] lv[k].1 == req.port,
                forall|k: int| 0 <= k < i ==> lv[k].1 != req.port,
            decreases config.listen_addresses.len() - i,
        {
            assert(lv[i as int] == (config.listen_addresses@[i as int].addr@, config.listen_addresses@[i as int].port));
            if config.listen_addresses[i].port == req.port {
                assert(lv[i as int].1 == req.port);
                return true;
            }
            i += 1;
        }
        return false;
    }
    false
}

/// The addresses a trustworthy `Referer` starts with: the proxy's own
/// first listening address, and the interface's names.
pub open spec fn safe_referrer_prefixes(listen: Seq<(Seq<char>, u16)>) -> Seq<Seq<char>> {
    seq![
        "http://"@ + listen_host(listen) + ":"@ + listen_port(listen) + "/"@,
        "http://config.privoxy.org/"@,
        "http://p.p/"@,
        "https://config.privoxy.org/"@,
        "https://p.p/"@,
    ]
}

/// Whether a request that changes settings came from a page of the
/// interface: its `Referer` starts with one of the interface's addresses or
/// with a trusted referrer of the configuration.  A request without one is
/// refused.
pub open spec fn referrer_safe(referer: Option<Seq<char>>, listen: Seq<(Seq<char>, u16)>, trusted: Seq<Seq<char>>) -> bool {
    match referer {
        None => false,
        Some(r) => starts_with_one_of(r, safe_referrer_prefixes(listen)) || starts_with_one_of(r, trusted),
    }
}

/// Whether `r` starts with one of `prefixes`.
pub open spec fn starts_with_one_of(r: Seq<char>, prefixes: Seq<Seq<char>>) -> bool {
    exists|i: int| 0 <= i < prefixes.len() && #[trigger] starts_with(r, prefixes[i])
}

fn starts_with_any(r: &str, ps: &Vec<String>) -> (b: bool)
    ensures
        b == starts_with_one_of(r@, str_views(ps@)),
{
    let mut i: usize = 0;
    while i < ps.len()
        invariant
            i <= ps@.len(),
            forall|k: int| 0 <= k < i ==> !starts_with(r@, #[trigger] str_views(ps@)[k]),
        decreases ps.len() - i,
    {
        assert(str_views(ps@)[i as int] == ps@[i as int]@);
        if crate::text::str_starts_with(r, ps[i].as_str()) {
            return true;
        }
        i += 1;
    }
    false
}

/// Whether the request with the `Referer` value `referer` may change
/// settings.
pub fn referrer_is_safe(config: &Config, referer: Option<&str>) -> (r: bool)
    ensures
        r == referrer_safe(
            match referer {
                Some(x) => Some(x@),
                None => None,
            },
            listen_view(config.listen_addresses@),
            str_views(config.trusted_cgi_referers@),
        ),
{
    let r = match referer {
        Some(x) => x,
        None => {
            return false;
        },
    };
    let ghost lv = listen_view(config.listen_addresses@);
    assert(lv.len() == config.listen_addresses@.len());
    let (host, port) = if config.listen_addresses.len() > 0 {
        assert(lv[0] == (config.listen_addresses@[0].addr@, config.listen_addresses@[0].port));
        (config.listen_addresses[0].addr.clone(), decimal_text(config.listen_addresses[0].port as u64))
    } else {
        (own("127.0.0.1"), own("8118"))
    };
    let mut own_prefix = own("http://");
    push_str(&mut own_prefix, host.as_str());
    push_str(&mut own_prefix, ":");
    push_str(&mut own_prefix, port.as_str());
    push_str(&mut own_prefix, "/");
    let prefixes = vec![
        own_prefix,
        own("http://config.privoxy.org/"),
        own("http://p.p/"),
        own("https://config.privoxy.org/"),
        own("https://p.p/"),
    ];
    assert(str_views(prefixes@) =~= safe_referrer_prefixes(lv));
    let a = starts_with_any(r, &prefixes);
    let b = starts_with_any(r, &config.trusted_cgi_referers);
    a || b
}

/// The path a request for the interface is routed by: its target without
/// scheme, host and query.
pub open spec fn cgi_route_path(path: Seq<char>) -> Seq<char> {
    let p = crate::connection::normalized_path(path);
    match find_char(p, '?') {
        Some(q) => p.subrange(0, q),
        None => p,
    }
}

pub fn route_path_of(path: &str) -> (r: String)
    ensures
        r@ == cgi_route_path(path@),
{
    let p = crate::connection::normalize_request_path(path);
    let v = chars_of(p.as_str());
    match crate::text::find_char_exec(v.as_slice(), '?') {
        Some(q) => from_chars(crate::text::slice_chars(v.as_slice(), 0, q).as_slice()),
        None => p,
    }
}

/// The page that the proxy's own dispatcher gives a request for the
/// interface: a sent editor form, or one of the pages it knows.
pub open spec fn internal_route(is_post: bool, path: Seq<char>, toggling: bool) -> CgiPage {
    if is_post && (path == "/eas"@ || path == "/edit-actions-submit"@) {
        if path == "/edit-actions-submit"@ {
            CgiPage::EditActionsSubmit
        } else {
            CgiPage::EditActionsForUrlSubmit
        }
    } else if path == "/"@ || path == "/index.html"@ {
        CgiPage::Main
    } else if path == "/show-status"@ || path == "/status"@ {
        CgiPage::Status
    } else if path == "/show-request"@ {
        CgiPage::ShowRequest
    } else if path == "/show-url-info"@ {
        CgiPage::ShowUrlInfo
    } else if path == "/user-manual"@ {
        CgiPage::UserManual
    } else if path == "/toggle"@ {
        if toggling { CgiPage::Toggle } else { CgiPage::ToggleDisabled }
    } else {
        CgiPage::NotFound
    }
}

/// The page for a request for the interface that reached the proxy itself.
pub fn handle_cgi_request(config: &Config, req: &crate::http::HttpRequest) -> (r: CgiPage)
    ensures
        r == internal_route(
            req.method@ == "POST"@,
            cgi_route_path(req.path@),
            config.enable_remote_toggle,
        ),
{
    let p = route_path_of(req.path.as_str());
    let path = p.as_str();
    let is_post = str_eq(req.method.as_str(), "POST");
    if is_post && (str_eq(path, "/eas") || str_eq(path, "/edit-actions-submit")) {
        if str_eq(path, "/edit-actions-submit") {
            CgiPage::EditActionsSubmit
        } else {
            CgiPage::EditActionsForUrlSubmit
        }
    } else if str_eq(path, "/") || str_eq(path, "/index.html") {
        CgiPage::Main
    } else if str_eq(path, "/show-status") || str_eq(path, "/status") {
        CgiPage::Status
    } else if str_eq(path, "/show-request") {
        CgiPage::ShowRequest
    } else if str_eq(path, "/show-url-info") {
        CgiPage::ShowUrlInfo
    } else if str_eq(path, "/user-manual") {
        CgiPage::UserManual
    } else if str_eq(path, "/toggle") {
        if config.enable_remote_toggle { CgiPage::Toggle } else { CgiPage::ToggleDisabled }
    } else {
        CgiPage::NotFound
    }
}


// ---------------------------------------------------------------------------
// Which sections apply to a URL

/// The first of `patterns` that covers `url`.
pub open spec fn first_matching_pattern(patterns: Seq<Seq<char>>, url: Seq<char>) -> Option<int>
    decreases patterns.len(),
{
    if patterns.len() == 0 {
        None
    } else if url_matches(url, patterns[0]) {
        Some(0)
    } else {
        match first_matching_pattern(patterns.drop_first(), url) {
            Some(j) => Some(j + 1),
            None => None,
        }
    }
}

/// The sections of the actions files that cover `url`, in order: for each,
/// its position and the position of its first pattern that covers the URL.
pub open spec fn matching_sections(entries: Seq<UrlAction>, url: Seq<char>) -> Seq<(int, int)>
    decreases entries.len(),
{
    if entries.len() == 0 {
        seq![]
    } else {
        let prev = matching_sections(entries.drop_last(), url);
        match first_matching_pattern(str_views(entries.last().patterns@), url) {
            Some(j) => prev.push(((entries.len() - 1) as int, j)),
            None => prev,
        }
    }
}

fn first_matching_pattern_exec(patterns: &Vec<String>, url: &str) -> (r: Option<usize>)
    ensures
        match first_matching_pattern(str_views(patterns@), url@) {
            Some(j) => r == Some(j as usize) && 0 <= j < patterns@.len(),
            None => r is None,
        },
{
    let ghost ps = str_views(patterns@);
    let mut i: usize = 0;
    assert(ps.skip(0) =~= ps);
    while i < patterns.len()
        invariant
            i <= patterns@.len(),
            ps == str_views(patterns@),
            ps.len() == patterns@.len(),
            first_matching_pattern(ps, url@) == match first_matching_pattern(ps.skip(i as int), url@) {
                Some(j) => Some(j + i),
                None => None,
            },
        decreases patterns.len() - i,
    {
        assert(ps.skip(i as int)[0] == patterns@[i as int]@);
        assert(ps.skip(i as int).drop_first() =~= ps.skip(i + 1));
        if url_matches_pattern(url, patterns[i].as_str()) {
            return Some(i);
        }
        i += 1;
    }
    assert(ps.skip(i as int).len() == 0);
    None
}

/// The sections of the configuration's actions files that cover `url`, as
/// the URL information page lists them.
pub fn url_info_matches(config: &Config, url: &str) -> (r: Vec<(usize, usize)>)
    ensures
        r@.len() == matching_sections(config.url_actions@, url@).len(),
        forall|k: int| #![trigger r@[k]] 0 <= k < r@.len() ==> r@[k].0 as int == matching_sections(config.url_actions@, url@)[k].0
            && r@[k].1 as int == matching_sections(config.url_actions@, url@)[k].1,
{
    let ghost es = config.url_actions@;
    let mut r: Vec<(usize, usize)> = Vec::new();
    let mut i: usize = 0;
    while i < config.url_actions.len()
        invariant
            i <= es.len(),
            es == config.url_actions@,
            r@.len() == matching_sections(es.take(i as int), url@).len(),
            forall|k: int| #![trigger r@[k]] 0 <= k < r@.len() ==> r@[k].0 as int == matching_sections(es.take(i as int), url@)[k].0
                && r@[k].1 as int == matching_sections(es.take(i as int), url@)[k].1,
        decreases es.len() - i,
    {
        assert(es.take(i + 1).drop_last() =~= es.take(i as int));
        assert(es.take(i + 1).last() == es[i as int]);
        let ghost prev = matching_sections(es.take(i as int), url@);
        let ghost r0 = r@;
        let found = first_matching_pattern_exec(&config.url_actions[i].patterns, url);
        let ghost fm = first_matching_pattern(str_views(config.url_actions@[i as int].patterns@), url@);
        assert(match fm {
            Some(jj) => found == Some(jj as usize) && 0 <= jj < config.url_actions@[i as int].patterns@.len(),
            None => found is None,
        });
        match found {
            Some(j) => {
                assert(config.url_actions@[i as int].patterns@.len() == config.url_actions@[i as int].patterns.len());
                assert(fm == Some(j as int));
                r.push((i, j));
                let ghost next = matching_sections(es.take(i + 1), url@);
                assert(next == prev.push((i as int, j as int)));
                assert forall|k: int| #![trigger r@[k]] 0 <= k < r@.len() implies r@[k].0 as int == next[k].0
                    && r@[k].1 as int == next[k].1 by {
                    if k < r0.len() {
                        assert(r@[k] == r0[k]);
                        assert(next[k] == prev[k]);
                    }
                }
            },
            None => {
                assert(matching_sections(es.take(i + 1), url@) == prev);
            },
        }
        i += 1;
    }
    assert(es.take(es.len() as int) =~= es);
    r
}


/// The answer that carries a page of the interface: `200 OK`, HTML, and the
/// page's length.
pub open spec fn interface_response(html: Seq<char>) -> crate::http::ResponseModel {
    crate::http::ResponseModel {
        version: "HTTP/1.1"@,
        status_code: 200,
        status_text: "OK"@,
        headers: seq![
            ("Content-Type"@, "text/html; charset=utf-8"@),
            ("Content-Length"@, crate::text::decimal(vstd::utf8::encode_utf8(html).len())),
        ],
        body: vstd::utf8::encode_utf8(html),
        compression_level: crate::compression::COMPRESSION_LEVEL_DEFAULT,
        header_len: 0,
    }
}

/// Wraps a page of the interface in its answer.
pub fn interface_page_response(html: &str) -> (r: crate::http::HttpResponse)
    ensures
        r@ == interface_response(html@),
{
    let mut r = crate::http::HttpResponse::with_status(200, "OK");
    r.set_header("Content-Type", "text/html; charset=utf-8");
    let ghost h1 = r@.headers;
    assert(html.spec_bytes() == vstd::utf8::encode_utf8(html@));
    let body = vstd::slice::slice_to_vec(html.as_bytes());
    r.set_body(body);
    proof {
        reveal_strlit("Content-Type");
        reveal_strlit("Content-Length");
        crate::text::lemma_lower_len("Content-Type"@);
        crate::text::lemma_lower_len("Content-Length"@);
        assert(!crate::text::eq_ic("Content-Type"@, "Content-Length"@));
        let ct = ("Content-Type"@, "text/html; charset=utf-8"@);
        assert(crate::http::without_named(Seq::empty(), "Content-Type"@) =~= Seq::empty());
        assert(h1 =~= seq![ct]);
        assert(h1.drop_last() =~= Seq::<(Seq<char>, Seq<char>)>::empty());
        assert(crate::http::without_named(h1.drop_last(), "Content-Length"@) =~= Seq::empty());
        assert(crate::http::without_named(h1, "Content-Length"@) =~= seq![ct]);
        assert(r@.headers =~= interface_response(html@).headers);
    }
    r
}


// ---------------------------------------------------------------------------
// The status and main pages

/// Where the first symbol named `name` stands.
pub open spec fn symbol_index(syms: Seq<(Seq<char>, Seq<char>)>, name: Seq<char>) -> Option<int>
    decreases syms.len(),
{
    if syms.len() == 0 {
        None
    } else if syms[0].0 == name {
        Some(0)
    } else {
        match symbol_index(syms.drop_first(), name) {
            Some(i) => Some(i + 1),
            None => None,
        }
    }
}

/// `syms` with `name` set to `value`: the first symbol of that name takes
/// the value, or the symbol is added at the end.
pub open spec fn with_symbol(syms: Seq<(Seq<char>, Seq<char>)>, name: Seq<char>, value: Seq<char>) -> Seq<
    (Seq<char>, Seq<char>),
> {
    match symbol_index(syms, name) {
        Some(i) => syms.update(i, (name, value)),
        None => syms.push((name, value)),
    }
}

/// Sets the symbol `name` to `value`.
pub fn set_symbol(v: &mut Vec<(String, String)>, name: &str, value: String)
    ensures
        pairs_view(final(v)@) == with_symbol(pairs_view(old(v)@), name@, value@),
{
    let ghost s = pairs_view(v@);
    let mut i: usize = 0;
    assert(s.skip(0) =~= s);
    while i < v.len()
        invariant
            i <= v@.len(),
            s == pairs_view(v@),
            s == pairs_view(old(v)@),
            s.len() == v@.len(),
            symbol_index(s, name@) == match symbol_index(s.skip(i as int), name@) {
                Some(j) => Some(j + i),
                None => None,
            },
        decreases v.len() - i,
    {
        assert(s.skip(i as int)[0] == s[i as int]);
        assert(s.skip(i as int).drop_first() =~= s.skip(i + 1));
        if str_eq(v[i].0.as_str(), name) {
            assert(s[i as int].0 == name@);
            assert(symbol_index(s.skip(i as int), name@) == Some(0int));
            assert(symbol_index(s, name@) == Some(i as int));
            v.set(i, (own(name), value));
            assert(pairs_view(v@) =~= s.update(i as int, (name@, value@)));
            return;
        }
        i += 1;
    }
    assert(s.skip(i as int).len() == 0);
    v.push((own(name), value));
    assert(pairs_view(v@) =~= s.push((name@, value@)));
}

/// The listening addresses as the pages show them: `address:port`,
/// separated by commas.
pub open spec fn listen_list(listen: Seq<(Seq<char>, u16)>) -> Seq<char> {
    joined(listen.map_values(|a: (Seq<char>, u16)| a.0 + ":"@ + decimal(a.1 as nat)), ", "@)
}

fn listen_list_text(config: &Config) -> (r: String)
    ensures
        r@ == listen_list(listen_view(config.listen_addresses@)),
{
    let mut items: Vec<String> = Vec::new();
    let ghost lv = listen_view(config.listen_addresses@);
    let ghost f = |a: (Seq<char>, u16)| a.0 + ":"@ + decimal(a.1 as nat);
    let mut i: usize = 0;
    while i < config.listen_addresses.len()
        invariant
            i <= config.listen_addresses@.len(),
            lv == listen_view(config.listen_addresses@),
            lv.len() == config.listen_addresses@.len(),
            f == (|a: (Seq<char>, u16)| a.0 + ":"@ + decimal(a.1 as nat)),
            str_views(items@) == lv.take(i as int).map_values(f),
        decreases config.listen_addresses.len() - i,
    {
        let mut t = config.listen_addresses[i].addr.clone();
        push_str(&mut t, ":");
        crate::text::push_decimal(&mut t, config.listen_addresses[i].port as u64);
        let ghost before = items@;
        items.push(t);
        assert(lv[i as int] == (config.listen_addresses@[i as int].addr@, config.listen_addresses@[i as int].port));
        assert(str_views(items@) =~= str_views(before).push(f(lv[i as int])));
        assert(lv.take(i + 1).map_values(f) =~= lv.take(i as int).map_values(f).push(f(lv[i as int])));
        i += 1;
    }
    assert(lv.take(lv.len() as int) =~= lv);
    join_exec(&items, ", ")
}

/// The symbols both pages add for the counters: the four counts, the
/// listening addresses, the log level, and `have-stats` or `have-no-stats`
/// as requests have been received or not.
pub open spec fn page_counter_symbols(
    syms: Seq<(Seq<char>, Seq<char>)>,
    stats: Statistics,
    listen: Seq<(Seq<char>, u16)>,
    log_level: u32,
) -> Seq<(Seq<char>, Seq<char>)> {
    let a = with_symbol(syms, "requests-received"@, decimal(stats.requests_received as nat));
    let b = with_symbol(a, "requests-blocked"@, decimal(stats.requests_blocked as nat));
    let c = with_symbol(b, "urls-read"@, decimal(stats.urls_read as nat));
    let d = with_symbol(c, "urls-rejected"@, decimal(stats.urls_rejected as nat));
    let e = with_symbol(d, "listen-addresses"@, listen_list(listen));
    with_symbol(e, "log-level"@, decimal(log_level as nat))
}

/// The symbol that says whether requests have been received.
pub open spec fn stats_flag(syms: Seq<(Seq<char>, Seq<char>)>, stats: Statistics) -> Seq<(Seq<char>, Seq<char>)> {
    if stats.requests_received > 0 {
        with_symbol(syms, "have-stats"@, "1"@)
    } else {
        with_symbol(syms, "have-no-stats"@, "1"@)
    }
}

fn add_page_counter_symbols(v: &mut Vec<(String, String)>, stats: &Statistics, config: &Config)
    ensures
        pairs_view(final(v)@) == page_counter_symbols(
            pairs_view(old(v)@),
            *stats,
            listen_view(config.listen_addresses@),
            config.log_level,
        ),
{
    set_symbol(v, "requests-received", decimal_text(stats.requests_received));
    set_symbol(v, "requests-blocked", decimal_text(stats.requests_blocked));
    set_symbol(v, "urls-read", decimal_text(stats.urls_read));
    set_symbol(v, "urls-rejected", decimal_text(stats.urls_rejected));
    set_symbol(v, "listen-addresses", listen_list_text(config));
    set_symbol(v, "log-level", decimal_text(config.log_level as u64));
}

fn add_stats_flag(v: &mut Vec<(String, String)>, stats: &Statistics)
    ensures
        pairs_view(final(v)@) == stats_flag(pairs_view(old(v)@), *stats),
{
    if stats.requests_received > 0 {
        set_symbol(v, "have-stats", own("1"));
    } else {
        set_symbol(v, "have-no-stats", own("1"));
    }
}

/// The symbols of the status page: the common ones, the counters, how the
/// program was invoked, the options, and the statistics flag.
pub open spec fn status_symbols(
    common: Seq<(Seq<char>, Seq<char>)>,
    stats: Statistics,
    listen: Seq<(Seq<char>, u16)>,
    log_level: u32,
    invocation: Seq<char>,
) -> Seq<(Seq<char>, Seq<char>)> {
    let a = page_counter_symbols(common, stats, listen, log_level);
    let b = with_symbol(a, "invocation"@, invocation);
    let c = with_symbol(b, "options"@, "default"@);
    stats_flag(c, stats)
}

/// The status page: the `show-status` template filled in with the common
/// symbols and the status symbols.
pub fn generate_status_page(
    template: &str,
    common: Vec<(String, String)>,
    stats: &Statistics,
    config: &Config,
    invocation: &str,
) -> (r: String)
    ensures
        r@ == rendered(
            template@,
            status_symbols(
                pairs_view(common@),
                *stats,
                listen_view(config.listen_addresses@),
                config.log_level,
                invocation@,
            ),
        ),
{
    let mut v = common;
    add_page_counter_symbols(&mut v, stats, config);
    set_symbol(&mut v, "invocation", own(invocation));
    set_symbol(&mut v, "options", own("default"));
    add_stats_flag(&mut v, stats);
    assert(crate::template::symbols_view(v@) =~= pairs_view(v@));
    render_template(template, &v)
}

/// The symbols of the main page: the common ones, the counters, the
/// buffer size, and the statistics flag.
pub open spec fn main_symbols(
    common: Seq<(Seq<char>, Seq<char>)>,
    stats: Statistics,
    listen: Seq<(Seq<char>, u16)>,
    log_level: u32,
) -> Seq<(Seq<char>, Seq<char>)> {
    let a = page_counter_symbols(common, stats, listen, log_level);
    let b = with_symbol(a, "buffer-size"@, decimal(crate::constants::BUFFER_SIZE as nat));
    stats_flag(b, stats)
}

/// The main page: the `default` template filled in with the common symbols
/// and the main page's symbols.
pub fn generate_main_page(
    template: &str,
    common: Vec<(String, String)>,
    stats: &Statistics,
    config: &Config,
) -> (r: String)
    ensures
        r@ == rendered(
            template@,
            main_symbols(pairs_view(common@), *stats, listen_view(config.listen_addresses@), config.log_level),
        ),
{
    let mut v = common;
    add_page_counter_symbols(&mut v, stats, config);
    set_symbol(&mut v, "buffer-size", decimal_text(crate::constants::BUFFER_SIZE as u64));
    add_stats_flag(&mut v, stats);
    assert(crate::template::symbols_view(v@) =~= pairs_view(v@));
    render_template(template, &v)
}


// ---------------------------------------------------------------------------
// Routing with the query

/// Whether a part of `parts` of the form `key=value` has the key `k`.
pub open spec fn raw_param_present(parts: Seq<Seq<char>>, k: Seq<char>) -> bool
    decreases parts.len(),
{
    if parts.len() == 0 {
        false
    } else {
        raw_param_present(parts.drop_last(), k) || (split_once(parts.last(), '=') matches Some(kv) && kv.0 == k)
    }
}

fn raw_param_present_exec(query: &str, k: &str) -> (r: bool)
    ensures
        r == raw_param_present(split_char(query@, '&'), k@),
{
    let v = chars_of(query);
    let parts = split_char_exec(v.as_slice(), '&');
    let ghost ps = split_char(query@, '&');
    let kv = chars_of(k);
    let mut found = false;
    let mut i: usize = 0;
    while i < parts.len()
        invariant
            i <= parts@.len(),
            crate::text::views(parts@) == ps,
            ps.len() == parts@.len(),
            kv@ == k@,
            found == raw_param_present(ps.take(i as int), k@),
        decreases parts.len() - i,
    {
        assert(ps.take(i + 1).drop_last() =~= ps.take(i as int));
        assert(ps.take(i + 1).last() == parts@[i as int]@);
        match split_once_exec(parts[i].as_slice(), '=') {
            Some(p) => {
                if crate::text::seq_eq(p.0.as_slice(), kv.as_slice()) {
                    found = true;
                }
            },
            None => {},
        }
        i += 1;
    }
    assert(ps.take(ps.len() as int) =~= ps);
    found
}

/// The page for a request, its query taken into account: the file editor
/// needs a query that names a `file`, and the section swap is done at once
/// where the query names the `file` and both sections.
pub open spec fn route_with_query(
    is_post: bool,
    path: Seq<char>,
    query: Option<Seq<char>>,
    editing: bool,
    toggling: bool,
    safe: bool,
) -> CgiPage {
    let p = route_of(is_post, path, editing, toggling, safe);
    match p {
        CgiPage::EditActionsFile => match query {
            None => CgiPage::MissingQueryString,
            Some(q) => if raw_param_present(split_char(q, '&'), "file"@) {
                CgiPage::EditActionsFile
            } else {
                CgiPage::MissingFileParameter
            },
        },
        CgiPage::SwapSections => {
            let ps = query_pairs(match query {
                Some(q) => q,
                None => Seq::empty(),
            });
            if param_value(ps, "file"@) is Some && param_value(ps, "section1"@) is Some && param_value(
                ps,
                "section2"@,
            ) is Some {
                CgiPage::SwapSectionsNow
            } else {
                CgiPage::SwapSections
            }
        },
        _ => p,
    }
}

/// Which page a request for `path` with `query` gets.
pub fn route_request(
    is_post: bool,
    path: &str,
    query: Option<&str>,
    editing: bool,
    toggling: bool,
    safe: bool,
) -> (r: CgiPage)
    ensures
        r == route_with_query(
            is_post,
            path@,
            match query {
                Some(q) => Some(q@),
                None => None,
            },
            editing,
            toggling,
            safe,
        ),
{
    let p = route(is_post, path, editing, toggling, safe);
    match p {
        CgiPage::EditActionsFile => match query {
            None => CgiPage::MissingQueryString,
            Some(q) => {
                let present = raw_param_present_exec(q, "file");
                assert(present == raw_param_present(split_char(q@, '&'), "file"@));
                if present {
                    CgiPage::EditActionsFile
                } else {
                    CgiPage::MissingFileParameter
                }
            },
        },
        CgiPage::SwapSections => {
            let params = parse_query_string(match query {
                Some(q) => q,
                None => "",
            });
            proof {
                reveal_strlit("");
                assert(""@ =~= Seq::<char>::empty());
            }
            let f = param_get(&params, "file");
            let s1 = param_get(&params, "section1");
            let s2 = param_get(&params, "section2");
            if f.is_some() && s1.is_some() && s2.is_some() {
                CgiPage::SwapSectionsNow
            } else {
                CgiPage::SwapSections
            }
        },
        _ => p,
    }
}


// ---------------------------------------------------------------------------
// Applying a sent editor form

/// Puts the actions a sent editor form describes into the line it names:
/// `true` where that line exists (whatever its kind), `false` where the form
/// names a line past the end, which leaves the file as it is.
pub fn apply_edit_submission(file: &mut EditableFile, params: &Vec<(String, String)>) -> (r: bool)
    ensures
        ({
            let i = submitted_line(pairs_view(params@));
            let a = joined(submitted_tokens(pairs_view(params@)), " "@);
            &&& r == (i < old(file).lines@.len())
            &&& r ==> lines_view(final(file).lines@) == lines_view(old(file).lines@).update(
                i as int,
                LineModel { data: DataModel::Action(a), ..old(file).lines@[i as int]@ },
            )
            &&& !r ==> final(file).lines@ == old(file).lines@
        }),
        fields_but_lines_kept(*old(file), *final(file)),
{
    let i = edit_submission_line(params);
    let a = edit_submission_action(params);
    match file.get_line_mut(i) {
        Some(line) => {
            line.data = LineData::Action(a);
            proof {
                assert(lines_view(file.lines@) =~= lines_view(old(file).lines@).update(
                    i as int,
                    LineModel { data: DataModel::Action(a@), ..old(file).lines@[i as int]@ },
                ));
            }
            true
        },
        None => false,
    }
}

/// The page shown once the actions of a line were saved: it returns to the
/// file's page after two seconds.
pub open spec fn actions_updated_page(filename: Seq<char>) -> Seq<char> {
    "<!DOCTYPE html>\n<html>\n<head>\n    <meta http-equiv=\"refresh\" content=\"2;url=/edit-actions-file?file="@ + filename
        + "\">\n    <title>Actions updated</title>\n</head>\n<body>\n    <h1>Actions updated successfully</h1>\n    <p>Returning to file view in 2 seconds...</p>\n    <p><a href=\"/edit-actions-file?file="@
        + filename + "\">Click here if not redirected</a></p>\n</body>\n</html>"@
}

/// The page shown once the actions of a line of `filename` were saved.
pub fn generate_actions_updated(filename: &str) -> (r: String)
    ensures
        r@ == actions_updated_page(filename@),
{
    let mut r = own("<!DOCTYPE html>\n<html>\n<head>\n    <meta http-equiv=\"refresh\" content=\"2;url=/edit-actions-file?file=");
    push_str(&mut r, filename);
    push_str(&mut r, "\">\n    <title>Actions updated</title>\n</head>\n<body>\n    <h1>Actions updated successfully</h1>\n    <p>Returning to file view in 2 seconds...</p>\n    <p><a href=\"/edit-actions-file?file=");
    push_str(&mut r, filename);
    push_str(&mut r, "\">Click here if not redirected</a></p>\n</body>\n</html>");
    r
}


// ---------------------------------------------------------------------------
// The per-URL editor form

/// The trimmed URL pattern a sent form names; empty where it names none.
pub open spec fn submitted_pattern(ps: Seq<(Seq<char>, Seq<char>)>) -> Seq<char> {
    match param_value(ps, "url_pattern"@) {
        Some(v) => trim(v),
        None => Seq::empty(),
    }
}

/// The text of the error for a line index past the end.
pub open spec fn line_range_text(i: usize) -> Seq<char> {
    "Line index "@ + decimal(i as nat) + " out of range"@
}

/// The line that holds the URL pattern `p`.
pub open spec fn url_line(p: Seq<char>) -> LineModel {
    LineModel {
        line_type: LineType::Url,
        raw: p,
        prefix: Seq::empty(),
        unprocessed: p,
        data: DataModel::Empty,
    }
}

/// Removing the line at `i`: the lines after it, and the message where it
/// is gone or the error where `i` is past the end.
pub open spec fn line_removed(ls: Seq<LineModel>, i: usize, done: Seq<char>, failed: Seq<char>) -> (Seq<LineModel>, Seq<char>) {
    if i < ls.len() {
        (ls.remove(i as int), done)
    } else {
        (ls, failed + html_escaped(line_range_text(i)))
    }
}

/// What a sent per-URL form does to the lines of an actions file, and the
/// message it answers with; nothing where a URL is to be added without a
/// pattern.  The form's `action` picks the change: `add_url` puts the
/// pattern after the action header at `line`, `remove_url` and
/// `remove_section` take the line out, `edit_url` rewrites a URL line.  The
/// actions `add_section` and `swap_sections` name changes that an actions
/// file offers no operation for; like any other name they get `Unknown
/// action`.
pub open spec fn url_edit_outcome(ls: Seq<LineModel>, ps: Seq<(Seq<char>, Seq<char>)>) -> Option<(Seq<LineModel>, Seq<char>)> {
    let action = match param_value(ps, "action"@) {
        Some(a) => a,
        None => Seq::empty(),
    };
    let i = submitted_line(ps);
    let p = submitted_pattern(ps);
    if action == "add_url"@ {
        if p.len() == 0 {
            None
        } else if i >= ls.len() {
            Some((ls, "Failed to add URL rule: "@ + html_escaped(line_range_text(i))))
        } else if ls[i as int].line_type != LineType::Action {
            Some((ls, "Failed to add URL rule: "@ + html_escaped("Can only insert URL pattern after an action header"@)))
        } else {
            Some((ls.insert(i + 1, url_line(p)), "Added URL rule: "@ + html_escaped(p)))
        }
    } else if action == "remove_url"@ {
        Some(line_removed(ls, i, "URL rule removed successfully"@, "Failed to remove URL rule: "@))
    } else if action == "edit_url"@ {
        if i < ls.len() {
            if ls[i as int].line_type == LineType::Url {
                Some((
                    ls.update(i as int, LineModel { unprocessed: p, raw: p.push('\n'), ..ls[i as int] }),
                    "Updated URL rule to: "@ + html_escaped(p),
                ))
            } else {
                Some((ls, "Line is not a URL pattern"@))
            }
        } else {
            Some((ls, "Invalid line index"@))
        }
    } else if action == "remove_section"@ {
        Some(line_removed(ls, i, "Action section removed successfully"@, "Failed to remove section: "@))
    } else {
        Some((ls, "Unknown action"@))
    }
}

/// Whether the file is saved after a change with the message `m`: not
/// where the message reports a failure, an unknown action or an invalid
/// line.
pub open spec fn url_edit_saved(m: Seq<char>) -> bool {
    !contains(m, "Failed"@) && !contains(m, "Unknown"@) && !contains(m, "Invalid"@)
}

fn line_removal_message(r: crate::error::PrivoxyResult<()>, done: &str, failed: &str) -> (m: String)
    ensures
        r is Ok ==> m@ == done@,
        r matches Err(e) ==> m@ == failed@ + html_escaped(crate::error::error_prefix(e) + crate::error::error_detail(e)),
{
    match r {
        Ok(()) => own(done),
        Err(e) => {
            let mut m = own(failed);
            push_str(&mut m, crate::encode::html_encode(e.message().as_str()).as_str());
            m
        },
    }
}

/// Applies a sent per-URL form to the lines of `file`, and gives the
/// message to show; nothing where a URL is to be added without a pattern.
pub fn apply_url_edit(file: &mut EditableFile, params: &Vec<(String, String)>) -> (r: Option<String>)
    ensures
        match url_edit_outcome(lines_view(old(file).lines@), pairs_view(params@)) {
            None => r is None && final(file).lines@ == old(file).lines@,
            Some(o) => r matches Some(m) && m@ == o.1 && lines_view(final(file).lines@) == o.0,
        },
        fields_but_lines_kept(*old(file), *final(file)),
{
    let action = match param_get(params, "action") {
        Some(a) => a,
        None => String::new(),
    };
    let i = edit_submission_line(params);
    let p = match param_get(params, "url_pattern") {
        Some(v) => trim_str(v.as_str()),
        None => String::new(),
    };
    let ghost ls = lines_view(file.lines@);
    proof {
        reveal_strlit("");
    }
    let a = action.as_str();
    if str_eq(a, "add_url") {
        if p.as_str().unicode_len() == 0 {
            return None;
        }
        let res = file.insert_url_pattern(i, p.as_str());
        match res {
            Ok(()) => {
                let mut m = own("Added URL rule: ");
                push_str(&mut m, crate::encode::html_encode(p.as_str()).as_str());
                Some(m)
            },
            Err(e) => {
                let mut m = own("Failed to add URL rule: ");
                push_str(&mut m, crate::encode::html_encode(e.message().as_str()).as_str());
                Some(m)
            },
        }
    } else if str_eq(a, "remove_url") {
        let res = file.delete_line(i);
        Some(line_removal_message(res, "URL rule removed successfully", "Failed to remove URL rule: "))
    } else if str_eq(a, "edit_url") {
        match file.get_line_mut(i) {
            Some(line) => {
                if line.line_type == LineType::Url {
                    line.unprocessed = p.clone();
                    let mut raw = p.clone();
                    raw.push('\n');
                    line.raw = raw;
                    let mut m = own("Updated URL rule to: ");
                    push_str(&mut m, crate::encode::html_encode(p.as_str()).as_str());
                    Some(m)
                } else {
                    Some(own("Line is not a URL pattern"))
                }
            },
            None => Some(own("Invalid line index")),
        }
    } else if str_eq(a, "remove_section") {
        let res = file.delete_line(i);
        Some(line_removal_message(res, "Action section removed successfully", "Failed to remove section: "))
    } else {
        Some(own("Unknown action"))
    }
}

/// Whether the file is saved after a change with the message `m`.
pub fn url_edit_should_save(m: &str) -> (r: bool)
    ensures
        r == url_edit_saved(m@),
{
    !str_contains(m, "Failed") && !str_contains(m, "Unknown") && !str_contains(m, "Invalid")
}

/// The page that reports the result of a per-URL change and returns to the
/// file's page after two seconds.
pub open spec fn action_result_page(filename: Seq<char>, result: Seq<char>) -> Seq<char> {
    "<!DOCTYPE html>\n<html>\n<head>\n    <meta http-equiv=\"refresh\" content=\"2;url=/edit-actions-file?file="@ + filename
        + "\">\n    <title>Action Result</title>\n</head>\n<body>\n    <h1>Action Result</h1>\n    <p>"@ + result
        + "</p>\n    <p>Returning to file view in 2 seconds...</p>\n    <p><a href=\"/edit-actions-file?file="@ + filename
        + "\">Click here if not redirected</a></p>\n</body>\n</html>"@
}

/// The page that reports the result of a per-URL change.
pub fn generate_action_result(filename: &str, result: &str) -> (r: String)
    ensures
        r@ == action_result_page(filename@, result@),
{
    let mut r = own("<!DOCTYPE html>\n<html>\n<head>\n    <meta http-equiv=\"refresh\" content=\"2;url=/edit-actions-file?file=");
    push_str(&mut r, filename);
    push_str(&mut r, "\">\n    <title>Action Result</title>\n</head>\n<body>\n    <h1>Action Result</h1>\n    <p>");
    push_str(&mut r, result);
    push_str(&mut r, "</p>\n    <p>Returning to file view in 2 seconds...</p>\n    <p><a href=\"/edit-actions-file?file=");
    push_str(&mut r, filename);
    push_str(&mut r, "\">Click here if not redirected</a></p>\n</body>\n</html>");
    r
}

} // verus!
