//! Action strings: the `+name{value}` and `-name` tokens that turn the
//! actions of a URL pattern on and off.

use vstd::prelude::*;
use crate::text::{
    trim, starts_with, ends_with, parse_unsigned, chars_of, trim_vec, views, from_chars,
    str_views, slice_chars, starts_with_exec, ends_with_exec, parse_u32, parse_u64, push_chars,
    push_str, seq_eq,
};
use crate::http::opt_view;
use crate::config::{Action, ActionModel, config_error, names_of, lemma_names_of};
use crate::error::{PrivoxyError, PrivoxyResult};
use crate::action_rules_a::{tokens_block, tokens_block_exec, tokens_redirect, tokens_redirect_exec, tokens_filter, tokens_filter_exec, tokens_handle_as_empty_document, tokens_handle_as_empty_document_exec, tokens_handle_as_image, tokens_handle_as_image_exec, tokens_deanimate_gifs, tokens_deanimate_gifs_exec, tokens_hide_from_header, tokens_hide_from_header_exec, tokens_hide_user_agent, tokens_hide_user_agent_exec};
use crate::action_rules_b::{tokens_hide_referrer, tokens_hide_referrer_exec, tokens_hide_accept_language, tokens_hide_accept_language_exec, tokens_set_image_blocker, tokens_set_image_blocker_exec, tokens_prevent_compression, tokens_prevent_compression_exec, tokens_crunch_incoming_cookies, tokens_crunch_incoming_cookies_exec, tokens_crunch_outgoing_cookies, tokens_crunch_outgoing_cookies_exec, tokens_crunch_if_none_match, tokens_crunch_if_none_match_exec};
use crate::action_rules_c::{tokens_downgrade_http_version, tokens_downgrade_http_version_exec, tokens_https_inspection, tokens_https_inspection_exec, tokens_add_header, tokens_add_header_exec, tokens_crunch_client_header, tokens_crunch_client_header_exec, tokens_client_header_tagger, tokens_client_header_tagger_exec, tokens_content_type_overwrite, tokens_content_type_overwrite_exec, tokens_send_user_agent, tokens_send_user_agent_exec, tokens_fast_redirects, tokens_fast_redirects_exec};
use crate::action_rules_d::{tokens_limit_connect, tokens_limit_connect_exec, tokens_limit_connect_retries, tokens_limit_connect_retries_exec, tokens_overwrite_last_modified, tokens_overwrite_last_modified_exec, tokens_change_x_forwarded_for, tokens_change_x_forwarded_for_exec, tokens_delay_response, tokens_delay_response_exec, tokens_hide_content_disposition, tokens_hide_content_disposition_exec, tokens_kill_popups, tokens_kill_popups_exec};

verus! {

// ---------------------------------------------------------------------------
// Copies

pub fn clone_opt(o: &Option<String>) -> (r: Option<String>)
    ensures
        opt_view(r) == opt_view(*o),
{
    match o {
        Some(s) => Some(s.clone()),
        None => None,
    }
}

pub fn clone_strings(v: &Vec<String>) -> (r: Vec<String>)
    ensures
        str_views(r@) == str_views(v@),
        names_of(r) == names_of(*v),
{
    let mut r: Vec<String> = Vec::new();
    let mut i: usize = 0;
    while i < v.len()
        invariant
            i <= v.len(),
            str_views(r@) == str_views(v@).take(i as int),
        decreases v.len() - i,
    {
        let ghost before = r@;
        let s = v[i].clone();
        r.push(s);
        assert(str_views(r@) =~= str_views(before).push(v@[i as int]@));
        assert(str_views(v@).take(i as int + 1) =~= str_views(v@).take(i as int).push(v@[i as int]@));
        i += 1;
    }
    assert(str_views(v@).take(i as int) =~= str_views(v@));
    proof {
        lemma_names_of(r);
        lemma_names_of(*v);
    }
    r
}

/// A copy of an action with the same model.
pub fn copy_action(a: &Action) -> (r: Action)
    ensures
        r@ == a@,
{
    Action {
        name: a.name.clone(),
        enabled: a.enabled,
        block: a.block,
        block_reason: clone_opt(&a.block_reason),
        redirect: clone_opt(&a.redirect),
        filter: a.filter,
        filter_names: clone_strings(&a.filter_names),
        client_body_filter_names: clone_strings(&a.client_body_filter_names),
        client_header_filter_names: clone_strings(&a.client_header_filter_names),
        server_header_filter_names: clone_strings(&a.server_header_filter_names),
        client_header_tagger_names: clone_strings(&a.client_header_tagger_names),
        server_header_tagger_names: clone_strings(&a.server_header_tagger_names),
        client_body_tagger_names: clone_strings(&a.client_body_tagger_names),
        tags: clone_strings(&a.tags),
        suppress_tags: clone_strings(&a.suppress_tags),
        handle_as_empty_document: a.handle_as_empty_document,
        handle_as_image: a.handle_as_image,
        limit_connect: clone_opt(&a.limit_connect),
        limit_connect_retries: a.limit_connect_retries,
        fast_redirects: clone_opt(&a.fast_redirects),
        force_text_mode: a.force_text_mode,
        hide_accept_language: clone_opt(&a.hide_accept_language),
        hide_content_disposition: clone_opt(&a.hide_content_disposition),
        hide_from_header: clone_opt(&a.hide_from_header),
        hide_if_modified_since: clone_opt(&a.hide_if_modified_since),
        hide_referrer: clone_opt(&a.hide_referrer),
        hide_user_agent: clone_opt(&a.hide_user_agent),
        inspect_jpegs: a.inspect_jpegs,
        kill_popups: a.kill_popups,
        limit_cookie_lifetime: a.limit_cookie_lifetime,
        overwrite_last_modified: clone_opt(&a.overwrite_last_modified),
        prevent_compression: a.prevent_compression,
        send_wafer: clone_opt(&a.send_wafer),
        send_user_agent: clone_opt(&a.send_user_agent),
        session_cookies_only: a.session_cookies_only,
        set_image_blocker: clone_opt(&a.set_image_blocker),
        add_headers: clone_strings(&a.add_headers),
        crunch_client_headers: clone_strings(&a.crunch_client_headers),
        crunch_server_headers: clone_strings(&a.crunch_server_headers),
        crunch_incoming_cookies: a.crunch_incoming_cookies,
        crunch_outgoing_cookies: a.crunch_outgoing_cookies,
        crunch_if_none_match: a.crunch_if_none_match,
        deanimate_gifs: clone_opt(&a.deanimate_gifs),
        downgrade_http_version: a.downgrade_http_version,
        content_type_overwrite: clone_opt(&a.content_type_overwrite),
        change_x_forwarded_for: clone_opt(&a.change_x_forwarded_for),
        delay_response: a.delay_response,
        forward_override: clone_opt(&a.forward_override),
        https_inspection: a.https_inspection,
        ignore_certificate_errors: a.ignore_certificate_errors,
    }
}

// ---------------------------------------------------------------------------
// Action strings

/// The text between `prefix` and a closing `}` ending the token.
#[verifier::opaque]
pub open spec fn bracketed(t: Seq<char>, prefix: Seq<char>) -> Option<Seq<char>> {
    if starts_with(t, prefix) && ends_with(t, "}"@) && t.len() >= prefix.len() + 1 {
        Some(t.subrange(prefix.len() as int, t.len() - 1))
    } else {
        None
    }
}

pub(crate) fn bracket_inner(t: &Vec<char>, prefix: &str) -> (r: Option<Vec<char>>)
    ensures
        match bracketed(t@, prefix@) {
            Some(x) => r matches Some(y) && y@ == x,
            None => r is None,
        },
{
    let p = chars_of(prefix);
    let close = vec!['}'];
    proof {
        reveal(bracketed);
        reveal_strlit("}");
        assert(close@ =~= "}"@);
    }
    if starts_with_exec(t, &p) && ends_with_exec(t, &close) && t.len() > p.len() {
        Some(slice_chars(t, p.len(), t.len() - 1))
    } else {
        None
    }
}

pub(crate) fn vec_is(v: &Vec<char>, s: &str) -> (r: bool)
    ensures
        r == (v@ == s@),
{
    let w = chars_of(s);
    seq_eq(v, &w)
}

/// `s` without any element equal to `x`.
pub open spec fn without(s: Seq<Seq<char>>, x: Seq<char>) -> Seq<Seq<char>>
    decreases s.len(),
{
    if s.len() == 0 {
        s
    } else if s.last() == x {
        without(s.drop_last(), x)
    } else {
        without(s.drop_last(), x).push(s.last())
    }
}

/// Whether a name differs from `x`.
pub open spec fn differs_from(x: Seq<char>) -> spec_fn(Seq<char>) -> bool {
    |n: Seq<char>| n != x
}

/// Dropping `x` keeps every other name, in order.
pub proof fn lemma_without_filters(s: Seq<Seq<char>>, x: Seq<char>)
    ensures
        without(s, x) == s.filter(differs_from(x)),
    decreases s.len(),
{
    reveal(Seq::filter);
    if s.len() > 0 {
        lemma_without_filters(s.drop_last(), x);
    }
}

pub(crate) fn push_chars_string(v: &mut Vec<String>, x: &Vec<char>)
    ensures
        names_of(*final(v)) == names_of(*old(v)).push(x@),
{
    let ghost before = *v;
    v.push(from_chars(x));
    proof {
        lemma_names_of(before);
        lemma_names_of(*v);
        assert(str_views(v@) =~= str_views(before@).push(x@));
    }
}

pub(crate) fn remove_string(v: &mut Vec<String>, x: &Vec<char>)
    ensures
        names_of(*final(v)) == without(names_of(*old(v)), x@),
{
    proof {
        lemma_names_of(*v);
    }
    let ghost sv = str_views(v@);
    let mut kept: Vec<String> = Vec::new();
    let mut i: usize = 0;
    while i < v.len()
        invariant
            i <= v.len(),
            sv == str_views(v@),
            str_views(kept@) == without(sv.take(i as int), x@),
        decreases v.len() - i,
    {
        proof {
            assert(sv.take(i as int + 1).drop_last() =~= sv.take(i as int));
            assert(sv.take(i as int + 1).last() == v@[i as int]@);
        }
        let w = chars_of(v[i].as_str());
        if !seq_eq(&w, x) {
            let ghost before = kept@;
            kept.push(v[i].clone());
            assert(str_views(kept@) =~= str_views(before).push(v@[i as int]@));
        }
        i += 1;
    }
    assert(sv.take(i as int) =~= sv);
    proof {
        lemma_names_of(kept);
    }
    *v = kept;
}

/// The state of splitting an action string: the tokens so far, the token
/// being read and the brace depth.
pub open spec fn tok_step(st: (Seq<Seq<char>>, Seq<char>, int), c: char) -> (Seq<Seq<char>>, Seq<char>, int) {
    if c == '{' {
        (st.0, st.1.push(c), st.2 + 1)
    } else if c == '}' {
        (st.0, st.1.push(c), st.2 - 1)
    } else if (c == ' ' || c == '\t') && st.2 == 0 {
        if st.1.len() > 0 {
            (st.0.push(st.1), Seq::empty(), st.2)
        } else {
            st
        }
    } else {
        (st.0, st.1.push(c), st.2)
    }
}

pub open spec fn tok_state(s: Seq<char>) -> (Seq<Seq<char>>, Seq<char>, int)
    decreases s.len(),
{
    if s.len() == 0 {
        (Seq::empty(), Seq::empty(), 0)
    } else {
        tok_step(tok_state(s.drop_last()), s.last())
    }
}

/// The tokens of an action string: split at spaces and tabs that are not
/// inside braces.
pub open spec fn action_tokens(s: Seq<char>) -> Seq<Seq<char>> {
    let st = tok_state(s);
    if st.1.len() > 0 {
        st.0.push(st.1)
    } else {
        st.0
    }
}

/// The actions after applying tokens in order; blank tokens are skipped and
/// the first bad token decides the error.
pub open spec fn apply_action_tokens(a: ActionModel, ts: Seq<Seq<char>>) -> Result<ActionModel, Seq<char>>
    decreases ts.len(),
{
    if ts.len() == 0 {
        Ok(a)
    } else {
        match apply_action_tokens(a, ts.drop_last()) {
            Err(e) => Err(e),
            Ok(b) => if trim(ts.last()).len() == 0 {
                Ok(b)
            } else {
                apply_action_token(b, trim(ts.last()))
            },
        }
    }
}

/// What an action string such as `+block{reason} -filter{name}` does to
/// the actions.
pub open spec fn action_string_result(a: ActionModel, s: Seq<char>) -> Result<ActionModel, Seq<char>> {
    apply_action_tokens(a, action_tokens(trim(s)))
}

proof fn lemma_tokens_err_prefix(a: ActionModel, ts: Seq<Seq<char>>, k: int)
    requires
        0 <= k <= ts.len(),
        apply_action_tokens(a, ts.take(k)) is Err,
    ensures
        apply_action_tokens(a, ts) == apply_action_tokens(a, ts.take(k)),
    decreases ts.len() - k,
{
    if k < ts.len() {
        assert(ts.take(k + 1).drop_last() =~= ts.take(k));
        lemma_tokens_err_prefix(a, ts, k + 1);
    } else {
        assert(ts.take(k) =~= ts);
    }
}

/// Splits an action string into tokens.
fn split_action_tokens(content: &Vec<char>) -> (r: Vec<Vec<char>>)
    ensures
        views(r@) == action_tokens(content@),
{
    let mut tokens: Vec<Vec<char>> = Vec::new();
    let mut current: Vec<char> = Vec::new();
    let mut depth: i128 = 0;
    let mut i: usize = 0;
    while i < content.len()
        invariant
            i <= content.len(),
            -(i as int) <= depth <= i as int,
            tok_state(content@.take(i as int)) == (views(tokens@), current@, depth as int),
        decreases content.len() - i,
    {
        proof {
            assert(content@.take(i as int + 1).drop_last() =~= content@.take(i as int));
            assert(content@.take(i as int + 1).last() == content@[i as int]);
        }
        let c = content[i];
        let ghost before = tokens@;
        if c == '{' {
            depth = depth + 1;
            current.push(c);
        } else if c == '}' {
            depth = depth - 1;
            current.push(c);
        } else if (c == ' ' || c == '\t') && depth == 0 {
            if current.len() > 0 {
                tokens.push(current);
                current = Vec::new();
                assert(views(tokens@) =~= views(before).push(views(tokens@).last()));
            }
        } else {
            current.push(c);
        }
        i += 1;
    }
    assert(content@.take(i as int) =~= content@);
    if current.len() > 0 {
        let ghost before = tokens@;
        tokens.push(current);
        assert(views(tokens@) =~= views(before).push(views(tokens@).last()));
    }
    tokens
}

/// Applies an action string such as `+block{reason} -filter{name}` to
/// `action`, token by token.
pub fn parse_action_string(actions_str: &str, action: &mut Action) -> (r: PrivoxyResult<()>)
    ensures
        match action_string_result(old(action)@, actions_str@) {
            Ok(m) => r is Ok && final(action)@ == m,
            Err(m) => config_error(r, m),
        },
{
    let content = trim_vec(&chars_of(actions_str));
    let tokens = split_action_tokens(&content);
    let ghost ts = views(tokens@);
    let ghost start = action@;
    let mut i: usize = 0;
    while i < tokens.len()
        invariant
            i <= tokens.len(),
            ts == views(tokens@),
            ts == action_tokens(trim(actions_str@)),
            start == old(action)@,
            apply_action_tokens(start, ts.take(i as int)) == Ok::<ActionModel, Seq<char>>(action@),
        decreases tokens.len() - i,
    {
        proof {
            assert(ts.take(i as int + 1).drop_last() =~= ts.take(i as int));
            assert(ts.take(i as int + 1).last() == ts[i as int]);
        }
        let t = trim_vec(&tokens[i]);
        if t.len() > 0 {
            match apply_action_token_exec(action, &t) {
                Ok(()) => {},
                Err(e) => {
                    proof {
                        lemma_tokens_err_prefix(start, ts, i as int + 1);
                    }
                    return Err(e);
                },
            }
        }
        i += 1;
    }
    assert(ts.take(i as int) =~= ts);
    Ok(())
}

pub(crate) fn config_err_chars(prefix: &str, detail: &[char]) -> (r: PrivoxyError)
    ensures
        r matches PrivoxyError::Config(x) && x@ == prefix@ + detail@,
{
    let mut m = String::new();
    push_str(&mut m, prefix);
    push_chars(&mut m, detail);
    PrivoxyError::Config(m)
}

/// What one action token does; unknown tokens change nothing.
pub open spec fn apply_action_token(a: ActionModel, t: Seq<char>) -> Result<ActionModel, Seq<char>> {
    match tokens_block(a, t) {
        Some(r) => r,
        None => match tokens_redirect(a, t) {
        Some(r) => r,
        None => match tokens_filter(a, t) {
        Some(r) => r,
        None => match tokens_handle_as_empty_document(a, t) {
        Some(r) => r,
        None => match tokens_handle_as_image(a, t) {
        Some(r) => r,
        None => match tokens_deanimate_gifs(a, t) {
        Some(r) => r,
        None => match tokens_hide_from_header(a, t) {
        Some(r) => r,
        None => match tokens_hide_user_agent(a, t) {
        Some(r) => r,
        None => match tokens_hide_referrer(a, t) {
        Some(r) => r,
        None => match tokens_hide_accept_language(a, t) {
        Some(r) => r,
        None => match tokens_set_image_blocker(a, t) {
        Some(r) => r,
        None => match tokens_prevent_compression(a, t) {
        Some(r) => r,
        None => match tokens_crunch_incoming_cookies(a, t) {
        Some(r) => r,
        None => match tokens_crunch_outgoing_cookies(a, t) {
        Some(r) => r,
        None => match tokens_crunch_if_none_match(a, t) {
        Some(r) => r,
        None => match tokens_downgrade_http_version(a, t) {
        Some(r) => r,
        None => match tokens_https_inspection(a, t) {
        Some(r) => r,
        None => match tokens_add_header(a, t) {
        Some(r) => r,
        None => match tokens_crunch_client_header(a, t) {
        Some(r) => r,
        None => match tokens_client_header_tagger(a, t) {
        Some(r) => r,
        None => match tokens_content_type_overwrite(a, t) {
        Some(r) => r,
        None => match tokens_send_user_agent(a, t) {
        Some(r) => r,
        None => match tokens_fast_redirects(a, t) {
        Some(r) => r,
        None => match tokens_limit_connect(a, t) {
        Some(r) => r,
        None => match tokens_limit_connect_retries(a, t) {
        Some(r) => r,
        None => match tokens_overwrite_last_modified(a, t) {
        Some(r) => r,
        None => match tokens_change_x_forwarded_for(a, t) {
        Some(r) => r,
        None => match tokens_delay_response(a, t) {
        Some(r) => r,
        None => match tokens_hide_content_disposition(a, t) {
        Some(r) => r,
        None => match tokens_kill_popups(a, t) {
        Some(r) => r,
        None => Ok(a),
    },
    },
    },
    },
    },
    },
    },
    },
    },
    },
    },
    },
    },
    },
    },
    },
    },
    },
    },
    },
    },
    },
    },
    },
    },
    },
    },
    },
    },
    }
}

/// The token `-filter{x}` takes `x` out of the action's filter names,
/// keeps every other name in order, and changes nothing else.
pub proof fn law_minus_filter_removes_name(a: ActionModel, x: Seq<char>)
    ensures
        apply_action_token(a, "-filter{"@ + x + "}"@) == Ok::<ActionModel, Seq<char>>(
            (ActionModel { filter_names: a.filter_names.filter(differs_from(x)), ..a }),
        ),
        apply_action_token(a, "-filter{"@ + x + "}"@) matches Ok(b) && !b.filter_names.contains(x),
{
    let t = "-filter{"@ + x + "}"@;
    reveal(bracketed);
    reveal_strlit("-filter{");
    reveal_strlit("}");
    reveal_strlit("+block");
    reveal_strlit("-block");
    reveal_strlit("+block{");
    reveal_strlit("+redirect");
    reveal_strlit("-redirect");
    reveal_strlit("+redirect{");
    reveal_strlit("+filter");
    reveal_strlit("-filter");
    reveal_strlit("+filter{");
    assert(t.len() >= 9);
    assert(t[0] == '-');
    assert(t[1] == 'f');
    assert(t.subrange(0, 8) =~= "-filter{"@);
    assert(t.subrange(t.len() - 1, t.len() as int) =~= "}"@);
    assert(t.subrange(8, t.len() - 1) =~= x);
    assert(tokens_block(a, t) is None);
    assert(tokens_redirect(a, t) is None);
    assert(tokens_filter(a, t) is None);
    lemma_without_filters(a.filter_names, x);
    let kept = a.filter_names.filter(differs_from(x));
    assert forall|i: int| 0 <= i < kept.len() implies kept[i] != x by {
        a.filter_names.lemma_filter_pred(differs_from(x), i);
    }
}

/// Applies one action token.
fn apply_action_token_exec(action: &mut Action, t: &Vec<char>) -> (r: PrivoxyResult<()>)
    ensures
        match apply_action_token(old(action)@, t@) {
            Ok(m) => r is Ok && final(action)@ == m,
            Err(m) => config_error(r, m),
        },
{
    match tokens_block_exec(action, t) {
        Some(r) => {
            return r;
        },
        None => {},
    }
    match tokens_redirect_exec(action, t) {
        Some(r) => {
            return r;
        },
        None => {},
    }
    match tokens_filter_exec(action, t) {
        Some(r) => {
            return r;
        },
        None => {},
    }
    match tokens_handle_as_empty_document_exec(action, t) {
        Some(r) => {
            return r;
        },
        None => {},
    }
    match tokens_handle_as_image_exec(action, t) {
        Some(r) => {
            return r;
        },
        None => {},
    }
    match tokens_deanimate_gifs_exec(action, t) {
        Some(r) => {
            return r;
        },
        None => {},
    }
    match tokens_hide_from_header_exec(action, t) {
        Some(r) => {
            return r;
        },
        None => {},
    }
    match tokens_hide_user_agent_exec(action, t) {
        Some(r) => {
            return r;
        },
        None => {},
    }
    match tokens_hide_referrer_exec(action, t) {
        Some(r) => {
            return r;
        },
        None => {},
    }
    match tokens_hide_accept_language_exec(action, t) {
        Some(r) => {
            return r;
        },
        None => {},
    }
    match tokens_set_image_blocker_exec(action, t) {
        Some(r) => {
            return r;
        },
        None => {},
    }
    match tokens_prevent_compression_exec(action, t) {
        Some(r) => {
            return r;
        },
        None => {},
    }
    match tokens_crunch_incoming_cookies_exec(action, t) {
        Some(r) => {
            return r;
        },
        None => {},
    }
    match tokens_crunch_outgoing_cookies_exec(action, t) {
        Some(r) => {
            return r;
        },
        None => {},
    }
    match tokens_crunch_if_none_match_exec(action, t) {
        Some(r) => {
            return r;
        },
        None => {},
    }
    match tokens_downgrade_http_version_exec(action, t) {
        Some(r) => {
            return r;
        },
        None => {},
    }
    match tokens_https_inspection_exec(action, t) {
        Some(r) => {
            return r;
        },
        None => {},
    }
    match tokens_add_header_exec(action, t) {
        Some(r) => {
            return r;
        },
        None => {},
    }
    match tokens_crunch_client_header_exec(action, t) {
        Some(r) => {
            return r;
        },
        None => {},
    }
    match tokens_client_header_tagger_exec(action, t) {
        Some(r) => {
            return r;
        },
        None => {},
    }
    match tokens_content_type_overwrite_exec(action, t) {
        Some(r) => {
            return r;
        },
        None => {},
    }
    match tokens_send_user_agent_exec(action, t) {
        Some(r) => {
            return r;
        },
        None => {},
    }
    match tokens_fast_redirects_exec(action, t) {
        Some(r) => {
            return r;
        },
        None => {},
    }
    match tokens_limit_connect_exec(action, t) {
        Some(r) => {
            return r;
        },
        None => {},
    }
    match tokens_limit_connect_retries_exec(action, t) {
        Some(r) => {
            return r;
        },
        None => {},
    }
    match tokens_overwrite_last_modified_exec(action, t) {
        Some(r) => {
            return r;
        },
        None => {},
    }
    match tokens_change_x_forwarded_for_exec(action, t) {
        Some(r) => {
            return r;
        },
        None => {},
    }
    match tokens_delay_response_exec(action, t) {
        Some(r) => {
            return r;
        },
        None => {},
    }
    match tokens_hide_content_disposition_exec(action, t) {
        Some(r) => {
            return r;
        },
        None => {},
    }
    match tokens_kill_popups_exec(action, t) {
        Some(r) => {
            return r;
        },
        None => {},
    }
    Ok(())
}

} // verus!
