//! Action tokens for protocol and content handling: what each token does to the actions in force.

use vstd::prelude::*;
use crate::text::{parse_unsigned, from_chars, parse_u32, parse_u64, trim, trim_vec, chars_of, push_chars, push_str};
use crate::config::{Action, ActionModel};
use crate::error::{PrivoxyError, PrivoxyResult};
use crate::action_string::{
    bracketed, without, bracket_inner, vec_is, push_chars_string, remove_string, config_err_chars,
};

verus! {

/// What the tokens `-force-text-mode`, `+downgrade-http-version`, `-downgrade-http-version` do to an action.
pub open spec fn tokens_downgrade_http_version(a: ActionModel, t: Seq<char>) -> Option<Result<ActionModel, Seq<char>>> {
    if t == "-force-text-mode"@ {
        Some(Ok(ActionModel { force_text_mode: false, ..a }))
    } else if t == "+downgrade-http-version"@ {
        Some(Ok(ActionModel { downgrade_http_version: true, ..a }))
    } else if t == "-downgrade-http-version"@ {
        Some(Ok(ActionModel { downgrade_http_version: false, ..a }))
    } else {
        None
    }
}

/// What the tokens `+https-inspection`, `-https-inspection`, `+ignore-certificate-errors` do to an action.
pub open spec fn tokens_https_inspection(a: ActionModel, t: Seq<char>) -> Option<Result<ActionModel, Seq<char>>> {
    if t == "+https-inspection"@ {
        Some(Ok(ActionModel { https_inspection: true, ..a }))
    } else if t == "-https-inspection"@ {
        Some(Ok(ActionModel { https_inspection: false, ..a }))
    } else if t == "+ignore-certificate-errors"@ {
        Some(Ok(ActionModel { ignore_certificate_errors: true, ..a }))
    } else {
        None
    }
}

/// What the tokens `-ignore-certificate-errors`, `+add-header{...}`, `-add-header{...}` do to an action.
pub open spec fn tokens_add_header(a: ActionModel, t: Seq<char>) -> Option<Result<ActionModel, Seq<char>>> {
    if t == "-ignore-certificate-errors"@ {
        Some(Ok(ActionModel { ignore_certificate_errors: false, ..a }))
    } else if bracketed(t, "+add-header{"@) is Some {
        let x = bracketed(t, "+add-header{"@)->Some_0;
        Some(Ok(ActionModel { add_headers: a.add_headers.push(x), ..a }))
    } else if bracketed(t, "-add-header{"@) is Some {
        let x = bracketed(t, "-add-header{"@)->Some_0;
        Some(Ok(ActionModel { add_headers: without(a.add_headers, x), ..a }))
    } else {
        None
    }
}

/// What the tokens `+crunch-client-header{...}`, `-crunch-client-header{...}`, `+crunch-server-header{...}` do to an action.
pub open spec fn tokens_crunch_client_header(a: ActionModel, t: Seq<char>) -> Option<Result<ActionModel, Seq<char>>> {
    if bracketed(t, "+crunch-client-header{"@) is Some {
        let x = bracketed(t, "+crunch-client-header{"@)->Some_0;
        Some(Ok(ActionModel { crunch_client_headers: a.crunch_client_headers.push(x), ..a }))
    } else if bracketed(t, "-crunch-client-header{"@) is Some {
        let x = bracketed(t, "-crunch-client-header{"@)->Some_0;
        Some(Ok(ActionModel { crunch_client_headers: without(a.crunch_client_headers, x), ..a }))
    } else if bracketed(t, "+crunch-server-header{"@) is Some {
        let x = bracketed(t, "+crunch-server-header{"@)->Some_0;
        Some(Ok(ActionModel { crunch_server_headers: a.crunch_server_headers.push(x), ..a }))
    } else {
        None
    }
}

/// What the tokens `-crunch-server-header{...}`, `+client-header-tagger{...}`, `-client-header-tagger{...}` do to an action.
pub open spec fn tokens_client_header_tagger(a: ActionModel, t: Seq<char>) -> Option<Result<ActionModel, Seq<char>>> {
    if bracketed(t, "-crunch-server-header{"@) is Some {
        let x = bracketed(t, "-crunch-server-header{"@)->Some_0;
        Some(Ok(ActionModel { crunch_server_headers: without(a.crunch_server_headers, x), ..a }))
    } else if bracketed(t, "+client-header-tagger{"@) is Some {
        let x = bracketed(t, "+client-header-tagger{"@)->Some_0;
        Some(Ok(ActionModel { client_header_tagger_names: a.client_header_tagger_names.push(x), ..a }))
    } else if bracketed(t, "-client-header-tagger{"@) is Some {
        let x = bracketed(t, "-client-header-tagger{"@)->Some_0;
        Some(Ok(ActionModel { client_header_tagger_names: without(a.client_header_tagger_names, x), ..a }))
    } else {
        None
    }
}

/// What the tokens `+server-header-tagger{...}`, `-server-header-tagger{...}`, `+content-type-overwrite{...}` do to an action.
pub open spec fn tokens_content_type_overwrite(a: ActionModel, t: Seq<char>) -> Option<Result<ActionModel, Seq<char>>> {
    if bracketed(t, "+server-header-tagger{"@) is Some {
        let x = bracketed(t, "+server-header-tagger{"@)->Some_0;
        Some(Ok(ActionModel { server_header_tagger_names: a.server_header_tagger_names.push(x), ..a }))
    } else if bracketed(t, "-server-header-tagger{"@) is Some {
        let x = bracketed(t, "-server-header-tagger{"@)->Some_0;
        Some(Ok(ActionModel { server_header_tagger_names: without(a.server_header_tagger_names, x), ..a }))
    } else if bracketed(t, "+content-type-overwrite{"@) is Some {
        let x = bracketed(t, "+content-type-overwrite{"@)->Some_0;
        Some(Ok(ActionModel { content_type_overwrite: Some(x), ..a }))
    } else {
        None
    }
}

/// What the tokens `-content-type-overwrite`, `+send-user-agent{...}`, `-send-user-agent` do to an action.
pub open spec fn tokens_send_user_agent(a: ActionModel, t: Seq<char>) -> Option<Result<ActionModel, Seq<char>>> {
    if t == "-content-type-overwrite"@ {
        Some(Ok(ActionModel { content_type_overwrite: None, ..a }))
    } else if bracketed(t, "+send-user-agent{"@) is Some {
        let x = bracketed(t, "+send-user-agent{"@)->Some_0;
        Some(Ok(ActionModel { send_user_agent: Some(x), ..a }))
    } else if t == "-send-user-agent"@ {
        Some(Ok(ActionModel { send_user_agent: None, ..a }))
    } else {
        None
    }
}

/// What the tokens `+send-wafer{...}`, `-send-wafer`, `+fast-redirects{...}` do to an action.
pub open spec fn tokens_fast_redirects(a: ActionModel, t: Seq<char>) -> Option<Result<ActionModel, Seq<char>>> {
    if bracketed(t, "+send-wafer{"@) is Some {
        let x = bracketed(t, "+send-wafer{"@)->Some_0;
        Some(Ok(ActionModel { send_wafer: Some(x), ..a }))
    } else if t == "-send-wafer"@ {
        Some(Ok(ActionModel { send_wafer: None, ..a }))
    } else if bracketed(t, "+fast-redirects{"@) is Some {
        let x = bracketed(t, "+fast-redirects{"@)->Some_0;
        Some(Ok(ActionModel { fast_redirects: Some(x), ..a }))
    } else {
        None
    }
}

#[verifier::rlimit(80)]
pub(crate) fn tokens_downgrade_http_version_exec(action: &mut Action, t: &Vec<char>) -> (r: Option<PrivoxyResult<()>>)
    ensures
        match tokens_downgrade_http_version(old(action)@, t@) {
            None => r is None && final(action)@ == old(action)@,
            Some(Ok(m)) => r matches Some(Ok(_)) && final(action)@ == m,
            Some(Err(m)) => r matches Some(Err(PrivoxyError::Config(y))) && y@ == m,
        },
{
    if vec_is(t, "-force-text-mode") {
        action.force_text_mode = false;
    } else if vec_is(t, "+downgrade-http-version") {
        action.downgrade_http_version = true;
    } else if vec_is(t, "-downgrade-http-version") {
        action.downgrade_http_version = false;
    } else {
        return None;
    }
    Some(Ok(()))
}

#[verifier::rlimit(80)]
pub(crate) fn tokens_https_inspection_exec(action: &mut Action, t: &Vec<char>) -> (r: Option<PrivoxyResult<()>>)
    ensures
        match tokens_https_inspection(old(action)@, t@) {
            None => r is None && final(action)@ == old(action)@,
            Some(Ok(m)) => r matches Some(Ok(_)) && final(action)@ == m,
            Some(Err(m)) => r matches Some(Err(PrivoxyError::Config(y))) && y@ == m,
        },
{
    if vec_is(t, "+https-inspection") {
        action.https_inspection = true;
    } else if vec_is(t, "-https-inspection") {
        action.https_inspection = false;
    } else if vec_is(t, "+ignore-certificate-errors") {
        action.ignore_certificate_errors = true;
    } else {
        return None;
    }
    Some(Ok(()))
}

#[verifier::rlimit(80)]
pub(crate) fn tokens_add_header_exec(action: &mut Action, t: &Vec<char>) -> (r: Option<PrivoxyResult<()>>)
    ensures
        match tokens_add_header(old(action)@, t@) {
            None => r is None && final(action)@ == old(action)@,
            Some(Ok(m)) => r matches Some(Ok(_)) && final(action)@ == m,
            Some(Err(m)) => r matches Some(Err(PrivoxyError::Config(y))) && y@ == m,
        },
{
    if vec_is(t, "-ignore-certificate-errors") {
        action.ignore_certificate_errors = false;
    } else if let Some(x) = bracket_inner(t, "+add-header{") {
        push_chars_string(&mut action.add_headers, &x);
    } else if let Some(x) = bracket_inner(t, "-add-header{") {
        remove_string(&mut action.add_headers, &x);
    } else {
        return None;
    }
    Some(Ok(()))
}

#[verifier::rlimit(80)]
pub(crate) fn tokens_crunch_client_header_exec(action: &mut Action, t: &Vec<char>) -> (r: Option<PrivoxyResult<()>>)
    ensures
        match tokens_crunch_client_header(old(action)@, t@) {
            None => r is None && final(action)@ == old(action)@,
            Some(Ok(m)) => r matches Some(Ok(_)) && final(action)@ == m,
            Some(Err(m)) => r matches Some(Err(PrivoxyError::Config(y))) && y@ == m,
        },
{
    if let Some(x) = bracket_inner(t, "+crunch-client-header{") {
        push_chars_string(&mut action.crunch_client_headers, &x);
    } else if let Some(x) = bracket_inner(t, "-crunch-client-header{") {
        remove_string(&mut action.crunch_client_headers, &x);
    } else if let Some(x) = bracket_inner(t, "+crunch-server-header{") {
        push_chars_string(&mut action.crunch_server_headers, &x);
    } else {
        return None;
    }
    Some(Ok(()))
}

#[verifier::rlimit(80)]
pub(crate) fn tokens_client_header_tagger_exec(action: &mut Action, t: &Vec<char>) -> (r: Option<PrivoxyResult<()>>)
    ensures
        match tokens_client_header_tagger(old(action)@, t@) {
            None => r is None && final(action)@ == old(action)@,
            Some(Ok(m)) => r matches Some(Ok(_)) && final(action)@ == m,
            Some(Err(m)) => r matches Some(Err(PrivoxyError::Config(y))) && y@ == m,
        },
{
    if let Some(x) = bracket_inner(t, "-crunch-server-header{") {
        remove_string(&mut action.crunch_server_headers, &x);
    } else if let Some(x) = bracket_inner(t, "+client-header-tagger{") {
        push_chars_string(&mut action.client_header_tagger_names, &x);
    } else if let Some(x) = bracket_inner(t, "-client-header-tagger{") {
        remove_string(&mut action.client_header_tagger_names, &x);
    } else {
        return None;
    }
    Some(Ok(()))
}

#[verifier::rlimit(80)]
pub(crate) fn tokens_content_type_overwrite_exec(action: &mut Action, t: &Vec<char>) -> (r: Option<PrivoxyResult<()>>)
    ensures
        match tokens_content_type_overwrite(old(action)@, t@) {
            None => r is None && final(action)@ == old(action)@,
            Some(Ok(m)) => r matches Some(Ok(_)) && final(action)@ == m,
            Some(Err(m)) => r matches Some(Err(PrivoxyError::Config(y))) && y@ == m,
        },
{
    if let Some(x) = bracket_inner(t, "+server-header-tagger{") {
        push_chars_string(&mut action.server_header_tagger_names, &x);
    } else if let Some(x) = bracket_inner(t, "-server-header-tagger{") {
        remove_string(&mut action.server_header_tagger_names, &x);
    } else if let Some(x) = bracket_inner(t, "+content-type-overwrite{") {
        action.content_type_overwrite = Some(from_chars(&x));
    } else {
        return None;
    }
    Some(Ok(()))
}

#[verifier::rlimit(80)]
pub(crate) fn tokens_send_user_agent_exec(action: &mut Action, t: &Vec<char>) -> (r: Option<PrivoxyResult<()>>)
    ensures
        match tokens_send_user_agent(old(action)@, t@) {
            None => r is None && final(action)@ == old(action)@,
            Some(Ok(m)) => r matches Some(Ok(_)) && final(action)@ == m,
            Some(Err(m)) => r matches Some(Err(PrivoxyError::Config(y))) && y@ == m,
        },
{
    if vec_is(t, "-content-type-overwrite") {
        action.content_type_overwrite = None;
    } else if let Some(x) = bracket_inner(t, "+send-user-agent{") {
        action.send_user_agent = Some(from_chars(&x));
    } else if vec_is(t, "-send-user-agent") {
        action.send_user_agent = None;
    } else {
        return None;
    }
    Some(Ok(()))
}

#[verifier::rlimit(80)]
pub(crate) fn tokens_fast_redirects_exec(action: &mut Action, t: &Vec<char>) -> (r: Option<PrivoxyResult<()>>)
    ensures
        match tokens_fast_redirects(old(action)@, t@) {
            None => r is None && final(action)@ == old(action)@,
            Some(Ok(m)) => r matches Some(Ok(_)) && final(action)@ == m,
            Some(Err(m)) => r matches Some(Err(PrivoxyError::Config(y))) && y@ == m,
        },
{
    if let Some(x) = bracket_inner(t, "+send-wafer{") {
        action.send_wafer = Some(from_chars(&x));
    } else if vec_is(t, "-send-wafer") {
        action.send_wafer = None;
    } else if let Some(x) = bracket_inner(t, "+fast-redirects{") {
        action.fast_redirects = Some(from_chars(&x));
    } else {
        return None;
    }
    Some(Ok(()))
}

} // verus!
