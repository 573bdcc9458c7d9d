//! Action tokens for the remaining header actions: what each token does to the actions in force.

use vstd::prelude::*;
use crate::text::{parse_unsigned, from_chars, parse_u32, parse_u64, trim, trim_vec, chars_of, push_chars, push_str};
use crate::config::{Action, ActionModel};
use crate::error::{PrivoxyError, PrivoxyResult};
use crate::action_string::{
    bracketed, without, bracket_inner, vec_is, push_chars_string, remove_string, config_err_chars,
};

verus! {

/// What the tokens `-fast-redirects`, `+limit-connect{...}`, `-limit-connect` do to an action.
pub open spec fn tokens_limit_connect(a: ActionModel, t: Seq<char>) -> Option<Result<ActionModel, Seq<char>>> {
    if t == "-fast-redirects"@ {
        Some(Ok(ActionModel { fast_redirects: None, ..a }))
    } else if bracketed(t, "+limit-connect{"@) is Some {
        let x = bracketed(t, "+limit-connect{"@)->Some_0;
        Some(Ok(ActionModel { limit_connect: Some(x), ..a }))
    } else if t == "-limit-connect"@ {
        Some(Ok(ActionModel { limit_connect: None, ..a }))
    } else {
        None
    }
}

/// What the tokens `+limit-connect-retries{...}`, `-limit-connect-retries`, `+limit-cookie-lifetime{...}` do to an action.
pub open spec fn tokens_limit_connect_retries(a: ActionModel, t: Seq<char>) -> Option<Result<ActionModel, Seq<char>>> {
    if bracketed(t, "+limit-connect-retries{"@) is Some {
        let x = bracketed(t, "+limit-connect-retries{"@)->Some_0;
        Some(match parse_unsigned(x, 0xffff_ffff) { Some(n) => Ok(ActionModel { limit_connect_retries: Some(n as u32), ..a }), None => Err("Invalid limit-connect-retries value: "@ + t) })
    } else if t == "-limit-connect-retries"@ {
        Some(Ok(ActionModel { limit_connect_retries: None, ..a }))
    } else if bracketed(t, "+limit-cookie-lifetime{"@) is Some {
        let x = bracketed(t, "+limit-cookie-lifetime{"@)->Some_0;
        Some(match parse_unsigned(x, u64::MAX as int) { Some(n) => Ok(ActionModel { limit_cookie_lifetime: Some(n as u64), ..a }), None => Err("Invalid limit-cookie-lifetime value: "@ + t) })
    } else {
        None
    }
}

/// What the tokens `-limit-cookie-lifetime`, `+overwrite-last-modified{...}`, `-overwrite-last-modified` do to an action.
pub open spec fn tokens_overwrite_last_modified(a: ActionModel, t: Seq<char>) -> Option<Result<ActionModel, Seq<char>>> {
    if t == "-limit-cookie-lifetime"@ {
        Some(Ok(ActionModel { limit_cookie_lifetime: None, ..a }))
    } else if bracketed(t, "+overwrite-last-modified{"@) is Some {
        let x = bracketed(t, "+overwrite-last-modified{"@)->Some_0;
        Some(Ok(ActionModel { overwrite_last_modified: Some(x), ..a }))
    } else if t == "-overwrite-last-modified"@ {
        Some(Ok(ActionModel { overwrite_last_modified: None, ..a }))
    } else {
        None
    }
}

/// What the tokens `+change-x-forwarded-for{...}`, `-change-x-forwarded-for`, `+forward-override{...}` do to an action.
pub open spec fn tokens_change_x_forwarded_for(a: ActionModel, t: Seq<char>) -> Option<Result<ActionModel, Seq<char>>> {
    if bracketed(t, "+change-x-forwarded-for{"@) is Some {
        let x = bracketed(t, "+change-x-forwarded-for{"@)->Some_0;
        Some(Ok(ActionModel { change_x_forwarded_for: Some(x), ..a }))
    } else if t == "-change-x-forwarded-for"@ {
        Some(Ok(ActionModel { change_x_forwarded_for: None, ..a }))
    } else if bracketed(t, "+forward-override{"@) is Some {
        let x = bracketed(t, "+forward-override{"@)->Some_0;
        Some(Ok(ActionModel { forward_override: Some(x), ..a }))
    } else {
        None
    }
}

/// What the tokens `-forward-override`, `+delay-response{...}`, `-delay-response` do to an action.
pub open spec fn tokens_delay_response(a: ActionModel, t: Seq<char>) -> Option<Result<ActionModel, Seq<char>>> {
    if t == "-forward-override"@ {
        Some(Ok(ActionModel { forward_override: None, ..a }))
    } else if bracketed(t, "+delay-response{"@) is Some {
        let x = bracketed(t, "+delay-response{"@)->Some_0;
        Some(match parse_unsigned(x, u64::MAX as int) { Some(n) => Ok(ActionModel { delay_response: Some(n as u64), ..a }), None => Err("Invalid delay-response value: "@ + t) })
    } else if t == "-delay-response"@ {
        Some(Ok(ActionModel { delay_response: None, ..a }))
    } else {
        None
    }
}

/// What the tokens `+hide-content-disposition{...}`, `-hide-content-disposition`, `+hide-if-modified-since{...}` do to an action.
pub open spec fn tokens_hide_content_disposition(a: ActionModel, t: Seq<char>) -> Option<Result<ActionModel, Seq<char>>> {
    if bracketed(t, "+hide-content-disposition{"@) is Some {
        let x = bracketed(t, "+hide-content-disposition{"@)->Some_0;
        Some(Ok(ActionModel { hide_content_disposition: Some(x), ..a }))
    } else if t == "-hide-content-disposition"@ {
        Some(Ok(ActionModel { hide_content_disposition: None, ..a }))
    } else if bracketed(t, "+hide-if-modified-since{"@) is Some {
        let x = bracketed(t, "+hide-if-modified-since{"@)->Some_0;
        Some(Ok(ActionModel { hide_if_modified_since: Some(x), ..a }))
    } else {
        None
    }
}

/// What the tokens `-hide-if-modified-since`, `+kill-popups`, `-kill-popups` do to an action.
pub open spec fn tokens_kill_popups(a: ActionModel, t: Seq<char>) -> Option<Result<ActionModel, Seq<char>>> {
    if t == "-hide-if-modified-since"@ {
        Some(Ok(ActionModel { hide_if_modified_since: None, ..a }))
    } else if t == "+kill-popups"@ {
        Some(Ok(ActionModel { kill_popups: true, ..a }))
    } else if t == "-kill-popups"@ {
        Some(Ok(ActionModel { kill_popups: false, ..a }))
    } else {
        None
    }
}

#[verifier::rlimit(80)]
pub(crate) fn tokens_limit_connect_exec(action: &mut Action, t: &Vec<char>) -> (r: Option<PrivoxyResult<()>>)
    ensures
        match tokens_limit_connect(old(action)@, t@) {
            None => r is None && final(action)@ == old(action)@,
            Some(Ok(m)) => r matches Some(Ok(_)) && final(action)@ == m,
            Some(Err(m)) => r matches Some(Err(PrivoxyError::Config(y))) && y@ == m,
        },
{
    if vec_is(t, "-fast-redirects") {
        action.fast_redirects = None;
    } else if let Some(x) = bracket_inner(t, "+limit-connect{") {
        action.limit_connect = Some(from_chars(&x));
    } else if vec_is(t, "-limit-connect") {
        action.limit_connect = None;
    } else {
        return None;
    }
    Some(Ok(()))
}

#[verifier::rlimit(80)]
pub(crate) fn tokens_limit_connect_retries_exec(action: &mut Action, t: &Vec<char>) -> (r: Option<PrivoxyResult<()>>)
    ensures
        match tokens_limit_connect_retries(old(action)@, t@) {
            None => r is None && final(action)@ == old(action)@,
            Some(Ok(m)) => r matches Some(Ok(_)) && final(action)@ == m,
            Some(Err(m)) => r matches Some(Err(PrivoxyError::Config(y))) && y@ == m,
        },
{
    if let Some(x) = bracket_inner(t, "+limit-connect-retries{") {
        match parse_u32(&x) { Some(n) => { action.limit_connect_retries = Some(n); }, None => { return Some(Err(config_err_chars("Invalid limit-connect-retries value: ", t))); } }
    } else if vec_is(t, "-limit-connect-retries") {
        action.limit_connect_retries = None;
    } else if let Some(x) = bracket_inner(t, "+limit-cookie-lifetime{") {
        match parse_u64(&x) { Some(n) => { action.limit_cookie_lifetime = Some(n); }, None => { return Some(Err(config_err_chars("Invalid limit-cookie-lifetime value: ", t))); } }
    } else {
        return None;
    }
    Some(Ok(()))
}

#[verifier::rlimit(80)]
pub(crate) fn tokens_overwrite_last_modified_exec(action: &mut Action, t: &Vec<char>) -> (r: Option<PrivoxyResult<()>>)
    ensures
        match tokens_overwrite_last_modified(old(action)@, t@) {
            None => r is None && final(action)@ == old(action)@,
            Some(Ok(m)) => r matches Some(Ok(_)) && final(action)@ == m,
            Some(Err(m)) => r matches Some(Err(PrivoxyError::Config(y))) && y@ == m,
        },
{
    if vec_is(t, "-limit-cookie-lifetime") {
        action.limit_cookie_lifetime = None;
    } else if let Some(x) = bracket_inner(t, "+overwrite-last-modified{") {
        action.overwrite_last_modified = Some(from_chars(&x));
    } else if vec_is(t, "-overwrite-last-modified") {
        action.overwrite_last_modified = None;
    } else {
        return None;
    }
    Some(Ok(()))
}

#[verifier::rlimit(80)]
pub(crate) fn tokens_change_x_forwarded_for_exec(action: &mut Action, t: &Vec<char>) -> (r: Option<PrivoxyResult<()>>)
    ensures
        match tokens_change_x_forwarded_for(old(action)@, t@) {
            None => r is None && final(action)@ == old(action)@,
            Some(Ok(m)) => r matches Some(Ok(_)) && final(action)@ == m,
            Some(Err(m)) => r matches Some(Err(PrivoxyError::Config(y))) && y@ == m,
        },
{
    if let Some(x) = bracket_inner(t, "+change-x-forwarded-for{") {
        action.change_x_forwarded_for = Some(from_chars(&x));
    } else if vec_is(t, "-change-x-forwarded-for") {
        action.change_x_forwarded_for = None;
    } else if let Some(x) = bracket_inner(t, "+forward-override{") {
        action.forward_override = Some(from_chars(&x));
    } else {
        return None;
    }
    Some(Ok(()))
}

#[verifier::rlimit(80)]
pub(crate) fn tokens_delay_response_exec(action: &mut Action, t: &Vec<char>) -> (r: Option<PrivoxyResult<()>>)
    ensures
        match tokens_delay_response(old(action)@, t@) {
            None => r is None && final(action)@ == old(action)@,
            Some(Ok(m)) => r matches Some(Ok(_)) && final(action)@ == m,
            Some(Err(m)) => r matches Some(Err(PrivoxyError::Config(y))) && y@ == m,
        },
{
    if vec_is(t, "-forward-override") {
        action.forward_override = None;
    } else if let Some(x) = bracket_inner(t, "+delay-response{") {
        match parse_u64(&x) { Some(n) => { action.delay_response = Some(n); }, None => { return Some(Err(config_err_chars("Invalid delay-response value: ", t))); } }
    } else if vec_is(t, "-delay-response") {
        action.delay_response = None;
    } else {
        return None;
    }
    Some(Ok(()))
}

#[verifier::rlimit(80)]
pub(crate) fn tokens_hide_content_disposition_exec(action: &mut Action, t: &Vec<char>) -> (r: Option<PrivoxyResult<()>>)
    ensures
        match tokens_hide_content_disposition(old(action)@, t@) {
            None => r is None && final(action)@ == old(action)@,
            Some(Ok(m)) => r matches Some(Ok(_)) && final(action)@ == m,
            Some(Err(m)) => r matches Some(Err(PrivoxyError::Config(y))) && y@ == m,
        },
{
    if let Some(x) = bracket_inner(t, "+hide-content-disposition{") {
        action.hide_content_disposition = Some(from_chars(&x));
    } else if vec_is(t, "-hide-content-disposition") {
        action.hide_content_disposition = None;
    } else if let Some(x) = bracket_inner(t, "+hide-if-modified-since{") {
        action.hide_if_modified_since = Some(from_chars(&x));
    } else {
        return None;
    }
    Some(Ok(()))
}

#[verifier::rlimit(80)]
pub(crate) fn tokens_kill_popups_exec(action: &mut Action, t: &Vec<char>) -> (r: Option<PrivoxyResult<()>>)
    ensures
        match tokens_kill_popups(old(action)@, t@) {
            None => r is None && final(action)@ == old(action)@,
            Some(Ok(m)) => r matches Some(Ok(_)) && final(action)@ == m,
            Some(Err(m)) => r matches Some(Err(PrivoxyError::Config(y))) && y@ == m,
        },
{
    if vec_is(t, "-hide-if-modified-since") {
        action.hide_if_modified_since = None;
    } else if vec_is(t, "+kill-popups") {
        action.kill_popups = true;
    } else if vec_is(t, "-kill-popups") {
        action.kill_popups = false;
    } else {
        return None;
    }
    Some(Ok(()))
}

} // verus!
