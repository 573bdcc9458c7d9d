//! Action tokens for header hiding, images and cookies: what each token does to the actions in force.

use vstd::prelude::*;
use crate::text::{parse_unsigned, from_chars, parse_u32, parse_u64, trim, trim_vec, chars_of, push_chars, push_str};
use crate::config::{Action, ActionModel};
use crate::error::{PrivoxyError, PrivoxyResult};
use crate::action_string::{
    bracketed, without, bracket_inner, vec_is, push_chars_string, remove_string, config_err_chars,
};

verus! {

/// What the tokens `-hide-user-agent`, `+hide-referrer`, `+hide-referrer{...}` do to an action.
pub open spec fn tokens_hide_referrer(a: ActionModel, t: Seq<char>) -> Option<Result<ActionModel, Seq<char>>> {
    if t == "-hide-user-agent"@ {
        Some(Ok(ActionModel { hide_user_agent: None, ..a }))
    } else if t == "+hide-referrer"@ {
        Some(Ok(ActionModel { hide_referrer: Some("block"@), ..a }))
    } else if bracketed(t, "+hide-referrer{"@) is Some {
        let x = bracketed(t, "+hide-referrer{"@)->Some_0;
        Some(Ok(ActionModel { hide_referrer: Some(x), ..a }))
    } else {
        None
    }
}

/// What the tokens `-hide-referrer`, `+hide-accept-language`, `+hide-accept-language{...}` do to an action.
pub open spec fn tokens_hide_accept_language(a: ActionModel, t: Seq<char>) -> Option<Result<ActionModel, Seq<char>>> {
    if t == "-hide-referrer"@ {
        Some(Ok(ActionModel { hide_referrer: None, ..a }))
    } else if t == "+hide-accept-language"@ {
        Some(Ok(ActionModel { hide_accept_language: Some("block"@), ..a }))
    } else if bracketed(t, "+hide-accept-language{"@) is Some {
        let x = bracketed(t, "+hide-accept-language{"@)->Some_0;
        Some(Ok(ActionModel { hide_accept_language: Some(x), ..a }))
    } else {
        None
    }
}

/// What the tokens `-hide-accept-language`, `+set-image-blocker`, `+set-image-blocker{...}` do to an action.
pub open spec fn tokens_set_image_blocker(a: ActionModel, t: Seq<char>) -> Option<Result<ActionModel, Seq<char>>> {
    if t == "-hide-accept-language"@ {
        Some(Ok(ActionModel { hide_accept_language: None, ..a }))
    } else if t == "+set-image-blocker"@ {
        Some(Ok(ActionModel { set_image_blocker: Some("pattern"@), ..a }))
    } else if bracketed(t, "+set-image-blocker{"@) is Some {
        let x = bracketed(t, "+set-image-blocker{"@)->Some_0;
        Some(Ok(ActionModel { set_image_blocker: Some(x), ..a }))
    } else {
        None
    }
}

/// What the tokens `-set-image-blocker`, `+prevent-compression`, `-prevent-compression` do to an action.
pub open spec fn tokens_prevent_compression(a: ActionModel, t: Seq<char>) -> Option<Result<ActionModel, Seq<char>>> {
    if t == "-set-image-blocker"@ {
        Some(Ok(ActionModel { set_image_blocker: None, ..a }))
    } else if t == "+prevent-compression"@ {
        Some(Ok(ActionModel { prevent_compression: true, ..a }))
    } else if t == "-prevent-compression"@ {
        Some(Ok(ActionModel { prevent_compression: false, ..a }))
    } else {
        None
    }
}

/// What the tokens `+session-cookies-only`, `-session-cookies-only`, `+crunch-incoming-cookies` do to an action.
pub open spec fn tokens_crunch_incoming_cookies(a: ActionModel, t: Seq<char>) -> Option<Result<ActionModel, Seq<char>>> {
    if t == "+session-cookies-only"@ {
        Some(Ok(ActionModel { session_cookies_only: true, ..a }))
    } else if t == "-session-cookies-only"@ {
        Some(Ok(ActionModel { session_cookies_only: false, ..a }))
    } else if t == "+crunch-incoming-cookies"@ {
        Some(Ok(ActionModel { crunch_incoming_cookies: true, ..a }))
    } else {
        None
    }
}

/// What the tokens `-crunch-incoming-cookies`, `+crunch-outgoing-cookies`, `-crunch-outgoing-cookies` do to an action.
pub open spec fn tokens_crunch_outgoing_cookies(a: ActionModel, t: Seq<char>) -> Option<Result<ActionModel, Seq<char>>> {
    if t == "-crunch-incoming-cookies"@ {
        Some(Ok(ActionModel { crunch_incoming_cookies: false, ..a }))
    } else if t == "+crunch-outgoing-cookies"@ {
        Some(Ok(ActionModel { crunch_outgoing_cookies: true, ..a }))
    } else if t == "-crunch-outgoing-cookies"@ {
        Some(Ok(ActionModel { crunch_outgoing_cookies: false, ..a }))
    } else {
        None
    }
}

/// What the tokens `+crunch-if-none-match`, `-crunch-if-none-match`, `+force-text-mode` do to an action.
pub open spec fn tokens_crunch_if_none_match(a: ActionModel, t: Seq<char>) -> Option<Result<ActionModel, Seq<char>>> {
    if t == "+crunch-if-none-match"@ {
        Some(Ok(ActionModel { crunch_if_none_match: true, ..a }))
    } else if t == "-crunch-if-none-match"@ {
        Some(Ok(ActionModel { crunch_if_none_match: false, ..a }))
    } else if t == "+force-text-mode"@ {
        Some(Ok(ActionModel { force_text_mode: true, ..a }))
    } else {
        None
    }
}

#[verifier::rlimit(80)]
pub(crate) fn tokens_hide_referrer_exec(action: &mut Action, t: &Vec<char>) -> (r: Option<PrivoxyResult<()>>)
    ensures
        match tokens_hide_referrer(old(action)@, t@) {
            None => r is None && final(action)@ == old(action)@,
            Some(Ok(m)) => r matches Some(Ok(_)) && final(action)@ == m,
            Some(Err(m)) => r matches Some(Err(PrivoxyError::Config(y))) && y@ == m,
        },
{
    if vec_is(t, "-hide-user-agent") {
        action.hide_user_agent = None;
    } else if vec_is(t, "+hide-referrer") {
        action.hide_referrer = Some("block".to_string());
    } else if let Some(x) = bracket_inner(t, "+hide-referrer{") {
        action.hide_referrer = Some(from_chars(&x));
    } else {
        return None;
    }
    Some(Ok(()))
}

#[verifier::rlimit(80)]
pub(crate) fn tokens_hide_accept_language_exec(action: &mut Action, t: &Vec<char>) -> (r: Option<PrivoxyResult<()>>)
    ensures
        match tokens_hide_accept_language(old(action)@, t@) {
            None => r is None && final(action)@ == old(action)@,
            Some(Ok(m)) => r matches Some(Ok(_)) && final(action)@ == m,
            Some(Err(m)) => r matches Some(Err(PrivoxyError::Config(y))) && y@ == m,
        },
{
    if vec_is(t, "-hide-referrer") {
        action.hide_referrer = None;
    } else if vec_is(t, "+hide-accept-language") {
        action.hide_accept_language = Some("block".to_string());
    } else if let Some(x) = bracket_inner(t, "+hide-accept-language{") {
        action.hide_accept_language = Some(from_chars(&x));
    } else {
        return None;
    }
    Some(Ok(()))
}

#[verifier::rlimit(80)]
pub(crate) fn tokens_set_image_blocker_exec(action: &mut Action, t: &Vec<char>) -> (r: Option<PrivoxyResult<()>>)
    ensures
        match tokens_set_image_blocker(old(action)@, t@) {
            None => r is None && final(action)@ == old(action)@,
            Some(Ok(m)) => r matches Some(Ok(_)) && final(action)@ == m,
            Some(Err(m)) => r matches Some(Err(PrivoxyError::Config(y))) && y@ == m,
        },
{
    if vec_is(t, "-hide-accept-language") {
        action.hide_accept_language = None;
    } else if vec_is(t, "+set-image-blocker") {
        action.set_image_blocker = Some("pattern".to_string());
    } else if let Some(x) = bracket_inner(t, "+set-image-blocker{") {
        action.set_image_blocker = Some(from_chars(&x));
    } else {
        return None;
    }
    Some(Ok(()))
}

#[verifier::rlimit(80)]
pub(crate) fn tokens_prevent_compression_exec(action: &mut Action, t: &Vec<char>) -> (r: Option<PrivoxyResult<()>>)
    ensures
        match tokens_prevent_compression(old(action)@, t@) {
            None => r is None && final(action)@ == old(action)@,
            Some(Ok(m)) => r matches Some(Ok(_)) && final(action)@ == m,
            Some(Err(m)) => r matches Some(Err(PrivoxyError::Config(y))) && y@ == m,
        },
{
    if vec_is(t, "-set-image-blocker") {
        action.set_image_blocker = None;
    } else if vec_is(t, "+prevent-compression") {
        action.prevent_compression = true;
    } else if vec_is(t, "-prevent-compression") {
        action.prevent_compression = false;
    } else {
        return None;
    }
    Some(Ok(()))
}

#[verifier::rlimit(80)]
pub(crate) fn tokens_crunch_incoming_cookies_exec(action: &mut Action, t: &Vec<char>) -> (r: Option<PrivoxyResult<()>>)
    ensures
        match tokens_crunch_incoming_cookies(old(action)@, t@) {
            None => r is None && final(action)@ == old(action)@,
            Some(Ok(m)) => r matches Some(Ok(_)) && final(action)@ == m,
            Some(Err(m)) => r matches Some(Err(PrivoxyError::Config(y))) && y@ == m,
        },
{
    if vec_is(t, "+session-cookies-only") {
        action.session_cookies_only = true;
    } else if vec_is(t, "-session-cookies-only") {
        action.session_cookies_only = false;
    } else if vec_is(t, "+crunch-incoming-cookies") {
        action.crunch_incoming_cookies = true;
    } else {
        return None;
    }
    Some(Ok(()))
}

#[verifier::rlimit(80)]
pub(crate) fn tokens_crunch_outgoing_cookies_exec(action: &mut Action, t: &Vec<char>) -> (r: Option<PrivoxyResult<()>>)
    ensures
        match tokens_crunch_outgoing_cookies(old(action)@, t@) {
            None => r is None && final(action)@ == old(action)@,
            Some(Ok(m)) => r matches Some(Ok(_)) && final(action)@ == m,
            Some(Err(m)) => r matches Some(Err(PrivoxyError::Config(y))) && y@ == m,
        },
{
    if vec_is(t, "-crunch-incoming-cookies") {
        action.crunch_incoming_cookies = false;
    } else if vec_is(t, "+crunch-outgoing-cookies") {
        action.crunch_outgoing_cookies = true;
    } else if vec_is(t, "-crunch-outgoing-cookies") {
        action.crunch_outgoing_cookies = false;
    } else {
        return None;
    }
    Some(Ok(()))
}

#[verifier::rlimit(80)]
pub(crate) fn tokens_crunch_if_none_match_exec(action: &mut Action, t: &Vec<char>) -> (r: Option<PrivoxyResult<()>>)
    ensures
        match tokens_crunch_if_none_match(old(action)@, t@) {
            None => r is None && final(action)@ == old(action)@,
            Some(Ok(m)) => r matches Some(Ok(_)) && final(action)@ == m,
            Some(Err(m)) => r matches Some(Err(PrivoxyError::Config(y))) && y@ == m,
        },
{
    if vec_is(t, "+crunch-if-none-match") {
        action.crunch_if_none_match = true;
    } else if vec_is(t, "-crunch-if-none-match") {
        action.crunch_if_none_match = false;
    } else if vec_is(t, "+force-text-mode") {
        action.force_text_mode = true;
    } else {
        return None;
    }
    Some(Ok(()))
}

} // verus!
