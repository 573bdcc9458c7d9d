//! Action tokens for blocking, redirects and filters: what each token does to the actions in force.

use vstd::prelude::*;
use crate::text::{parse_unsigned, from_chars, parse_u32, parse_u64, trim, trim_vec, chars_of, push_chars, push_str};
use crate::config::{Action, ActionModel};
use crate::error::{PrivoxyError, PrivoxyResult};
use crate::action_string::{
    bracketed, without, bracket_inner, vec_is, push_chars_string, remove_string, config_err_chars,
};

verus! {

/// What the tokens `+block`, `-block`, `+block{...}` do to an action.
pub open spec fn tokens_block(a: ActionModel, t: Seq<char>) -> Option<Result<ActionModel, Seq<char>>> {
    if t == "+block"@ {
        Some(Ok(ActionModel { block: true, ..a }))
    } else if t == "-block"@ {
        Some(Ok(ActionModel { block: false, ..a }))
    } else if bracketed(t, "+block{"@) is Some {
        let x = bracketed(t, "+block{"@)->Some_0;
        Some(Ok(ActionModel { block: true, block_reason: Some(x), ..a }))
    } else {
        None
    }
}

/// What the tokens `+redirect`, `-redirect`, `+redirect{...}` do to an action.
pub open spec fn tokens_redirect(a: ActionModel, t: Seq<char>) -> Option<Result<ActionModel, Seq<char>>> {
    if t == "+redirect"@ {
        Some(Ok(ActionModel { redirect: Some(""@), ..a }))
    } else if t == "-redirect"@ {
        Some(Ok(ActionModel { redirect: None, ..a }))
    } else if bracketed(t, "+redirect{"@) is Some {
        let x = bracketed(t, "+redirect{"@)->Some_0;
        Some(Ok(ActionModel { redirect: Some(x), ..a }))
    } else {
        None
    }
}

/// What the tokens `+filter`, `-filter`, `+filter{...}` do to an action.
pub open spec fn tokens_filter(a: ActionModel, t: Seq<char>) -> Option<Result<ActionModel, Seq<char>>> {
    if t == "+filter"@ {
        Some(Ok(ActionModel { filter: true, ..a }))
    } else if t == "-filter"@ {
        Some(Ok(ActionModel { filter: false, ..a }))
    } else if bracketed(t, "+filter{"@) is Some {
        let x = bracketed(t, "+filter{"@)->Some_0;
        Some(Ok(ActionModel { filter: true, filter_names: a.filter_names.push(x), ..a }))
    } else {
        None
    }
}

/// What the tokens `-filter{...}`, `+handle-as-empty-document`, `-handle-as-empty-document` do to an action.
pub open spec fn tokens_handle_as_empty_document(a: ActionModel, t: Seq<char>) -> Option<Result<ActionModel, Seq<char>>> {
    if bracketed(t, "-filter{"@) is Some {
        let x = bracketed(t, "-filter{"@)->Some_0;
        Some(Ok(ActionModel { filter_names: without(a.filter_names, x), ..a }))
    } else if t == "+handle-as-empty-document"@ {
        Some(Ok(ActionModel { handle_as_empty_document: true, ..a }))
    } else if t == "-handle-as-empty-document"@ {
        Some(Ok(ActionModel { handle_as_empty_document: false, ..a }))
    } else {
        None
    }
}

/// What the tokens `+handle-as-image`, `-handle-as-image`, `+inspect-jpegs` do to an action.
pub open spec fn tokens_handle_as_image(a: ActionModel, t: Seq<char>) -> Option<Result<ActionModel, Seq<char>>> {
    if t == "+handle-as-image"@ {
        Some(Ok(ActionModel { handle_as_image: true, ..a }))
    } else if t == "-handle-as-image"@ {
        Some(Ok(ActionModel { handle_as_image: false, ..a }))
    } else if t == "+inspect-jpegs"@ {
        Some(Ok(ActionModel { inspect_jpegs: true, ..a }))
    } else {
        None
    }
}

/// What the tokens `-inspect-jpegs`, `+deanimate-gifs`, `+deanimate-gifs{...}` do to an action.
pub open spec fn tokens_deanimate_gifs(a: ActionModel, t: Seq<char>) -> Option<Result<ActionModel, Seq<char>>> {
    if t == "-inspect-jpegs"@ {
        Some(Ok(ActionModel { inspect_jpegs: false, ..a }))
    } else if t == "+deanimate-gifs"@ {
        Some(Ok(ActionModel { deanimate_gifs: Some("last"@), ..a }))
    } else if bracketed(t, "+deanimate-gifs{"@) is Some {
        let x = bracketed(t, "+deanimate-gifs{"@)->Some_0;
        Some(Ok(ActionModel { deanimate_gifs: Some(x), ..a }))
    } else {
        None
    }
}

/// What the tokens `-deanimate-gifs`, `+hide-from-header`, `+hide-from-header{...}` do to an action.
pub open spec fn tokens_hide_from_header(a: ActionModel, t: Seq<char>) -> Option<Result<ActionModel, Seq<char>>> {
    if t == "-deanimate-gifs"@ {
        Some(Ok(ActionModel { deanimate_gifs: None, ..a }))
    } else if t == "+hide-from-header"@ {
        Some(Ok(ActionModel { hide_from_header: Some("block"@), ..a }))
    } else if bracketed(t, "+hide-from-header{"@) is Some {
        let x = bracketed(t, "+hide-from-header{"@)->Some_0;
        Some(Ok(ActionModel { hide_from_header: Some(x), ..a }))
    } else {
        None
    }
}

/// What the tokens `-hide-from-header`, `+hide-user-agent`, `+hide-user-agent{...}` do to an action.
pub open spec fn tokens_hide_user_agent(a: ActionModel, t: Seq<char>) -> Option<Result<ActionModel, Seq<char>>> {
    if t == "-hide-from-header"@ {
        Some(Ok(ActionModel { hide_from_header: None, ..a }))
    } else if t == "+hide-user-agent"@ {
        Some(Ok(ActionModel { hide_user_agent: Some(""@), ..a }))
    } else if bracketed(t, "+hide-user-agent{"@) is Some {
        let x = bracketed(t, "+hide-user-agent{"@)->Some_0;
        Some(Ok(ActionModel { hide_user_agent: Some(x), ..a }))
    } else {
        None
    }
}

#[verifier::rlimit(80)]
pub(crate) fn tokens_block_exec(action: &mut Action, t: &Vec<char>) -> (r: Option<PrivoxyResult<()>>)
    ensures
        match tokens_block(old(action)@, t@) {
            None => r is None && final(action)@ == old(action)@,
            Some(Ok(m)) => r matches Some(Ok(_)) && final(action)@ == m,
            Some(Err(m)) => r matches Some(Err(PrivoxyError::Config(y))) && y@ == m,
        },
{
    if vec_is(t, "+block") {
        action.block = true;
    } else if vec_is(t, "-block") {
        action.block = false;
    } else if let Some(x) = bracket_inner(t, "+block{") {
        action.block = true; action.block_reason = Some(from_chars(&x));
    } else {
        return None;
    }
    Some(Ok(()))
}

#[verifier::rlimit(80)]
pub(crate) fn tokens_redirect_exec(action: &mut Action, t: &Vec<char>) -> (r: Option<PrivoxyResult<()>>)
    ensures
        match tokens_redirect(old(action)@, t@) {
            None => r is None && final(action)@ == old(action)@,
            Some(Ok(m)) => r matches Some(Ok(_)) && final(action)@ == m,
            Some(Err(m)) => r matches Some(Err(PrivoxyError::Config(y))) && y@ == m,
        },
{
    if vec_is(t, "+redirect") {
        action.redirect = Some("".to_string());
    } else if vec_is(t, "-redirect") {
        action.redirect = None;
    } else if let Some(x) = bracket_inner(t, "+redirect{") {
        action.redirect = Some(from_chars(&x));
    } else {
        return None;
    }
    Some(Ok(()))
}

#[verifier::rlimit(80)]
pub(crate) fn tokens_filter_exec(action: &mut Action, t: &Vec<char>) -> (r: Option<PrivoxyResult<()>>)
    ensures
        match tokens_filter(old(action)@, t@) {
            None => r is None && final(action)@ == old(action)@,
            Some(Ok(m)) => r matches Some(Ok(_)) && final(action)@ == m,
            Some(Err(m)) => r matches Some(Err(PrivoxyError::Config(y))) && y@ == m,
        },
{
    if vec_is(t, "+filter") {
        action.filter = true;
    } else if vec_is(t, "-filter") {
        action.filter = false;
    } else if let Some(x) = bracket_inner(t, "+filter{") {
        action.filter = true; push_chars_string(&mut action.filter_names, &x);
    } else {
        return None;
    }
    Some(Ok(()))
}

#[verifier::rlimit(80)]
pub(crate) fn tokens_handle_as_empty_document_exec(action: &mut Action, t: &Vec<char>) -> (r: Option<PrivoxyResult<()>>)
    ensures
        match tokens_handle_as_empty_document(old(action)@, t@) {
            None => r is None && final(action)@ == old(action)@,
            Some(Ok(m)) => r matches Some(Ok(_)) && final(action)@ == m,
            Some(Err(m)) => r matches Some(Err(PrivoxyError::Config(y))) && y@ == m,
        },
{
    if let Some(x) = bracket_inner(t, "-filter{") {
        remove_string(&mut action.filter_names, &x);
    } else if vec_is(t, "+handle-as-empty-document") {
        action.handle_as_empty_document = true;
    } else if vec_is(t, "-handle-as-empty-document") {
        action.handle_as_empty_document = false;
    } else {
        return None;
    }
    Some(Ok(()))
}

#[verifier::rlimit(80)]
pub(crate) fn tokens_handle_as_image_exec(action: &mut Action, t: &Vec<char>) -> (r: Option<PrivoxyResult<()>>)
    ensures
        match tokens_handle_as_image(old(action)@, t@) {
            None => r is None && final(action)@ == old(action)@,
            Some(Ok(m)) => r matches Some(Ok(_)) && final(action)@ == m,
            Some(Err(m)) => r matches Some(Err(PrivoxyError::Config(y))) && y@ == m,
        },
{
    if vec_is(t, "+handle-as-image") {
        action.handle_as_image = true;
    } else if vec_is(t, "-handle-as-image") {
        action.handle_as_image = false;
    } else if vec_is(t, "+inspect-jpegs") {
        action.inspect_jpegs = true;
    } else {
        return None;
    }
    Some(Ok(()))
}

#[verifier::rlimit(80)]
pub(crate) fn tokens_deanimate_gifs_exec(action: &mut Action, t: &Vec<char>) -> (r: Option<PrivoxyResult<()>>)
    ensures
        match tokens_deanimate_gifs(old(action)@, t@) {
            None => r is None && final(action)@ == old(action)@,
            Some(Ok(m)) => r matches Some(Ok(_)) && final(action)@ == m,
            Some(Err(m)) => r matches Some(Err(PrivoxyError::Config(y))) && y@ == m,
        },
{
    if vec_is(t, "-inspect-jpegs") {
        action.inspect_jpegs = false;
    } else if vec_is(t, "+deanimate-gifs") {
        action.deanimate_gifs = Some("last".to_string());
    } else if let Some(x) = bracket_inner(t, "+deanimate-gifs{") {
        action.deanimate_gifs = Some(from_chars(&x));
    } else {
        return None;
    }
    Some(Ok(()))
}

#[verifier::rlimit(80)]
pub(crate) fn tokens_hide_from_header_exec(action: &mut Action, t: &Vec<char>) -> (r: Option<PrivoxyResult<()>>)
    ensures
        match tokens_hide_from_header(old(action)@, t@) {
            None => r is None && final(action)@ == old(action)@,
            Some(Ok(m)) => r matches Some(Ok(_)) && final(action)@ == m,
            Some(Err(m)) => r matches Some(Err(PrivoxyError::Config(y))) && y@ == m,
        },
{
    if vec_is(t, "-deanimate-gifs") {
        action.deanimate_gifs = None;
    } else if vec_is(t, "+hide-from-header") {
        action.hide_from_header = Some("block".to_string());
    } else if let Some(x) = bracket_inner(t, "+hide-from-header{") {
        action.hide_from_header = Some(from_chars(&x));
    } else {
        return None;
    }
    Some(Ok(()))
}

#[verifier::rlimit(80)]
pub(crate) fn tokens_hide_user_agent_exec(action: &mut Action, t: &Vec<char>) -> (r: Option<PrivoxyResult<()>>)
    ensures
        match tokens_hide_user_agent(old(action)@, t@) {
            None => r is None && final(action)@ == old(action)@,
            Some(Ok(m)) => r matches Some(Ok(_)) && final(action)@ == m,
            Some(Err(m)) => r matches Some(Err(PrivoxyError::Config(y))) && y@ == m,
        },
{
    if vec_is(t, "-hide-from-header") {
        action.hide_from_header = None;
    } else if vec_is(t, "+hide-user-agent") {
        action.hide_user_agent = Some("".to_string());
    } else if let Some(x) = bracket_inner(t, "+hide-user-agent{") {
        action.hide_user_agent = Some(from_chars(&x));
    } else {
        return None;
    }
    Some(Ok(()))
}

} // verus!
