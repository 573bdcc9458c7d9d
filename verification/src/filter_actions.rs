//! The filters and taggers that an action names, run on bodies and header
//! tables, and the tags they give to a request.

use vstd::prelude::*;
use vstd::string::StringSliceAdditionalSpecFns;
use crate::text::{chars_of, from_chars, own, push_str, str_eq, split_char, trim, trim_str, str_views};
use crate::config::{Action, Config, split_once, split_once_exec};
use crate::filter::{FilterType, FilterVariables};
use crate::content_filter::{Filter, FilterModel, filter_output, opt_vars, vars_view};
use crate::header_actions::{HeaderTable, table_view, table_insert};
use crate::action::{ActionContext, find_action_for_tag, first_tag_action};
use crate::bindings::string_from_utf8;
use crate::error::PrivoxyResult;

verus! {

// ---------------------------------------------------------------------------
// Finding and running filters

pub open spec fn filters_model(fs: Seq<Filter>) -> Seq<FilterModel> {
    fs.map_values(|f: Filter| f@)
}

/// The index of the first filter named `name` of kind `ft`.
pub open spec fn filter_index(fs: Seq<FilterModel>, name: Seq<char>, ft: FilterType) -> Option<int>
    decreases fs.len(),
{
    if fs.len() == 0 {
        None
    } else {
        match filter_index(fs.drop_last(), name, ft) {
            Some(i) => Some(i),
            None => if fs.last().name == name && fs.last().filter_type == ft {
                Some(fs.len() - 1)
            } else {
                None
            },
        }
    }
}

proof fn lemma_filter_index_bounds(fs: Seq<FilterModel>, name: Seq<char>, ft: FilterType)
    ensures
        filter_index(fs, name, ft) matches Some(i) ==> 0 <= i < fs.len() && fs[i].name == name
            && fs[i].filter_type == ft,
    decreases fs.len(),
{
    if fs.len() > 0 {
        lemma_filter_index_bounds(fs.drop_last(), name, ft);
    }
}

/// The first filter named `name` of kind `ft`.
pub fn find_filter<'a>(filters: &'a Vec<Filter>, name: &str, ft: FilterType) -> (r: Option<&'a Filter>)
    ensures
        match filter_index(filters_model(filters@), name@, ft) {
            Some(i) => r matches Some(f) && 0 <= i < filters@.len() && *f == filters@[i],
            None => r is None,
        },
{
    let ghost fm = filters_model(filters@);
    let mut i: usize = 0;
    while i < filters.len()
        invariant
            i <= filters@.len(),
            fm == filters_model(filters@),
            fm.len() == filters@.len(),
            filter_index(fm.take(i as int), name@, ft) is None,
        decreases filters.len() - i,
    {
        assert(fm.take(i + 1).drop_last() =~= fm.take(i as int));
        assert(fm.take(i + 1).last() == filters@[i as int]@);
        if str_eq(filters[i].name.as_str(), name) && filters[i].filter_type == ft {
            proof {
                lemma_prefix_index(fm, name@, ft, i as int + 1);
            }
            return Some(&filters[i]);
        }
        i += 1;
    }
    assert(fm.take(fm.len() as int) =~= fm);
    None
}

/// A match among the first `k` filters is the match among all of them.
proof fn lemma_prefix_index(fs: Seq<FilterModel>, name: Seq<char>, ft: FilterType, k: int)
    requires
        0 <= k <= fs.len(),
        filter_index(fs.take(k), name, ft) is Some,
    ensures
        filter_index(fs, name, ft) == filter_index(fs.take(k), name, ft),
    decreases fs.len() - k,
{
    if k < fs.len() {
        assert(fs.take(k + 1).drop_last() =~= fs.take(k));
        lemma_prefix_index(fs, name, ft, k + 1);
    } else {
        assert(fs.take(k) =~= fs);
    }
}

/// What a filter makes of `input`: with the variables where it is dynamic.
pub open spec fn ran(f: FilterModel, input: Seq<char>, vars: FilterVariables) -> Seq<char> {
    if f.dynamic {
        filter_output(f, input, Some(vars_view(vars)))
    } else {
        filter_output(f, input, None)
    }
}

fn run_filter(f: &Filter, input: &str, vars: &FilterVariables) -> (r: String)
    ensures
        r@ == ran(f@, input@, *vars),
{
    if f.dynamic {
        f.apply_with_variables(input, Some(vars))
    } else {
        f.apply(input)
    }
}

/// The tag a tagger gives for `input`: its output, where the tagger is on
/// and the output is neither the input nor empty.
pub open spec fn tag_of(f: FilterModel, input: Seq<char>, vars: FilterVariables) -> Option<Seq<char>> {
    if !f.enabled {
        None
    } else {
        let out = ran(f, input, vars);
        if out != input && out.len() > 0 {
            Some(out)
        } else {
            None
        }
    }
}

/// Runs a tagger on `input`.
pub fn apply_tagger(tagger: &Filter, input: &str, vars: &FilterVariables) -> (r: Option<String>)
    ensures
        match tag_of(tagger@, input@, *vars) {
            Some(t) => r matches Some(x) && x@ == t,
            None => r is None,
        },
{
    if !tagger.enabled {
        return None;
    }
    let out = run_filter(tagger, input, vars);
    if !str_eq(out.as_str(), input) && chars_of(out.as_str()).len() > 0 {
        Some(out)
    } else {
        None
    }
}

// ---------------------------------------------------------------------------
// Tags

/// `s` with `x` added unless it holds it already.
pub open spec fn set_insert(s: Seq<Seq<char>>, x: Seq<char>) -> Seq<Seq<char>> {
    if s.contains(x) {
        s
    } else {
        s.push(x)
    }
}

pub open spec fn set_insert_all(s: Seq<Seq<char>>, xs: Seq<Seq<char>>) -> Seq<Seq<char>>
    decreases xs.len(),
{
    if xs.len() == 0 {
        s
    } else {
        set_insert(set_insert_all(s, xs.drop_last()), xs.last())
    }
}

/// A request's tags and suppressed tags.
pub open spec fn ctx_view(c: ActionContext) -> (Seq<Seq<char>>, Seq<Seq<char>>) {
    (str_views(c.tags@), str_views(c.suppress_tags@))
}

/// Adding a tag: nothing where it is suppressed or present; otherwise it is
/// added, and the tags that its actions suppress become suppressed.
pub open spec fn tag_added(
    c: (Seq<Seq<char>>, Seq<Seq<char>>),
    tag: Seq<char>,
    entries: Seq<crate::config::UrlAction>,
) -> (Seq<Seq<char>>, Seq<Seq<char>>) {
    if c.1.contains(tag) || c.0.contains(tag) {
        c
    } else {
        let tags = c.0.push(tag);
        match first_tag_action(entries, tag) {
            Some(a) => (tags, set_insert_all(c.1, a.suppress_tags)),
            None => (tags, c.1),
        }
    }
}

fn holds(v: &Vec<String>, x: &str) -> (r: bool)
    ensures
        r == str_views(v@).contains(x@),
{
    let mut i: usize = 0;
    while i < v.len()
        invariant
            i <= v.len(),
            forall|k: int| 0 <= k < i ==> str_views(v@)[k] != x@,
        decreases v.len() - i,
    {
        if str_eq(v[i].as_str(), x) {
            assert(str_views(v@)[i as int] == x@);
            return true;
        }
        i += 1;
    }
    false
}

fn insert_name(v: &mut Vec<String>, x: &str)
    ensures
        str_views(final(v)@) == set_insert(str_views(old(v)@), x@),
{
    if !holds(v, x) {
        let ghost before = v@;
        v.push(own(x));
        assert(str_views(v@) =~= str_views(before).push(x@));
    }
}

fn insert_names(v: &mut Vec<String>, xs: &Vec<String>)
    ensures
        str_views(final(v)@) == set_insert_all(str_views(old(v)@), str_views(xs@)),
{
    let ghost start = str_views(v@);
    let ghost xv = str_views(xs@);
    let mut i: usize = 0;
    assert(xv.take(0) =~= Seq::<Seq<char>>::empty());
    while i < xs.len()
        invariant
            i <= xs@.len(),
            xv == str_views(xs@),
            str_views(v@) == set_insert_all(start, xv.take(i as int)),
        decreases xs.len() - i,
    {
        assert(xv.take(i + 1).drop_last() =~= xv.take(i as int));
        assert(xv.take(i + 1).last() == xs@[i as int]@);
        insert_name(v, xs[i].as_str());
        i += 1;
    }
    assert(xv.take(xv.len() as int) =~= xv);
}

/// Adds `tag` to the request's tags unless it is suppressed or present.
pub fn add_tag(ctx: &mut ActionContext, tag: &str, config: &Config)
    ensures
        ctx_view(*final(ctx)) == tag_added(ctx_view(*old(ctx)), tag@, config.url_actions@),
{
    if holds(&ctx.suppress_tags, tag) || holds(&ctx.tags, tag) {
        return;
    }
    let ghost before = ctx.tags@;
    ctx.tags.push(own(tag));
    assert(str_views(ctx.tags@) =~= str_views(before).push(tag@));
    match find_action_for_tag(tag, config) {
        Some(ta) => {
            proof {
                crate::config::lemma_names_of(ta.suppress_tags);
            }
            insert_names(&mut ctx.suppress_tags, &ta.suppress_tags);
        },
        None => {},
    }
}

/// Suppresses the tags that the action names.
pub fn apply_suppress_tags(action: &Action, ctx: &mut ActionContext)
    ensures
        str_views(final(ctx).suppress_tags@) == set_insert_all(
            str_views(old(ctx).suppress_tags@),
            str_views(action.suppress_tags@),
        ),
        final(ctx).tags == old(ctx).tags,
{
    insert_names(&mut ctx.suppress_tags, &action.suppress_tags);
}

// ---------------------------------------------------------------------------
// Taggers on headers and bodies

/// A header as a line `name: value`.
pub open spec fn header_line(e: (Seq<char>, Seq<char>)) -> Seq<char> {
    e.0 + ": "@ + e.1
}

/// The tags from running one tagger over the header lines in order.
pub open spec fn header_tags(
    c: (Seq<Seq<char>>, Seq<Seq<char>>),
    f: FilterModel,
    hs: Seq<(Seq<char>, Seq<char>)>,
    vars: FilterVariables,
    entries: Seq<crate::config::UrlAction>,
) -> (Seq<Seq<char>>, Seq<Seq<char>>)
    decreases hs.len(),
{
    if hs.len() == 0 {
        c
    } else {
        let before = header_tags(c, f, hs.drop_last(), vars, entries);
        match tag_of(f, header_line(hs.last()), vars) {
            Some(t) => tag_added(before, t, entries),
            None => before,
        }
    }
}

/// The tags from the taggers named `names` of kind `ft`, each run over the
/// header lines.
pub open spec fn header_taggers_run(
    c: (Seq<Seq<char>>, Seq<Seq<char>>),
    fs: Seq<FilterModel>,
    names: Seq<Seq<char>>,
    ft: FilterType,
    hs: Seq<(Seq<char>, Seq<char>)>,
    vars: FilterVariables,
    entries: Seq<crate::config::UrlAction>,
) -> (Seq<Seq<char>>, Seq<Seq<char>>)
    decreases names.len(),
{
    if names.len() == 0 {
        c
    } else {
        let before = header_taggers_run(c, fs, names.drop_last(), ft, hs, vars, entries);
        match filter_index(fs, names.last(), ft) {
            Some(i) => header_tags(before, fs[i], hs, vars, entries),
            None => before,
        }
    }
}

fn tag_headers(
    headers: &HeaderTable,
    tagger: &Filter,
    config: &Config,
    ctx: &mut ActionContext,
    vars: &FilterVariables,
)
    ensures
        ctx_view(*final(ctx)) == header_tags(ctx_view(*old(ctx)), tagger@, headers@, *vars, config.url_actions@),
{
    let ghost start = ctx_view(*ctx);
    let ghost hs = headers@;
    let mut i: usize = 0;
    assert(hs.take(0) =~= Seq::<(Seq<char>, Seq<char>)>::empty());
    while i < headers.entries.len()
        invariant
            i <= headers.entries@.len(),
            hs == headers@,
            hs.len() == headers.entries@.len(),
            ctx_view(*ctx) == header_tags(start, tagger@, hs.take(i as int), *vars, config.url_actions@),
        decreases headers.entries.len() - i,
    {
        assert(hs.take(i + 1).drop_last() =~= hs.take(i as int));
        assert(hs.take(i + 1).last() == (headers.entries@[i as int].0@, headers.entries@[i as int].1@));
        let mut line = headers.entries[i].0.clone();
        push_str(&mut line, ": ");
        push_str(&mut line, headers.entries[i].1.as_str());
        match apply_tagger(tagger, line.as_str(), vars) {
            Some(t) => add_tag(ctx, t.as_str(), config),
            None => {},
        }
        i += 1;
    }
    assert(hs.take(hs.len() as int) =~= hs);
}

fn run_header_taggers(
    headers: &HeaderTable,
    filters: &Vec<Filter>,
    config: &Config,
    names: &Vec<String>,
    ft: FilterType,
    ctx: &mut ActionContext,
    vars: &FilterVariables,
)
    ensures
        ctx_view(*final(ctx)) == header_taggers_run(
            ctx_view(*old(ctx)),
            filters_model(filters@),
            str_views(names@),
            ft,
            headers@,
            *vars,
            config.url_actions@,
        ),
{
    let ghost start = ctx_view(*ctx);
    let ghost nv = str_views(names@);
    let ghost fm = filters_model(filters@);
    let mut i: usize = 0;
    assert(nv.take(0) =~= Seq::<Seq<char>>::empty());
    while i < names.len()
        invariant
            i <= names@.len(),
            nv == str_views(names@),
            fm == filters_model(filters@),
            ctx_view(*ctx) == header_taggers_run(start, fm, nv.take(i as int), ft, headers@, *vars, config.url_actions@),
        decreases names.len() - i,
    {
        assert(nv.take(i + 1).drop_last() =~= nv.take(i as int));
        assert(nv.take(i + 1).last() == names@[i as int]@);
        match find_filter(filters, names[i].as_str(), ft) {
            Some(t) => {
                tag_headers(headers, t, config, ctx, vars);
            },
            None => {},
        }
        i += 1;
    }
    assert(nv.take(nv.len() as int) =~= nv);
}

/// Runs the action's client header taggers over the headers and adds the
/// tags they give.
pub fn apply_client_header_taggers(
    headers: &HeaderTable,
    filters: &Vec<Filter>,
    config: &Config,
    action: &Action,
    ctx: &mut ActionContext,
    vars: &FilterVariables,
)
    ensures
        ctx_view(*final(ctx)) == header_taggers_run(
            ctx_view(*old(ctx)),
            filters_model(filters@),
            str_views(action.client_header_tagger_names@),
            FilterType::ClientHeaderTagger,
            headers@,
            *vars,
            config.url_actions@,
        ),
{
    run_header_taggers(headers, filters, config, &action.client_header_tagger_names, FilterType::ClientHeaderTagger, ctx, vars);
}

/// Runs the action's server header taggers over the headers and adds the
/// tags they give.
pub fn apply_server_header_taggers(
    headers: &HeaderTable,
    filters: &Vec<Filter>,
    config: &Config,
    action: &Action,
    ctx: &mut ActionContext,
    vars: &FilterVariables,
)
    ensures
        ctx_view(*final(ctx)) == header_taggers_run(
            ctx_view(*old(ctx)),
            filters_model(filters@),
            str_views(action.server_header_tagger_names@),
            FilterType::ServerHeaderTagger,
            headers@,
            *vars,
            config.url_actions@,
        ),
{
    run_header_taggers(headers, filters, config, &action.server_header_tagger_names, FilterType::ServerHeaderTagger, ctx, vars);
}

/// The tags from the body taggers named `names`, each run on the body.
pub open spec fn body_taggers_run(
    c: (Seq<Seq<char>>, Seq<Seq<char>>),
    fs: Seq<FilterModel>,
    names: Seq<Seq<char>>,
    body: Seq<char>,
    vars: FilterVariables,
    entries: Seq<crate::config::UrlAction>,
) -> (Seq<Seq<char>>, Seq<Seq<char>>)
    decreases names.len(),
{
    if names.len() == 0 {
        c
    } else {
        let before = body_taggers_run(c, fs, names.drop_last(), body, vars, entries);
        match filter_index(fs, names.last(), FilterType::ClientBodyTagger) {
            Some(i) => match tag_of(fs[i], body, vars) {
                Some(t) => tag_added(before, t, entries),
                None => before,
            },
            None => before,
        }
    }
}

/// Runs the action's client body taggers on a non-empty UTF-8 body and
/// adds the tags they give; other bodies give none.
pub fn apply_client_body_taggers(
    body: &[u8],
    filters: &Vec<Filter>,
    config: &Config,
    action: &Action,
    ctx: &mut ActionContext,
    vars: &FilterVariables,
)
    ensures
        ctx_view(*final(ctx)) == if body@.len() > 0 && vstd::utf8::valid_utf8(body@) {
            body_taggers_run(
                ctx_view(*old(ctx)),
                filters_model(filters@),
                str_views(action.client_body_tagger_names@),
                vstd::utf8::decode_utf8(body@),
                *vars,
                config.url_actions@,
            )
        } else {
            ctx_view(*old(ctx))
        },
{
    if body.len() == 0 {
        return;
    }
    let text = match string_from_utf8(vstd::slice::slice_to_vec(body)) {
        Some(s) => s,
        None => {
            return;
        },
    };
    let ghost start = ctx_view(*ctx);
    let ghost nv = str_views(action.client_body_tagger_names@);
    let ghost fm = filters_model(filters@);
    let names = &action.client_body_tagger_names;
    let mut i: usize = 0;
    assert(nv.take(0) =~= Seq::<Seq<char>>::empty());
    while i < names.len()
        invariant
            i <= names@.len(),
            names == &action.client_body_tagger_names,
            nv == str_views(names@),
            fm == filters_model(filters@),
            ctx_view(*ctx) == body_taggers_run(start, fm, nv.take(i as int), text@, *vars, config.url_actions@),
        decreases names.len() - i,
    {
        assert(nv.take(i + 1).drop_last() =~= nv.take(i as int));
        assert(nv.take(i + 1).last() == names@[i as int]@);
        match find_filter(filters, names[i].as_str(), FilterType::ClientBodyTagger) {
            Some(t) => match apply_tagger(t, text.as_str(), vars) {
                Some(tag) => add_tag(ctx, tag.as_str(), config),
                None => {},
            },
            None => {},
        }
        i += 1;
    }
    assert(nv.take(nv.len() as int) =~= nv);
}

// ---------------------------------------------------------------------------
// Filters on bodies and headers

/// The text after the filters named `names` of kind `ft` that are on, in
/// order.
pub open spec fn filters_run(
    fs: Seq<FilterModel>,
    names: Seq<Seq<char>>,
    ft: FilterType,
    t: Seq<char>,
    vars: FilterVariables,
) -> Seq<char>
    decreases names.len(),
{
    if names.len() == 0 {
        t
    } else {
        let before = filters_run(fs, names.drop_last(), ft, t, vars);
        match filter_index(fs, names.last(), ft) {
            Some(i) => if fs[i].enabled {
                ran(fs[i], before, vars)
            } else {
                before
            },
            None => before,
        }
    }
}

fn run_filters(text: String, filters: &Vec<Filter>, names: &Vec<String>, ft: FilterType, vars: &FilterVariables) -> (r: String)
    ensures
        r@ == filters_run(filters_model(filters@), str_views(names@), ft, text@, *vars),
{
    let ghost nv = str_views(names@);
    let ghost fm = filters_model(filters@);
    let ghost t0 = text@;
    let mut cur = text;
    let mut i: usize = 0;
    assert(nv.take(0) =~= Seq::<Seq<char>>::empty());
    while i < names.len()
        invariant
            i <= names@.len(),
            nv == str_views(names@),
            fm == filters_model(filters@),
            cur@ == filters_run(fm, nv.take(i as int), ft, t0, *vars),
        decreases names.len() - i,
    {
        assert(nv.take(i + 1).drop_last() =~= nv.take(i as int));
        assert(nv.take(i + 1).last() == names@[i as int]@);
        match find_filter(filters, names[i].as_str(), ft) {
            Some(f) => {
                if f.enabled {
                    cur = run_filter(f, cur.as_str(), vars);
                }
            },
            None => {},
        }
        i += 1;
    }
    assert(nv.take(nv.len() as int) =~= nv);
    cur
}

/// A body after the filters: a non-empty UTF-8 body filtered and encoded
/// again; any other body as it was.
pub open spec fn body_filtered(
    body: Seq<u8>,
    fs: Seq<FilterModel>,
    names: Seq<Seq<char>>,
    ft: FilterType,
    vars: FilterVariables,
) -> Seq<u8> {
    if body.len() > 0 && vstd::utf8::valid_utf8(body) {
        vstd::utf8::encode_utf8(filters_run(fs, names, ft, vstd::utf8::decode_utf8(body), vars))
    } else {
        body
    }
}

fn filter_body(body: &mut Vec<u8>, filters: &Vec<Filter>, names: &Vec<String>, ft: FilterType, vars: &FilterVariables)
    ensures
        final(body)@ == body_filtered(old(body)@, filters_model(filters@), str_views(names@), ft, *vars),
{
    if body.len() == 0 {
        return;
    }
    let text = match string_from_utf8(body.clone()) {
        Some(s) => s,
        None => {
            return;
        },
    };
    let out = run_filters(text, filters, names, ft, vars);
    let os = out.as_str();
    assert(os.spec_bytes() == vstd::utf8::encode_utf8(os@));
    let bytes = vstd::slice::slice_to_vec(os.as_bytes());
    *body = bytes;
}

/// Runs the action's content filters on a response body.
pub fn apply_content_filters(body: &mut Vec<u8>, filters: &Vec<Filter>, action: &Action, vars: &FilterVariables) -> (r: PrivoxyResult<()>)
    ensures
        r is Ok,
        final(body)@ == body_filtered(
            old(body)@,
            filters_model(filters@),
            str_views(action.filter_names@),
            FilterType::Content,
            *vars,
        ),
{
    filter_body(body, filters, &action.filter_names, FilterType::Content, vars);
    Ok(())
}

/// Runs the action's client body filters on a request body.
pub fn apply_client_body_filter(body: &mut Vec<u8>, filters: &Vec<Filter>, action: &Action, vars: &FilterVariables) -> (r: PrivoxyResult<()>)
    ensures
        r is Ok,
        final(body)@ == body_filtered(
            old(body)@,
            filters_model(filters@),
            str_views(action.client_body_filter_names@),
            FilterType::ClientBody,
            *vars,
        ),
{
    filter_body(body, filters, &action.client_body_filter_names, FilterType::ClientBody, vars);
    Ok(())
}

/// One header filter run over a table: each header line filtered and read
/// back as `name: value` (both trimmed) into a new table; lines without a
/// `:` are dropped.
pub open spec fn table_filtered(
    hs: Seq<(Seq<char>, Seq<char>)>,
    f: FilterModel,
    vars: FilterVariables,
) -> Seq<(Seq<char>, Seq<char>)>
    decreases hs.len(),
{
    if hs.len() == 0 {
        Seq::empty()
    } else {
        let before = table_filtered(hs.drop_last(), f, vars);
        match split_once(ran(f, header_line(hs.last()), vars), ':') {
            Some(nv) => table_insert(before, trim(nv.0), trim(nv.1)),
            None => before,
        }
    }
}

/// The table after the header filters named `names` of kind `ft` that are
/// on, in order.
pub open spec fn header_filters_run(
    hs: Seq<(Seq<char>, Seq<char>)>,
    fs: Seq<FilterModel>,
    names: Seq<Seq<char>>,
    ft: FilterType,
    vars: FilterVariables,
) -> Seq<(Seq<char>, Seq<char>)>
    decreases names.len(),
{
    if names.len() == 0 {
        hs
    } else {
        let before = header_filters_run(hs, fs, names.drop_last(), ft, vars);
        match filter_index(fs, names.last(), ft) {
            Some(i) => if fs[i].enabled {
                table_filtered(before, fs[i], vars)
            } else {
                before
            },
            None => before,
        }
    }
}

fn filter_table(headers: &HeaderTable, f: &Filter, vars: &FilterVariables) -> (r: HeaderTable)
    ensures
        r@ == table_filtered(headers@, f@, *vars),
{
    let ghost hs = headers@;
    let mut out = HeaderTable::new();
    let mut i: usize = 0;
    assert(hs.take(0) =~= Seq::<(Seq<char>, Seq<char>)>::empty());
    while i < headers.entries.len()
        invariant
            i <= headers.entries@.len(),
            hs == headers@,
            hs.len() == headers.entries@.len(),
            out@ == table_filtered(hs.take(i as int), f@, *vars),
        decreases headers.entries.len() - i,
    {
        assert(hs.take(i + 1).drop_last() =~= hs.take(i as int));
        assert(hs.take(i + 1).last() == (headers.entries@[i as int].0@, headers.entries@[i as int].1@));
        let mut line = headers.entries[i].0.clone();
        push_str(&mut line, ": ");
        push_str(&mut line, headers.entries[i].1.as_str());
        let filtered = run_filter(f, line.as_str(), vars);
        let fv = chars_of(filtered.as_str());
        match split_once_exec(fv.as_slice(), ':') {
            Some((n, v)) => {
                let ns = from_chars(n.as_slice());
                let vs = from_chars(v.as_slice());
                out.insert(trim_str(ns.as_str()).as_str(), trim_str(vs.as_str()).as_str());
            },
            None => {},
        }
        i += 1;
    }
    assert(hs.take(hs.len() as int) =~= hs);
    out
}

fn filter_headers(headers: &mut HeaderTable, filters: &Vec<Filter>, names: &Vec<String>, ft: FilterType, vars: &FilterVariables)
    ensures
        final(headers)@ == header_filters_run(old(headers)@, filters_model(filters@), str_views(names@), ft, *vars),
{
    let ghost start = headers@;
    let ghost nv = str_views(names@);
    let ghost fm = filters_model(filters@);
    let mut i: usize = 0;
    assert(nv.take(0) =~= Seq::<Seq<char>>::empty());
    while i < names.len()
        invariant
            i <= names@.len(),
            nv == str_views(names@),
            fm == filters_model(filters@),
            headers@ == header_filters_run(start, fm, nv.take(i as int), ft, *vars),
        decreases names.len() - i,
    {
        assert(nv.take(i + 1).drop_last() =~= nv.take(i as int));
        assert(nv.take(i + 1).last() == names@[i as int]@);
        match find_filter(filters, names[i].as_str(), ft) {
            Some(f) => {
                if f.enabled {
                    let next = filter_table(headers, f, vars);
                    *headers = next;
                }
            },
            None => {},
        }
        i += 1;
    }
    assert(nv.take(nv.len() as int) =~= nv);
}

/// Runs the action's client header filters over the request headers.
pub fn apply_client_header_filters(headers: &mut HeaderTable, filters: &Vec<Filter>, action: &Action, vars: &FilterVariables)
    ensures
        final(headers)@ == header_filters_run(
            old(headers)@,
            filters_model(filters@),
            str_views(action.client_header_filter_names@),
            FilterType::ClientHeader,
            *vars,
        ),
{
    filter_headers(headers, filters, &action.client_header_filter_names, FilterType::ClientHeader, vars);
}

/// Runs the action's server header filters over the response headers.
pub fn apply_server_header_filters(headers: &mut HeaderTable, filters: &Vec<Filter>, action: &Action, vars: &FilterVariables)
    ensures
        final(headers)@ == header_filters_run(
            old(headers)@,
            filters_model(filters@),
            str_views(action.server_header_filter_names@),
            FilterType::ServerHeader,
            *vars,
        ),
{
    filter_headers(headers, filters, &action.server_header_filter_names, FilterType::ServerHeader, vars);
}

} // verus!
