//! Reading the actions file, the trust file and forwarding directives.
//!
//! The files themselves are read elsewhere; these functions take their
//! text.

use vstd::prelude::*;
use crate::text::{
    trim, words, split_char, starts_with, ends_with, parse_unsigned, chars_of, trim_vec,
    words_exec, views, from_chars, str_views, slice_chars, starts_with_exec, ends_with_exec,
    split_char_exec, parse_u32, parse_u64, parse_u16, push_chars, push_str, seq_eq, own, str_eq,
};
use crate::http::opt_view;
use crate::config::{
    Action, ActionModel, ForwardSpec, ForwardSpecModel, ForwardType, UrlAction, default_action,
    split_once, rsplit_once, split_once_exec, rsplit_once_exec, config_error, is_socks,
};
use crate::action_string::{action_string_result, copy_action};
pub use crate::action_string::parse_action_string;
use crate::error::{PrivoxyError, PrivoxyResult};

verus! {

/// The kinds of file the proxy watches.
#[derive(Debug, Clone, Copy, PartialEq, Eq, Structural)]
pub enum FileType {
    Actions,
    Filters,
    Trust,
    Config,
}

/// A watched file and when it was last seen modified (milliseconds since
/// the epoch).
#[derive(Debug, Clone)]
pub struct FileList {
    pub filename: String,
    pub last_modified: u128,
    pub active: bool,
    pub file_type: FileType,
}

impl FileList {
    /// The record of a file that is to be (re)loaded, or `None` where the
    /// current record already has this name and modification time.  A new
    /// record keeps the current record's kind, or is an actions file.
    /// Whether the file changed since it was read, given its modification
    /// time now (`None` where it can no longer be read, which counts as a
    /// change).
    pub fn has_been_modified(&self, current: Option<u128>) -> (r: bool)
        ensures
            r == match current {
                Some(t) => t != self.last_modified,
                None => true,
            },
    {
        match current {
            Some(t) => t != self.last_modified,
            None => true,
        }
    }

    pub fn check_file_changed(current: Option<&FileList>, filename: &str, modified: u128) -> (r: Option<FileList>)
        ensures
            match current {
                Some(c) => if c.last_modified == modified && c.filename@ == filename@ {
                    r is None
                } else {
                    r matches Some(f) && f.filename@ == filename@ && f.last_modified == modified
                        && f.active && f.file_type == c.file_type
                },
                None => r matches Some(f) && f.filename@ == filename@ && f.last_modified == modified
                    && f.active && f.file_type == FileType::Actions,
            },
    {
        match current {
            Some(c) => {
                if c.last_modified == modified && str_eq(c.filename.as_str(), filename) {
                    return None;
                }
                Some(FileList { filename: own(filename), last_modified: modified, active: true, file_type: c.file_type })
            },
            None => Some(FileList { filename: own(filename), last_modified: modified, active: true, file_type: FileType::Actions }),
        }
    }
}

/// The URL actions read from an actions file.
#[derive(Debug, Clone)]
pub struct ActionsFile {
    pub file_list: FileList,
    pub url_actions: Vec<UrlAction>,
}

/// The filters read from a filter file.
#[derive(Debug, Clone)]
pub struct FiltersFile {
    pub file_list: FileList,
    pub filters: Vec<crate::content_filter::Filter>,
}

/// The patterns read from a trust file.
#[derive(Debug, Clone)]
pub struct TrustFile {
    pub file_list: FileList,
    pub trust_patterns: Vec<String>,
}



// ---------------------------------------------------------------------------
// Forwarding directives

/// A hop given as `[user[:password]@]host[:port]`, or `.` for none (as
/// `0.0.0.0`, port 0).  A missing port is 0.
pub open spec fn host_port_result(hp: Seq<char>) -> Result<(Seq<char>, u16, Option<Seq<char>>, Option<Seq<char>>), Seq<char>> {
    if hp == "."@ {
        Ok(("0.0.0.0"@, 0u16, None, None))
    } else {
        let auth: (Option<Seq<char>>, Option<Seq<char>>) = match split_once(hp, '@') {
            Some(p) => match split_once(p.0, ':') {
                Some(q) => (Some(q.0), Some(q.1)),
                None => (Some(p.0), None),
            },
            None => (None, None),
        };
        let host_part = match split_once(hp, '@') {
            Some(p) => p.1,
            None => hp,
        };
        match rsplit_once(host_part, ':') {
            Some(h) => match parse_unsigned(h.1, 0xffff) {
                Some(n) => Ok((h.0, n as u16, auth.0, auth.1)),
                None => Err("Invalid port number: "@ + h.1),
            },
            None => Ok((host_part, 0u16, auth.0, auth.1)),
        }
    }
}

fn opt_chars(o: Option<Vec<char>>) -> (r: Option<String>)
    ensures
        opt_view(r) == match o {
            Some(v) => Some(v@),
            None => None::<Seq<char>>,
        },
{
    match o {
        Some(v) => Some(from_chars(&v)),
        None => None,
    }
}

/// Reads a hop `[user[:password]@]host[:port]` or `.`.
pub fn parse_host_port(host_port: &str) -> (r: PrivoxyResult<(String, u16, Option<String>, Option<String>)>)
    ensures
        match host_port_result(host_port@) {
            Ok(h) => r matches Ok(x) && x.0@ == h.0 && x.1 == h.1 && opt_view(x.2) == h.2 && opt_view(
                x.3,
            ) == h.3,
            Err(m) => config_error(r, m),
        },
{
    if str_eq(host_port, ".") {
        return Ok(("0.0.0.0".to_string(), 0, None, None));
    }
    let v = chars_of(host_port);
    let (user, pass, host_part): (Option<Vec<char>>, Option<Vec<char>>, Vec<char>) = match split_once_exec(&v, '@') {
        Some((up, rest)) => match split_once_exec(&up, ':') {
            Some((u, p)) => (Some(u), Some(p), rest),
            None => (Some(up), None, rest),
        },
        None => (None, None, v),
    };
    let user = opt_chars(user);
    let pass = opt_chars(pass);
    match rsplit_once_exec(&host_part, ':') {
        Some((host, port_str)) => match parse_u16(&port_str) {
            Some(port) => Ok((from_chars(&host), port, user, pass)),
            None => {
                let mut m = String::new();
                push_str(&mut m, "Invalid port number: ");
                push_chars(&mut m, &port_str);
                Err(PrivoxyError::Config(m))
            },
        },
        None => Ok((from_chars(&host_part), 0, user, pass)),
    }
}

/// The forwarding kind a directive name gives.
pub open spec fn forward_directive_type(d: Seq<char>) -> Option<ForwardType> {
    if d == "forward"@ {
        Some(ForwardType::Direct)
    } else if d == "forward-socks4"@ {
        Some(ForwardType::Socks4)
    } else if d == "forward-socks4a"@ {
        Some(ForwardType::Socks4a)
    } else if d == "forward-socks5"@ {
        Some(ForwardType::Socks5)
    } else if d == "forward-socks5t"@ {
        Some(ForwardType::Socks5t)
    } else if d == "forward-http"@ {
        Some(ForwardType::Http)
    } else if d == "forward-webserver"@ {
        Some(ForwardType::ForwardWebserver)
    } else {
        None
    }
}

/// What a forwarding line `forward… hop [hop]` gives: `None` for a line of
/// another kind.  The pattern is left empty.
pub open spec fn forward_directive_result(line: Seq<char>) -> Result<Option<ForwardSpecModel>, Seq<char>> {
    let parts = words(line);
    if parts.len() == 0 {
        Ok(None)
    } else {
        match forward_directive_type(parts[0]) {
            None => Ok(None),
            Some(t) => if parts.len() < 2 {
                Err(parts[0] + " directive requires at least one argument"@)
            } else {
                let base = ForwardSpecModel {
                    pattern: Seq::empty(),
                    forward_type: t,
                    gateway_host: None,
                    gateway_port: 0,
                    gateway_username: None,
                    gateway_password: None,
                    forward_host: None,
                    forward_port: 0,
                };
                match host_port_result(parts[1]) {
                    Err(e) => Err(e),
                    Ok(h) => if !is_socks(t) {
                        if h.0 != "0.0.0.0"@ {
                            Ok(Some(ForwardSpecModel { forward_host: Some(h.0), forward_port: h.1, ..base }))
                        } else {
                            Ok(Some(base))
                        }
                    } else {
                        let g = if h.0 != "0.0.0.0"@ {
                            ForwardSpecModel {
                                gateway_host: Some(h.0),
                                gateway_port: h.1,
                                gateway_username: h.2,
                                gateway_password: h.3,
                                ..base
                            }
                        } else {
                            base
                        };
                        if parts.len() >= 3 {
                            match host_port_result(parts[2]) {
                                Err(e) => Err(e),
                                Ok(f) => if f.0 != "0.0.0.0"@ {
                                    Ok(Some(ForwardSpecModel { forward_host: Some(f.0), forward_port: f.1, ..g }))
                                } else {
                                    Ok(Some(g))
                                },
                            }
                        } else {
                            Ok(Some(g))
                        }
                    },
                }
            },
        }
    }
}

fn forward_type_of(d: &Vec<char>) -> (r: Option<ForwardType>)
    ensures
        r == forward_directive_type(d@),
{
    if vec_is(d, "forward") {
        Some(ForwardType::Direct)
    } else if vec_is(d, "forward-socks4") {
        Some(ForwardType::Socks4)
    } else if vec_is(d, "forward-socks4a") {
        Some(ForwardType::Socks4a)
    } else if vec_is(d, "forward-socks5") {
        Some(ForwardType::Socks5)
    } else if vec_is(d, "forward-socks5t") {
        Some(ForwardType::Socks5t)
    } else if vec_is(d, "forward-http") {
        Some(ForwardType::Http)
    } else if vec_is(d, "forward-webserver") {
        Some(ForwardType::ForwardWebserver)
    } else {
        None
    }
}

fn vec_is(v: &Vec<char>, s: &str) -> (r: bool)
    ensures
        r == (v@ == s@),
{
    let w = chars_of(s);
    seq_eq(v, &w)
}

/// Reads a forwarding line such as `forward-socks5 127.0.0.1:9050 .`.
pub fn parse_forward_directive(line: &str) -> (r: PrivoxyResult<Option<ForwardSpec>>)
    ensures
        match forward_directive_result(line@) {
            Ok(Some(m)) => r matches Ok(Some(s)) && s@ == m,
            Ok(None) => r matches Ok(None),
            Err(m) => config_error(r, m),
        },
{
    let vc = chars_of(line);
    let parts = words_exec(&vc);
    let ghost ps = views(parts@);
    if parts.len() == 0 {
        return Ok(None);
    }
    assert(parts@[0]@ == ps[0]);
    let forward_type = match forward_type_of(&parts[0]) {
        Some(t) => t,
        None => {
            return Ok(None);
        },
    };
    if parts.len() < 2 {
        let mut m = String::new();
        push_chars(&mut m, &parts[0]);
        push_str(&mut m, " directive requires at least one argument");
        return Err(PrivoxyError::Config(m));
    }
    assert(parts@[1]@ == ps[1]);
    let mut spec = ForwardSpec {
        pattern: String::new(),
        forward_type,
        gateway_host: None,
        gateway_port: 0,
        gateway_username: None,
        gateway_password: None,
        forward_host: None,
        forward_port: 0,
    };
    proof {
        reveal_strlit("0.0.0.0");
    }
    let socks = match forward_type {
        ForwardType::Socks4 | ForwardType::Socks4a | ForwardType::Socks5 | ForwardType::Socks5t => true,
        _ => false,
    };
    let p1 = from_chars(&parts[1]);
    let (host, port, user, pass) = match parse_host_port(p1.as_str()) {
        Ok(h) => h,
        Err(e) => {
            return Err(e);
        },
    };
    if !socks {
        if !str_eq(host.as_str(), "0.0.0.0") {
            spec.forward_host = Some(host);
            spec.forward_port = port;
        }
    } else {
        if !str_eq(host.as_str(), "0.0.0.0") {
            spec.gateway_host = Some(host);
            spec.gateway_port = port;
            spec.gateway_username = user;
            spec.gateway_password = pass;
        }
        if parts.len() >= 3 {
            assert(parts@[2]@ == ps[2]);
            let p2 = from_chars(&parts[2]);
            match parse_host_port(p2.as_str()) {
                Ok((h2, port2, _, _)) => {
                    if !str_eq(h2.as_str(), "0.0.0.0") {
                        spec.forward_host = Some(h2);
                        spec.forward_port = port2;
                    }
                },
                Err(e) => {
                    return Err(e);
                },
            }
        }
    }
    Ok(Some(spec))
}

// ---------------------------------------------------------------------------
// Actions files

/// The model of a URL action: its patterns, actions, file and line.
pub open spec fn url_action_view(u: UrlAction) -> (Seq<Seq<char>>, ActionModel, Seq<char>, usize) {
    (str_views(u.patterns@), u.action@, u.file_name@, u.line_number)
}

/// Reading an actions file: the entries so far, the actions of the current
/// section, whether a section has begun, and the line it began on.
pub struct ActionsState {
    pub urls: Seq<(Seq<Seq<char>>, ActionModel, Seq<char>, usize)>,
    pub current: ActionModel,
    pub in_block: bool,
    pub start: usize,
}

/// What line `n` (counting from 1) of an actions file does: `{actions}`
/// begins a section, a pattern line adds an entry to the current section,
/// and blank lines, comments and lines before any section do nothing.
pub open spec fn actions_line(st: ActionsState, line: Seq<char>, n: usize, file: Seq<char>) -> Result<ActionsState, Seq<char>> {
    let t = trim(line);
    if t.len() == 0 || starts_with(t, "#"@) {
        Ok(st)
    } else if starts_with(t, "{"@) && ends_with(t, "}"@) && t.len() >= 2 {
        match action_string_result(default_action(), t.subrange(1, t.len() - 1)) {
            Err(e) => Err(e),
            Ok(a) => Ok(ActionsState { current: a, in_block: true, start: n, ..st }),
        }
    } else if st.in_block {
        Ok(ActionsState { urls: st.urls.push((seq![t], st.current, file, st.start)), ..st })
    } else {
        Ok(st)
    }
}

pub open spec fn actions_lines(lines: Seq<Seq<char>>, file: Seq<char>) -> Result<ActionsState, Seq<char>>
    decreases lines.len(),
{
    if lines.len() == 0 {
        Ok(ActionsState { urls: Seq::empty(), current: default_action(), in_block: false, start: 0 })
    } else {
        match actions_lines(lines.drop_last(), file) {
            Err(e) => Err(e),
            Ok(st) => actions_line(st, lines.last(), lines.len() as usize, file),
        }
    }
}

proof fn lemma_actions_err_prefix(ls: Seq<Seq<char>>, file: Seq<char>, k: int)
    requires
        0 <= k <= ls.len(),
        actions_lines(ls.take(k), file) is Err,
    ensures
        actions_lines(ls, file) == actions_lines(ls.take(k), file),
    decreases ls.len() - k,
{
    if k < ls.len() {
        assert(ls.take(k + 1).drop_last() =~= ls.take(k));
        lemma_actions_err_prefix(ls, file, k + 1);
    } else {
        assert(ls.take(k) =~= ls);
    }
}

/// Reads the text of an actions file named `file_name`.
pub fn parse_actions_text(text: &str, file_name: &str) -> (r: PrivoxyResult<Vec<UrlAction>>)
    ensures
        match actions_lines(split_char(text@, '\n'), file_name@) {
            Ok(st) => r matches Ok(v) && v@.map_values(|u: UrlAction| url_action_view(u)) == st.urls,
            Err(m) => config_error(r, m),
        },
{
    let vc = chars_of(text);
    let lines = split_char_exec(&vc, '\n');
    let ghost ls = views(lines@);
    let mut url_actions: Vec<UrlAction> = Vec::new();
    let mut current = Action::default();
    let mut in_block = false;
    let mut start: usize = 0;
    let mut i: usize = 0;
    proof {
        reveal_strlit("#");
        reveal_strlit("{");
        reveal_strlit("}");
        assert(url_actions@.map_values(|u: UrlAction| url_action_view(u)) =~= Seq::<(Seq<Seq<char>>, ActionModel, Seq<char>, usize)>::empty());
    }
    while i < lines.len()
        invariant
            i <= lines.len(),
            ls == views(lines@),
            ls == split_char(text@, '\n'),
            actions_lines(ls.take(i as int), file_name@) == Ok::<ActionsState, Seq<char>>(
                ActionsState {
                    urls: url_actions@.map_values(|u: UrlAction| url_action_view(u)),
                    current: current@,
                    in_block,
                    start,
                },
            ),
        decreases lines.len() - i,
    {
        proof {
            assert(ls.take(i as int + 1).drop_last() =~= ls.take(i as int));
            assert(ls.take(i as int + 1).last() == ls[i as int]);
        }
        let t = trim_vec(&lines[i]);
        let hash = vec!['#'];
        let open = vec!['{'];
        let close = vec!['}'];
        proof {
            reveal_strlit("#");
            reveal_strlit("{");
            reveal_strlit("}");
        }
        assert(hash@ =~= "#"@);
        assert(open@ =~= "{"@);
        assert(close@ =~= "}"@);
        if t.len() == 0 || starts_with_exec(&t, &hash) {
        } else if starts_with_exec(&t, &open) && ends_with_exec(&t, &close) && t.len() >= 2 {
            let inner = from_chars(&slice_chars(&t, 1, t.len() - 1));
            let mut a = Action::default();
            match parse_action_string(inner.as_str(), &mut a) {
                Ok(()) => {},
                Err(e) => {
                    proof {
                        lemma_actions_err_prefix(ls, file_name@, i as int + 1);
                    }
                    return Err(e);
                },
            }
            current = a;
            in_block = true;
            start = i + 1;
        } else if in_block {
            let ghost before = url_actions@;
            let mut patterns: Vec<String> = Vec::new();
            patterns.push(from_chars(&t));
            assert(str_views(patterns@) =~= seq![t@]);
            url_actions.push(UrlAction {
                patterns,
                action: copy_action(&current),
                file_name: own(file_name),
                line_number: start,
            });
            assert(url_actions@.map_values(|u: UrlAction| url_action_view(u)) =~= before.map_values(
                |u: UrlAction| url_action_view(u),
            ).push((seq![t@], current@, file_name@, start)));
        }
        i += 1;
    }
    assert(ls.take(i as int) =~= ls);
    Ok(url_actions)
}

/// The trimmed, non-blank lines of a trust file.
pub open spec fn trust_lines(lines: Seq<Seq<char>>) -> Seq<Seq<char>>
    decreases lines.len(),
{
    if lines.len() == 0 {
        Seq::empty()
    } else if trim(lines.last()).len() == 0 {
        trust_lines(lines.drop_last())
    } else {
        trust_lines(lines.drop_last()).push(trim(lines.last()))
    }
}

/// Reads the text of a trust file: one pattern per non-blank line.
pub fn parse_trust_text(text: &str) -> (r: Vec<String>)
    ensures
        str_views(r@) == trust_lines(split_char(text@, '\n')),
{
    let vc = chars_of(text);
    let lines = split_char_exec(&vc, '\n');
    let ghost ls = views(lines@);
    let mut r: Vec<String> = Vec::new();
    let mut i: usize = 0;
    while i < lines.len()
        invariant
            i <= lines.len(),
            ls == views(lines@),
            str_views(r@) == trust_lines(ls.take(i as int)),
        decreases lines.len() - i,
    {
        proof {
            assert(ls.take(i as int + 1).drop_last() =~= ls.take(i as int));
            assert(ls.take(i as int + 1).last() == ls[i as int]);
        }
        let t = trim_vec(&lines[i]);
        if t.len() > 0 {
            let ghost before = r@;
            r.push(from_chars(&t));
            assert(str_views(r@) =~= str_views(before).push(t@));
        }
        i += 1;
    }
    assert(ls.take(i as int) =~= ls);
    r
}

} // verus!
