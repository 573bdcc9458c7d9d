//! What the header actions do to a table of headers: adding, removing,
//! replacing and rewriting headers by name.

use vstd::prelude::*;
use crate::text::{
    chars_of, from_chars, own, push_str, push_chars, str_eq, contains, contains_exec, split_char,
    split_char_exec, trim, trim_str, views, str_views, decimal, push_decimal, parse_signed, parse_i64,
};
use crate::config::{Action, split_once, split_once_exec};
use crate::bindings::{
    unicode_lowercase, str_to_lowercase, regex_error, regex_check, regex_replaced_first, regex_replace_first,
    http_date, format_http_date,
};
use crate::http::opt_view;

verus! {

// ---------------------------------------------------------------------------
// The table

/// Headers by exact name, each name held once, in the order they were
/// first set.
#[derive(Debug, Clone)]
pub struct HeaderTable {
    pub entries: Vec<(String, String)>,
}

pub open spec fn table_view(s: Seq<(String, String)>) -> Seq<(Seq<char>, Seq<char>)> {
    s.map_values(|e: (String, String)| (e.0@, e.1@))
}

impl View for HeaderTable {
    type V = Seq<(Seq<char>, Seq<char>)>;

    open spec fn view(&self) -> Seq<(Seq<char>, Seq<char>)> {
        table_view(self.entries@)
    }
}

/// The position of the entry named `k`.
pub open spec fn key_index(s: Seq<(Seq<char>, Seq<char>)>, k: Seq<char>) -> Option<int>
    decreases s.len(),
{
    if s.len() == 0 {
        None
    } else if s.last().0 == k {
        Some(s.len() - 1)
    } else {
        key_index(s.drop_last(), k)
    }
}

/// The value of the entry named `k`.
pub open spec fn table_get(s: Seq<(Seq<char>, Seq<char>)>, k: Seq<char>) -> Option<Seq<char>> {
    match key_index(s, k) {
        Some(i) => Some(s[i].1),
        None => None,
    }
}

/// The table with `k` set to `v`: the entry replaced in place, or added at
/// the end.
pub open spec fn table_insert(s: Seq<(Seq<char>, Seq<char>)>, k: Seq<char>, v: Seq<char>) -> Seq<(Seq<char>, Seq<char>)> {
    match key_index(s, k) {
        Some(i) => s.update(i, (k, v)),
        None => s.push((k, v)),
    }
}

/// The table without the entry named `k`.
pub open spec fn table_remove(s: Seq<(Seq<char>, Seq<char>)>, k: Seq<char>) -> Seq<(Seq<char>, Seq<char>)>
    decreases s.len(),
{
    if s.len() == 0 {
        s
    } else if s.last().0 == k {
        table_remove(s.drop_last(), k)
    } else {
        table_remove(s.drop_last(), k).push(s.last())
    }
}

proof fn lemma_key_index_bounds(s: Seq<(Seq<char>, Seq<char>)>, k: Seq<char>)
    ensures
        key_index(s, k) matches Some(i) ==> 0 <= i < s.len() && s[i].0 == k,
    decreases s.len(),
{
    if s.len() > 0 && s.last().0 != k {
        lemma_key_index_bounds(s.drop_last(), k);
    }
}

/// Whether an entry is named other than `k`.
pub open spec fn named_other_than(k: Seq<char>) -> spec_fn((Seq<char>, Seq<char>)) -> bool {
    |e: (Seq<char>, Seq<char>)| e.0 != k
}

/// Removing a name keeps every other entry, in order.
pub proof fn lemma_table_remove_filters(s: Seq<(Seq<char>, Seq<char>)>, k: Seq<char>)
    ensures
        table_remove(s, k) == s.filter(named_other_than(k)),
    decreases s.len(),
{
    reveal(Seq::filter);
    if s.len() > 0 {
        lemma_table_remove_filters(s.drop_last(), k);
    }
}

/// A table in which no entry has name `k` has no value for `k`.
pub proof fn lemma_key_index_absent(s: Seq<(Seq<char>, Seq<char>)>, k: Seq<char>)
    requires
        forall|i: int| 0 <= i < s.len() ==> (#[trigger] s[i]).0 != k,
    ensures
        key_index(s, k) is None,
    decreases s.len(),
{
    if s.len() > 0 {
        assert(s.last() == s[s.len() - 1]);
        assert forall|i: int| 0 <= i < s.drop_last().len() implies (#[trigger] s.drop_last()[i]).0 != k by {
            assert(s.drop_last()[i] == s[i]);
        }
        lemma_key_index_absent(s.drop_last(), k);
    }
}

fn key_index_exec(t: &HeaderTable, k: &str) -> (r: Option<usize>)
    ensures
        match key_index(t@, k@) {
            Some(i) => r matches Some(j) && j == i && j < t.entries@.len(),
            None => r is None,
        },
{
    let ghost s = t@;
    let mut i: usize = t.entries.len();
    assert(s.take(s.len() as int) =~= s);
    while i > 0
        invariant
            i <= t.entries@.len(),
            s == t@,
            s.len() == t.entries@.len(),
            key_index(s, k@) == key_index(s.take(i as int), k@),
        decreases i,
    {
        let ghost cur = s.take(i as int);
        assert(cur.last() == s[i - 1]);
        assert(s[i - 1] == (t.entries@[i - 1].0@, t.entries@[i - 1].1@));
        if str_eq(t.entries[i - 1].0.as_str(), k) {
            return Some(i - 1);
        }
        assert(cur.drop_last() =~= s.take(i - 1));
        i -= 1;
    }
    None
}

impl HeaderTable {
    /// An empty table.
    pub fn new() -> (r: Self)
        ensures
            r@.len() == 0,
    {
        HeaderTable { entries: Vec::new() }
    }

    /// The value of the header named `k`.
    pub fn get(&self, k: &str) -> (r: Option<String>)
        ensures
            opt_view(r) == table_get(self@, k@),
    {
        proof {
            lemma_key_index_bounds(self@, k@);
        }
        match key_index_exec(self, k) {
            Some(i) => {
                assert(self@[i as int] == (self.entries@[i as int].0@, self.entries@[i as int].1@));
                Some(self.entries[i].1.clone())
            },
            None => None,
        }
    }

    /// Sets the header named `k` to `v`.
    pub fn insert(&mut self, k: &str, v: &str)
        ensures
            final(self)@ == table_insert(old(self)@, k@, v@),
    {
        proof {
            lemma_key_index_bounds(self@, k@);
        }
        let ghost before = self@;
        match key_index_exec(self, k) {
            Some(i) => {
                self.entries.set(i, (own(k), own(v)));
                assert(self@ =~= before.update(i as int, (k@, v@)));
            },
            None => {
                self.entries.push((own(k), own(v)));
                assert(self@ =~= before.push((k@, v@)));
            },
        }
    }

    /// Removes the header named `k`.
    pub fn remove(&mut self, k: &str)
        ensures
            final(self)@ == table_remove(old(self)@, k@),
    {
        let ghost s = self@;
        let mut kept: Vec<(String, String)> = Vec::new();
        let mut i: usize = 0;
        assert(s.take(0) =~= Seq::<(Seq<char>, Seq<char>)>::empty());
        while i < self.entries.len()
            invariant
                i <= self.entries@.len(),
                s == self@,
                s.len() == self.entries@.len(),
                table_view(kept@) == table_remove(s.take(i as int), k@),
            decreases self.entries.len() - i,
        {
            assert(s.take(i + 1).drop_last() =~= s.take(i as int));
            assert(s.take(i + 1).last() == (self.entries@[i as int].0@, self.entries@[i as int].1@));
            if !str_eq(self.entries[i].0.as_str(), k) {
                let ghost before = kept@;
                kept.push((self.entries[i].0.clone(), self.entries[i].1.clone()));
                assert(table_view(kept@) =~= table_view(before).push(s[i as int]));
            }
            i += 1;
        }
        assert(s.take(s.len() as int) =~= s);
        self.entries = kept;
    }
}

// ---------------------------------------------------------------------------
// Adding and crunching

/// The headers `name: value` of the `add-header` action set, in order.
pub open spec fn headers_added(s: Seq<(Seq<char>, Seq<char>)>, adds: Seq<Seq<char>>) -> Seq<(Seq<char>, Seq<char>)>
    decreases adds.len(),
{
    if adds.len() == 0 {
        s
    } else {
        let before = headers_added(s, adds.drop_last());
        match split_once(adds.last(), ':') {
            Some(nv) => table_insert(before, trim(nv.0), trim(nv.1)),
            None => before,
        }
    }
}

/// Sets each header of the action's `add-header` list.
pub fn apply_add_header(headers: &mut HeaderTable, action: &Action)
    ensures
        final(headers)@ == headers_added(old(headers)@, str_views(action.add_headers@)),
{
    let ghost start = headers@;
    let ghost adds = str_views(action.add_headers@);
    let mut i: usize = 0;
    assert(adds.take(0) =~= Seq::<Seq<char>>::empty());
    while i < action.add_headers.len()
        invariant
            i <= action.add_headers@.len(),
            adds == str_views(action.add_headers@),
            headers@ == headers_added(start, adds.take(i as int)),
        decreases action.add_headers.len() - i,
    {
        assert(adds.take(i + 1).drop_last() =~= adds.take(i as int));
        assert(adds.take(i + 1).last() == action.add_headers@[i as int]@);
        let h = chars_of(action.add_headers[i].as_str());
        match split_once_exec(h.as_slice(), ':') {
            Some((n, v)) => {
                let ns = from_chars(n.as_slice());
                let vs = from_chars(v.as_slice());
                let name = trim_str(ns.as_str());
                let value = trim_str(vs.as_str());
                headers.insert(name.as_str(), value.as_str());
            },
            None => {},
        }
        i += 1;
    }
    assert(adds.take(adds.len() as int) =~= adds);
}

/// The table without the entries whose lowercased name contains `p`.
pub open spec fn crunched_by(s: Seq<(Seq<char>, Seq<char>)>, p: Seq<char>) -> Seq<(Seq<char>, Seq<char>)>
    decreases s.len(),
{
    if s.len() == 0 {
        s
    } else if contains(unicode_lowercase(s.last().0), p) {
        crunched_by(s.drop_last(), p)
    } else {
        crunched_by(s.drop_last(), p).push(s.last())
    }
}

/// The table after crunching with each pattern, lowercased, in turn.
pub open spec fn crunched_all(s: Seq<(Seq<char>, Seq<char>)>, pats: Seq<Seq<char>>) -> Seq<(Seq<char>, Seq<char>)>
    decreases pats.len(),
{
    if pats.len() == 0 {
        s
    } else {
        crunched_by(crunched_all(s, pats.drop_last()), unicode_lowercase(pats.last()))
    }
}

fn crunch_by(headers: &mut HeaderTable, p: &str)
    ensures
        final(headers)@ == crunched_by(old(headers)@, p@),
{
    let ghost s = headers@;
    let pv = chars_of(p);
    let mut kept: Vec<(String, String)> = Vec::new();
    let mut i: usize = 0;
    assert(s.take(0) =~= Seq::<(Seq<char>, Seq<char>)>::empty());
    while i < headers.entries.len()
        invariant
            i <= headers.entries@.len(),
            s == headers@,
            s.len() == headers.entries@.len(),
            pv@ == p@,
            table_view(kept@) == crunched_by(s.take(i as int), p@),
        decreases headers.entries.len() - i,
    {
        assert(s.take(i + 1).drop_last() =~= s.take(i as int));
        assert(s.take(i + 1).last() == (headers.entries@[i as int].0@, headers.entries@[i as int].1@));
        let lower = str_to_lowercase(headers.entries[i].0.as_str());
        let lv = chars_of(lower.as_str());
        if !contains_exec(lv.as_slice(), pv.as_slice()) {
            let ghost before = kept@;
            kept.push((headers.entries[i].0.clone(), headers.entries[i].1.clone()));
            assert(table_view(kept@) =~= table_view(before).push(s[i as int]));
        }
        i += 1;
    }
    assert(s.take(s.len() as int) =~= s);
    headers.entries = kept;
}

fn crunch_all(headers: &mut HeaderTable, pats: &Vec<String>)
    ensures
        final(headers)@ == crunched_all(old(headers)@, str_views(pats@)),
{
    let ghost start = headers@;
    let ghost ps = str_views(pats@);
    let mut i: usize = 0;
    assert(ps.take(0) =~= Seq::<Seq<char>>::empty());
    while i < pats.len()
        invariant
            i <= pats@.len(),
            ps == str_views(pats@),
            headers@ == crunched_all(start, ps.take(i as int)),
        decreases pats.len() - i,
    {
        assert(ps.take(i + 1).drop_last() =~= ps.take(i as int));
        assert(ps.take(i + 1).last() == pats@[i as int]@);
        let lower = str_to_lowercase(pats[i].as_str());
        crunch_by(headers, lower.as_str());
        i += 1;
    }
    assert(ps.take(ps.len() as int) =~= ps);
}

/// Removes the client headers whose name contains one of the action's
/// `crunch-client-header` patterns, ignoring case.
pub fn apply_crunch_client_header(headers: &mut HeaderTable, action: &Action)
    ensures
        final(headers)@ == crunched_all(old(headers)@, str_views(action.crunch_client_headers@)),
{
    crunch_all(headers, &action.crunch_client_headers);
}

/// Removes the server headers whose name contains one of the action's
/// `crunch-server-header` patterns, ignoring case.
pub fn apply_crunch_server_header(headers: &mut HeaderTable, action: &Action)
    ensures
        final(headers)@ == crunched_all(old(headers)@, str_views(action.crunch_server_headers@)),
{
    crunch_all(headers, &action.crunch_server_headers);
}

/// Removes `Cookie` where outgoing cookies are crunched.
pub fn apply_crunch_outgoing_cookies(headers: &mut HeaderTable, action: &Action)
    ensures
        final(headers)@ == if action.crunch_outgoing_cookies {
            table_remove(old(headers)@, "Cookie"@)
        } else {
            old(headers)@
        },
{
    if action.crunch_outgoing_cookies {
        headers.remove("Cookie");
    }
}

/// Removes `Set-Cookie` where incoming cookies are crunched.
pub fn apply_crunch_incoming_cookies(headers: &mut HeaderTable, action: &Action)
    ensures
        final(headers)@ == if action.crunch_incoming_cookies {
            table_remove(old(headers)@, "Set-Cookie"@)
        } else {
            old(headers)@
        },
{
    if action.crunch_incoming_cookies {
        headers.remove("Set-Cookie");
    }
}

/// Removes `If-None-Match` where the action says so.
pub fn apply_crunch_if_none_match(headers: &mut HeaderTable, action: &Action)
    ensures
        final(headers)@ == if action.crunch_if_none_match {
            table_remove(old(headers)@, "If-None-Match"@)
        } else {
            old(headers)@
        },
{
    if action.crunch_if_none_match {
        headers.remove("If-None-Match");
    }
}

// ---------------------------------------------------------------------------
// Replacing

/// `block` removes the header `name`; any other mode sets it to the mode.
pub open spec fn blocked_or_set(s: Seq<(Seq<char>, Seq<char>)>, name: Seq<char>, mode: Option<Seq<char>>) -> Seq<(Seq<char>, Seq<char>)> {
    match mode {
        Some(m) => if m == "block"@ {
            table_remove(s, name)
        } else {
            table_insert(s, name, m)
        },
        None => s,
    }
}

fn block_or_set(headers: &mut HeaderTable, name: &str, mode: &Option<String>)
    ensures
        final(headers)@ == blocked_or_set(old(headers)@, name@, opt_view(*mode)),
{
    match mode {
        Some(m) => {
            if str_eq(m.as_str(), "block") {
                headers.remove(name);
            } else {
                headers.insert(name, m.as_str());
            }
        },
        None => {},
    }
}

/// The `hide-from-header` action on `From`.
pub fn apply_hide_from_header(headers: &mut HeaderTable, action: &Action)
    ensures
        final(headers)@ == blocked_or_set(old(headers)@, "From"@, opt_view(action.hide_from_header)),
{
    block_or_set(headers, "From", &action.hide_from_header);
}

/// The `hide-accept-language` action on `Accept-Language`.
pub fn apply_hide_accept_language(headers: &mut HeaderTable, action: &Action)
    ensures
        final(headers)@ == blocked_or_set(
            old(headers)@,
            "Accept-Language"@,
            opt_view(action.hide_accept_language),
        ),
{
    block_or_set(headers, "Accept-Language", &action.hide_accept_language);
}

/// The `hide-content-disposition` action on `Content-Disposition`.
pub fn apply_hide_content_disposition(headers: &mut HeaderTable, action: &Action)
    ensures
        final(headers)@ == blocked_or_set(
            old(headers)@,
            "Content-Disposition"@,
            opt_view(action.hide_content_disposition),
        ),
{
    block_or_set(headers, "Content-Disposition", &action.hide_content_disposition);
}

/// Removes `User-Agent` where the action hides it.
pub fn apply_hide_user_agent(headers: &mut HeaderTable, action: &Action)
    ensures
        final(headers)@ == if action.hide_user_agent is Some {
            table_remove(old(headers)@, "User-Agent"@)
        } else {
            old(headers)@
        },
{
    if action.hide_user_agent.is_some() {
        headers.remove("User-Agent");
    }
}

/// Sets `User-Agent` where the action gives one.
pub fn apply_send_user_agent(headers: &mut HeaderTable, action: &Action)
    ensures
        final(headers)@ == match opt_view(action.send_user_agent) {
            Some(ua) => table_insert(old(headers)@, "User-Agent"@, ua),
            None => old(headers)@,
        },
{
    match &action.send_user_agent {
        Some(ua) => headers.insert("User-Agent", ua.as_str()),
        None => {},
    }
}

/// Sets `Content-Type` where the action overwrites it.
pub fn apply_content_type_overwrite(headers: &mut HeaderTable, action: &Action)
    ensures
        final(headers)@ == match opt_view(action.content_type_overwrite) {
            Some(ct) => table_insert(old(headers)@, "Content-Type"@, ct),
            None => old(headers)@,
        },
{
    match &action.content_type_overwrite {
        Some(ct) => headers.insert("Content-Type", ct.as_str()),
        None => {},
    }
}

/// Makes `Content-Type` plain text where the action forces text mode.
pub fn apply_force_text_mode(headers: &mut HeaderTable, action: &Action)
    ensures
        final(headers)@ == if action.force_text_mode {
            table_insert(old(headers)@, "Content-Type"@, "text/plain"@)
        } else {
            old(headers)@
        },
{
    if action.force_text_mode {
        headers.insert("Content-Type", "text/plain");
    }
}

/// Asks for an uncompressed answer where the action prevents compression.
pub fn apply_prevent_compression(headers: &mut HeaderTable, action: &Action)
    ensures
        final(headers)@ == if action.prevent_compression {
            table_insert(table_remove(old(headers)@, "Accept-Encoding"@), "Accept-Encoding"@, "identity"@)
        } else {
            old(headers)@
        },
{
    if action.prevent_compression {
        headers.remove("Accept-Encoding");
        headers.insert("Accept-Encoding", "identity");
    }
}

/// Sets the protocol version to HTTP/1.0 where the action downgrades it.
pub fn apply_downgrade_http_version(version: &mut String, action: &Action)
    ensures
        final(version)@ == if action.downgrade_http_version {
            "HTTP/1.0"@
        } else {
            old(version)@
        },
{
    if action.downgrade_http_version {
        *version = own("HTTP/1.0");
    }
}

// ---------------------------------------------------------------------------
// Rewriting

/// The first piece of `s` split at `c`.
pub open spec fn first_piece(s: Seq<char>, c: char) -> Seq<char> {
    split_char(s, c)[0]
}

/// The last piece of `s` split at `c`.
pub open spec fn last_piece(s: Seq<char>, c: char) -> Seq<char> {
    split_char(s, c).last()
}

fn pieces_exec(s: &str, c: char) -> (r: Vec<Vec<char>>)
    ensures
        views(r@) == split_char(s@, c),
        r@.len() >= 1,
{
    let v = chars_of(s);
    let r = split_char_exec(v.as_slice(), c);
    proof {
        crate::util::lemma_split_char_nonempty(s@, c);
    }
    r
}

/// `X-Forwarded-For`: `block` removes it; `add` appends the client's
/// address (the part before any `:`), or sets it.
pub open spec fn forwarded_for(s: Seq<(Seq<char>, Seq<char>)>, mode: Option<Seq<char>>, client: Seq<char>) -> Seq<(Seq<char>, Seq<char>)> {
    match mode {
        Some(m) => if m == "block"@ {
            table_remove(s, "X-Forwarded-For"@)
        } else if m == "add"@ {
            let ip = first_piece(client, ':');
            match table_get(s, "X-Forwarded-For"@) {
                Some(e) => table_insert(s, "X-Forwarded-For"@, e + ", "@ + ip),
                None => table_insert(s, "X-Forwarded-For"@, ip),
            }
        } else {
            s
        },
        None => s,
    }
}

/// The `change-x-forwarded-for` action for a client at `client_addr`.
pub fn apply_change_x_forwarded_for(headers: &mut HeaderTable, action: &Action, client_addr: &str)
    ensures
        final(headers)@ == forwarded_for(old(headers)@, opt_view(action.change_x_forwarded_for), client_addr@),
{
    match &action.change_x_forwarded_for {
        Some(mode) => {
            if str_eq(mode.as_str(), "block") {
                headers.remove("X-Forwarded-For");
            } else if str_eq(mode.as_str(), "add") {
                let ps = pieces_exec(client_addr, ':');
                assert(views(ps@)[0] == ps@[0]@);
                let ip = from_chars(ps[0].as_slice());
                match headers.get("X-Forwarded-For") {
                    Some(e) => {
                        let mut v = e;
                        push_str(&mut v, ", ");
                        push_str(&mut v, ip.as_str());
                        headers.insert("X-Forwarded-For", v.as_str());
                    },
                    None => headers.insert("X-Forwarded-For", ip.as_str()),
                }
            }
        },
        None => {},
    }
}

/// `Referer`: `block` and `conditional-block` remove it; `forge` and
/// `conditional-forge` set it to the root of the `Host` (HTTPS on port
/// 443), where there is one; any other value is sent as it is.
pub open spec fn referrer_hidden(s: Seq<(Seq<char>, Seq<char>)>, mode: Option<Seq<char>>) -> Seq<(Seq<char>, Seq<char>)> {
    match mode {
        Some(m) => if m == "conditional-block"@ || m == "block"@ {
            table_remove(s, "Referer"@)
        } else if m == "conditional-forge"@ || m == "forge"@ {
            match table_get(s, "Host"@) {
                Some(host) => {
                    let scheme = if last_piece(host, ':') == "443"@ { "https"@ } else { "http"@ };
                    table_insert(s, "Referer"@, scheme + "://"@ + host + "/"@)
                },
                None => s,
            }
        } else {
            table_insert(s, "Referer"@, m)
        },
        None => s,
    }
}

/// With `hide-referrer` set to `block` or `conditional-block`, the headers
/// afterwards hold no `Referer`, and every other header is kept, in order.
pub proof fn law_hide_referrer_block_removes(s: Seq<(Seq<char>, Seq<char>)>, m: Seq<char>)
    requires
        m == "block"@ || m == "conditional-block"@,
    ensures
        table_get(referrer_hidden(s, Some(m)), "Referer"@) is None,
        referrer_hidden(s, Some(m)) == s.filter(named_other_than("Referer"@)),
{
    let r = referrer_hidden(s, Some(m));
    lemma_table_remove_filters(s, "Referer"@);
    assert forall|i: int| 0 <= i < r.len() implies (#[trigger] r[i]).0 != "Referer"@ by {
        s.lemma_filter_pred(named_other_than("Referer"@), i);
    }
    lemma_key_index_absent(r, "Referer"@);
}

/// The `hide-referrer` action.
pub fn apply_hide_referrer(headers: &mut HeaderTable, action: &Action)
    ensures
        final(headers)@ == referrer_hidden(old(headers)@, opt_view(action.hide_referrer)),
        (action.hide_referrer matches Some(m) && (m@ == "block"@ || m@ == "conditional-block"@))
            ==> table_get(final(headers)@, "Referer"@) is None,
{
    let ghost before = headers@;
    match &action.hide_referrer {
        Some(m) => {
            if str_eq(m.as_str(), "conditional-block") || str_eq(m.as_str(), "block") {
                headers.remove("Referer");
                proof {
                    law_hide_referrer_block_removes(before, m@);
                }
            } else if str_eq(m.as_str(), "conditional-forge") || str_eq(m.as_str(), "forge") {
                match headers.get("Host") {
                    Some(host) => {
                        let ps = pieces_exec(host.as_str(), ':');
                        assert(views(ps@).last() == ps@[ps@.len() - 1]@);
                        let last = from_chars(ps[ps.len() - 1].as_slice());
                        let mut r = if str_eq(last.as_str(), "443") {
                            own("https")
                        } else {
                            own("http")
                        };
                        push_str(&mut r, "://");
                        push_str(&mut r, host.as_str());
                        push_str(&mut r, "/");
                        headers.insert("Referer", r.as_str());
                    },
                    None => {},
                }
            } else {
                headers.insert("Referer", m.as_str());
            }
        },
        None => {},
    }
}

/// Whether a cookie part survives `session-cookies-only`: it names neither
/// `secure` nor `httponly`, ignoring case.
pub open spec fn session_part(p: Seq<char>) -> bool {
    !contains(unicode_lowercase(p), "secure"@) && !contains(unicode_lowercase(p), "httponly"@)
}

pub open spec fn session_parts(ps: Seq<Seq<char>>) -> Seq<Seq<char>>
    decreases ps.len(),
{
    if ps.len() == 0 {
        ps
    } else if session_part(ps.last()) {
        session_parts(ps.drop_last()).push(ps.last())
    } else {
        session_parts(ps.drop_last())
    }
}

/// `Cookie` with the parts that mark persistent cookies left out.
pub open spec fn session_cookies(s: Seq<(Seq<char>, Seq<char>)>, on: bool) -> Seq<(Seq<char>, Seq<char>)> {
    if on {
        match table_get(s, "Cookie"@) {
            Some(c) => table_insert(s, "Cookie"@, crate::cgi::joined(session_parts(split_char(c, ';')), ";"@)),
            None => s,
        }
    } else {
        s
    }
}

/// The `session-cookies-only` action.
pub fn apply_session_cookies_only(headers: &mut HeaderTable, action: &Action)
    ensures
        final(headers)@ == session_cookies(old(headers)@, action.session_cookies_only),
{
    if !action.session_cookies_only {
        return;
    }
    match headers.get("Cookie") {
        Some(c) => {
            let ps = pieces_exec(c.as_str(), ';');
            let ghost pv = views(ps@);
            let mut kept: Vec<String> = Vec::new();
            let mut i: usize = 0;
            assert(pv.take(0) =~= Seq::<Seq<char>>::empty());
            while i < ps.len()
                invariant
                    i <= ps@.len(),
                    pv == views(ps@),
                    str_views(kept@) == session_parts(pv.take(i as int)),
                decreases ps.len() - i,
            {
                assert(pv.take(i + 1).drop_last() =~= pv.take(i as int));
                assert(pv.take(i + 1).last() == ps@[i as int]@);
                let part = from_chars(ps[i].as_slice());
                let lower = str_to_lowercase(part.as_str());
                let lv = chars_of(lower.as_str());
                let secure = chars_of("secure");
                let httponly = chars_of("httponly");
                if !contains_exec(lv.as_slice(), secure.as_slice()) && !contains_exec(lv.as_slice(), httponly.as_slice()) {
                    let ghost before = kept@;
                    kept.push(part);
                    assert(str_views(kept@) =~= str_views(before).push(pv[i as int]));
                }
                i += 1;
            }
            assert(pv.take(pv.len() as int) =~= pv);
            let joined = crate::cgi::join_exec(&kept, ";");
            headers.insert("Cookie", joined.as_str());
        },
        None => {},
    }
}

/// The `Max-Age` attribute the action asks for.
pub open spec fn max_age_attr(secs: u64) -> Seq<char> {
    "Max-Age="@ + decimal(secs as nat)
}

/// The expression that finds a `Max-Age` attribute, ignoring case.
pub open spec fn max_age_pattern() -> Seq<char> {
    "(?i)Max-Age=\\d+"@
}

/// `Set-Cookie` with its lifetime limited: an existing `Max-Age` is
/// replaced, or the attribute is appended.
pub open spec fn cookie_lifetime_limited(s: Seq<(Seq<char>, Seq<char>)>, lifetime: Option<u64>) -> Seq<(Seq<char>, Seq<char>)> {
    match lifetime {
        Some(secs) => match table_get(s, "Set-Cookie"@) {
            Some(c) => if contains(unicode_lowercase(c), "max-age="@) {
                if regex_error(max_age_pattern()) is None {
                    table_insert(s, "Set-Cookie"@, regex_replaced_first(max_age_pattern(), c, max_age_attr(secs)))
                } else {
                    s
                }
            } else {
                table_insert(s, "Set-Cookie"@, c + "; "@ + max_age_attr(secs))
            },
            None => s,
        },
        None => s,
    }
}

/// The `limit-cookie-lifetime` action.
pub fn apply_limit_cookie_lifetime(headers: &mut HeaderTable, action: &Action)
    ensures
        final(headers)@ == cookie_lifetime_limited(old(headers)@, action.limit_cookie_lifetime),
{
    let secs = match action.limit_cookie_lifetime {
        Some(s) => s,
        None => {
            return;
        },
    };
    let cookie = match headers.get("Set-Cookie") {
        Some(c) => c,
        None => {
            return;
        },
    };
    let mut attr = own("Max-Age=");
    push_decimal(&mut attr, secs);
    let lower = str_to_lowercase(cookie.as_str());
    if crate::text::str_contains(lower.as_str(), "max-age=") {
        let pattern = "(?i)Max-Age=\\d+";
        assert(pattern@ == max_age_pattern());
        match regex_check(pattern) {
            Some(_) => {},
            None => {
                let replaced = regex_replace_first(pattern, cookie.as_str(), attr.as_str());
                headers.insert("Set-Cookie", replaced.as_str());
            },
        }
    } else {
        let mut v = cookie;
        push_str(&mut v, "; ");
        push_str(&mut v, attr.as_str());
        headers.insert("Set-Cookie", v.as_str());
    }
}

/// `If-Modified-Since` at the time `now`: `block` removes it, and a
/// number of seconds sets it to that far from `now` (as an HTTP date,
/// where the sum is a valid time).
pub open spec fn if_modified_since_hidden(s: Seq<(Seq<char>, Seq<char>)>, mode: Option<Seq<char>>, now: i64) -> Seq<(Seq<char>, Seq<char>)> {
    match mode {
        Some(m) => if m == "block"@ {
            table_remove(s, "If-Modified-Since"@)
        } else {
            match parse_signed(m, i64::MAX as int) {
                Some(offset) => if i64::MIN <= now + offset <= i64::MAX {
                    match http_date((now + offset) as i64) {
                        Some(d) => table_insert(s, "If-Modified-Since"@, d),
                        None => s,
                    }
                } else {
                    s
                },
                None => s,
            }
        },
        None => s,
    }
}

/// The `hide-if-modified-since` action at the time `now` (seconds since
/// the epoch).
pub fn apply_hide_if_modified_since_at(headers: &mut HeaderTable, action: &Action, now: i64)
    ensures
        final(headers)@ == if_modified_since_hidden(old(headers)@, opt_view(action.hide_if_modified_since), now),
{
    match &action.hide_if_modified_since {
        Some(m) => {
            if str_eq(m.as_str(), "block") {
                headers.remove("If-Modified-Since");
            } else {
                let mv = chars_of(m.as_str());
                match parse_i64(mv.as_slice()) {
                    Some(offset) => {
                        match now.checked_add(offset) {
                            Some(t) => match format_http_date(t) {
                                Some(d) => headers.insert("If-Modified-Since", d.as_str()),
                                None => {},
                            },
                            None => {},
                        }
                    },
                    None => {},
                }
            }
        },
        None => {},
    }
}

/// `Last-Modified` at the time `now`: `block` removes it,
/// `reset-to-request-time` sets it to `now`, and `randomize` to the start
/// of the current day.
pub open spec fn last_modified_overwritten(s: Seq<(Seq<char>, Seq<char>)>, mode: Option<Seq<char>>, now: u64) -> Seq<(Seq<char>, Seq<char>)> {
    match mode {
        Some(m) => if m == "block"@ {
            table_remove(s, "Last-Modified"@)
        } else if m == "reset-to-request-time"@ {
            match http_date(now as i64) {
                Some(d) => table_insert(s, "Last-Modified"@, d),
                None => s,
            }
        } else if m == "randomize"@ {
            match http_date(((now as i64) - ((now % 86400) as i64)) as i64) {
                Some(d) => table_insert(s, "Last-Modified"@, d),
                None => s,
            }
        } else {
            s
        },
        None => s,
    }
}

/// The `overwrite-last-modified` action at the time `now` (seconds since
/// the epoch, below 2^63).
pub fn apply_overwrite_last_modified_at(headers: &mut HeaderTable, action: &Action, now: u64)
    requires
        now <= i64::MAX,
    ensures
        final(headers)@ == last_modified_overwritten(old(headers)@, opt_view(action.overwrite_last_modified), now),
{
    match &action.overwrite_last_modified {
        Some(m) => {
            if str_eq(m.as_str(), "block") {
                headers.remove("Last-Modified");
            } else if str_eq(m.as_str(), "reset-to-request-time") {
                match format_http_date(now as i64) {
                    Some(d) => headers.insert("Last-Modified", d.as_str()),
                    None => {},
                }
            } else if str_eq(m.as_str(), "randomize") {
                let offset = (now % 86400) as i64;
                match format_http_date(now as i64 - offset) {
                    Some(d) => headers.insert("Last-Modified", d.as_str()),
                    None => {},
                }
            }
        },
        None => {},
    }
}

/// The `hide-if-modified-since` action now.
pub fn apply_hide_if_modified_since(headers: &mut HeaderTable, action: &Action)
    ensures
        exists|now: i64| final(headers)@ == if_modified_since_hidden(
            old(headers)@,
            opt_view(action.hide_if_modified_since),
            now,
        ),
{
    let now = crate::bindings::unix_seconds_now();
    let n: i64 = if now <= i64::MAX as u64 { now as i64 } else { i64::MAX };
    apply_hide_if_modified_since_at(headers, action, n);
}

/// The `overwrite-last-modified` action now.
pub fn apply_overwrite_last_modified(headers: &mut HeaderTable, action: &Action)
    ensures
        exists|now: u64| now <= i64::MAX && final(headers)@ == last_modified_overwritten(
            old(headers)@,
            opt_view(action.overwrite_last_modified),
            now,
        ),
{
    let now = crate::bindings::unix_seconds_now();
    let n: u64 = if now <= i64::MAX as u64 { now } else { i64::MAX as u64 };
    apply_overwrite_last_modified_at(headers, action, n);
}

} // verus!
