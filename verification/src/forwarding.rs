//! Choosing a forwarder for a host, and the access decision over the
//! configured permit and deny lists.

use vstd::prelude::*;
use crate::text::{
    strip_trailing, ends_with, has_char, replace, replace_exec, push_chars, str_eq, chars_of,
    ends_with_exec, slice_chars, seq_eq, has_char_exec,
};
use crate::bindings::{regex_error, regex_matches, regex_check, regex_is_match};
use crate::config::{Config, ForwardSpec, ForwardSpecModel, FileModification, forward_view};

verus! {

/// The anchored expression that a wildcard host pattern stands for: dots are
/// literal and `*` matches any text.
pub open spec fn wildcard_regex(p: Seq<char>) -> Seq<char> {
    "^"@ + replace(replace(p, "."@, "\\."@), "*"@, ".*"@) + "$"@
}

/// Whether `host` is covered by the forwarding pattern `pattern`: `.`
/// covers every host, `.domain` covers the domain and its subdomains, and a
/// pattern with `*` is read as a wildcard.  A trailing `/` is ignored.
pub open spec fn host_matches_pattern(host: Seq<char>, pattern: Seq<char>) -> bool {
    if pattern == "."@ {
        true
    } else {
        let p = strip_trailing(pattern, '/');
        if p.len() > 0 && p[0] == '.' {
            ends_with(host, p) || host == p.subrange(1, p.len() as int)
        } else if host == p {
            true
        } else if has_char(p, '*') {
            regex_error(wildcard_regex(p)) is None && regex_matches(wildcard_regex(p), host)
        } else {
            false
        }
    }
}

fn wildcard_regex_exec(p: &[char]) -> (r: String)
    ensures
        r@ == wildcard_regex(p@),
{
    let dot: Vec<char> = vec!['.'];
    let esc: Vec<char> = vec!['\\', '.'];
    let star: Vec<char> = vec!['*'];
    let any: Vec<char> = vec!['.', '*'];
    let a = replace_exec(p, dot.as_slice(), esc.as_slice());
    let b = replace_exec(a.as_slice(), star.as_slice(), any.as_slice());
    let mut r = String::new();
    r.push('^');
    push_chars(&mut r, b.as_slice());
    r.push('$');
    proof {
        reveal_strlit("^");
        reveal_strlit("$");
        reveal_strlit(".");
        reveal_strlit("\\.");
        reveal_strlit("*");
        reveal_strlit(".*");
        assert(dot@ =~= "."@);
        assert(esc@ =~= "\\."@);
        assert(star@ =~= "*"@);
        assert(any@ =~= ".*"@);
        assert(r@ =~= wildcard_regex(p@));
    }
    r
}

/// Whether the forwarding pattern `pattern` covers `host`.
pub fn matches_host_pattern(host: &str, pattern: &str) -> (r: bool)
    ensures
        r == host_matches_pattern(host@, pattern@),
{
    if str_eq(pattern, ".") {
        proof {
            reveal_strlit(".");
        }
        return true;
    }
    proof {
        reveal_strlit(".");
    }
    let pv = chars_of(pattern);
    let p = crate::util::strip_trailing_exec(pv.as_slice(), '/');
    let hv = chars_of(host);
    if p.len() > 0 && p[0] == '.' {
        if ends_with_exec(hv.as_slice(), p.as_slice()) {
            return true;
        }
        let rest = slice_chars(p.as_slice(), 1, p.len());
        return seq_eq(hv.as_slice(), rest.as_slice());
    }
    if seq_eq(hv.as_slice(), p.as_slice()) {
        return true;
    }
    if has_char_exec(p.as_slice(), '*') {
        let re = wildcard_regex_exec(p.as_slice());
        match regex_check(re.as_str()) {
            Some(_) => false,
            None => regex_is_match(re.as_str(), host),
        }
    } else {
        false
    }
}

/// The index of the first forwarder whose pattern covers `host`.
pub open spec fn first_forwarder(specs: Seq<ForwardSpecModel>, host: Seq<char>) -> Option<int>
    decreases specs.len(),
{
    if specs.len() == 0 {
        None
    } else if host_matches_pattern(host, specs[0].pattern) {
        Some(0)
    } else {
        match first_forwarder(specs.drop_first(), host) {
            Some(i) => Some(i + 1),
            None => None,
        }
    }
}

/// Whether the access lists admit a client, given for each deny and each
/// permit pattern whether it matches the client: a matching deny pattern
/// refuses, an empty permit list admits, and otherwise a permit pattern must
/// match.
pub open spec fn access_admits(deny_hits: Seq<bool>, permit_hits: Seq<bool>) -> bool {
    !deny_hits.contains(true) && (permit_hits.len() == 0 || permit_hits.contains(true))
}

impl FileModification {
    /// Whether the file changed since it was read, given its modification
    /// time now (`None` where it can no longer be read, which counts as a
    /// change).
    pub fn has_been_modified(&self, current_millis: Option<u128>) -> (r: bool)
        ensures
            r == match current_millis {
                Some(t) => t != self.modified_millis,
                None => true,
            },
    {
        match current_millis {
            Some(t) => t != self.modified_millis,
            None => true,
        }
    }
}

impl Config {
    /// Asks for the configuration to be read again.
    pub fn request_reload(&mut self)
        ensures
            final(self).reload_requested,
            final(self).listen_addresses == old(self).listen_addresses,
            final(self).forward_specs == old(self).forward_specs,
            final(self).url_actions == old(self).url_actions,
    {
        self.reload_requested = true;
    }

    /// Whether the configuration must be read again: on request, or where
    /// one of the files it was read from changed (`files_changed`).
    pub fn needs_reload(&self, files_changed: bool) -> (r: bool)
        ensures
            r == (self.reload_requested || files_changed),
    {
        self.reload_requested || files_changed
    }

    /// The first forwarding rule whose pattern covers `host`.
    pub fn get_forward_spec(&self, host: &str, _port: u16) -> (r: Option<&ForwardSpec>)
        ensures
            match first_forwarder(forward_view(self.forward_specs@), host@) {
                Some(i) => r matches Some(f) && 0 <= i < self.forward_specs@.len() && *f
                    == self.forward_specs@[i],
                None => r is None,
            },
    {
        let mut i: usize = 0;
        assert(forward_view(self.forward_specs@).subrange(0, self.forward_specs@.len() as int)
            =~= forward_view(self.forward_specs@));
        while i < self.forward_specs.len()
            invariant
                i <= self.forward_specs@.len(),
                first_forwarder(forward_view(self.forward_specs@), host@) == match first_forwarder(
                    forward_view(self.forward_specs@).subrange(i as int, self.forward_specs@.len() as int),
                    host@,
                ) {
                    Some(j) => Some(j + i),
                    None => None,
                },
            decreases self.forward_specs.len() - i,
        {
            let ghost rest = forward_view(self.forward_specs@).subrange(
                i as int,
                self.forward_specs@.len() as int,
            );
            assert(rest[0] == self.forward_specs@[i as int]@);
            if matches_host_pattern(host, self.forward_specs[i].pattern.as_str()) {
                return Some(&self.forward_specs[i]);
            }
            assert(rest.drop_first() =~= forward_view(self.forward_specs@).subrange(
                i + 1,
                self.forward_specs@.len() as int,
            ));
            i += 1;
        }
        assert(forward_view(self.forward_specs@).subrange(
            i as int,
            self.forward_specs@.len() as int,
        ).len() == 0);
        None
    }

    /// The access decision for a client, given whether each of the
    /// configured deny and permit patterns matches it (in the order of
    /// `deny_access` and `permit_access`).
    pub fn access_allowed_given(&self, deny_hits: &[bool], permit_hits: &[bool]) -> (r: bool)
        requires
            deny_hits@.len() == self.deny_access@.len(),
            permit_hits@.len() == self.permit_access@.len(),
        ensures
            r == access_admits(deny_hits@, permit_hits@),
    {
        let mut i: usize = 0;
        while i < deny_hits.len()
            invariant
                i <= deny_hits@.len(),
                forall|k: int| 0 <= k < i ==> !deny_hits@[k],
            decreases deny_hits.len() - i,
        {
            if deny_hits[i] {
                assert(deny_hits@[i as int] == true);
                return false;
            }
            i += 1;
        }
        assert(!deny_hits@.contains(true));
        if permit_hits.len() == 0 {
            return true;
        }
        let mut j: usize = 0;
        while j < permit_hits.len()
            invariant
                j <= permit_hits@.len(),
                !deny_hits@.contains(true),
                forall|k: int| 0 <= k < j ==> !permit_hits@[k],
            decreases permit_hits.len() - j,
        {
            if permit_hits[j] {
                assert(permit_hits@[j as int] == true);
                assert(permit_hits@.contains(true));
                return true;
            }
            j += 1;
        }
        assert(!permit_hits@.contains(true));
        false
    }
}

} // verus!
