//! Tags that clients turn on for themselves, by client address, each
//! possibly with a time at which it ends.

use vstd::prelude::*;
use crate::text::{str_eq, own, starts_with, ends_with, str_starts_with, str_ends_with, chars_of,
    slice_chars, from_chars, trim, trim_vec, str_views};
use crate::bindings::unix_seconds_now;

verus! {

/// A tag and the time (seconds since the epoch) at which it ends, if any.
#[derive(Debug, Clone)]
pub struct ClientTag {
    pub name: String,
    pub end_of_life: Option<u64>,
}

/// The tags one client asked for.
#[derive(Debug, Clone)]
pub struct ClientTags {
    pub client: String,
    pub tags: Vec<ClientTag>,
}

pub type TagModel = (Seq<char>, Option<u64>);

pub open spec fn tag_list_view(t: Seq<ClientTag>) -> Seq<TagModel> {
    t.map_values(|x: ClientTag| (x.name@, x.end_of_life))
}

pub open spec fn entries_view(e: Seq<ClientTags>) -> Seq<(Seq<char>, Seq<TagModel>)> {
    e.map_values(|x: ClientTags| (x.client@, tag_list_view(x.tags@)))
}

/// The tags of a client: those of its entry, none without one.
pub open spec fn tags_for(es: Seq<(Seq<char>, Seq<TagModel>)>, c: Seq<char>) -> Seq<TagModel>
    decreases es.len(),
{
    if es.len() == 0 {
        Seq::empty()
    } else if es[0].0 == c {
        es[0].1
    } else {
        tags_for(es.drop_first(), c)
    }
}

pub open spec fn has_name(ts: Seq<TagModel>, t: Seq<char>) -> bool {
    exists|k: int| 0 <= k < ts.len() && (#[trigger] ts[k]).0 == t
}

pub open spec fn has_client(es: Seq<(Seq<char>, Seq<TagModel>)>, c: Seq<char>) -> bool {
    exists|k: int| 0 <= k < es.len() && (#[trigger] es[k]).0 == c
}

/// The entries after a client turned a tag on: its entry gains the tag
/// unless it has it; a client without an entry gets one.
pub open spec fn enabled(es: Seq<(Seq<char>, Seq<TagModel>)>, c: Seq<char>, t: Seq<char>, eol: Option<u64>) -> Seq<(Seq<char>, Seq<TagModel>)> {
    if has_client(es, c) {
        es.map_values(|e: (Seq<char>, Seq<TagModel>)| if e.0 == c && !has_name(e.1, t) {
            (e.0, e.1.push((t, eol)))
        } else {
            e
        })
    } else {
        es.push((c, seq![(t, eol)]))
    }
}

pub open spec fn not_named(t: Seq<char>) -> spec_fn(TagModel) -> bool {
    |x: TagModel| x.0 != t
}

/// A tag list without the tags named `t`.
pub open spec fn without_tag(ts: Seq<TagModel>, t: Seq<char>) -> Seq<TagModel> {
    ts.filter(not_named(t))
}

pub open spec fn disable_upd(c: Seq<char>, t: Seq<char>) -> spec_fn((Seq<char>, Seq<TagModel>)) -> (Seq<char>, Seq<TagModel>) {
    |e: (Seq<char>, Seq<TagModel>)| if e.0 == c {
        (e.0, without_tag(e.1, t))
    } else {
        e
    }
}

pub open spec fn disable_keep(c: Seq<char>) -> spec_fn((Seq<char>, Seq<TagModel>)) -> bool {
    |e: (Seq<char>, Seq<TagModel>)| !(e.0 == c && e.1.len() == 0)
}

/// The entries after a client turned a tag off; an entry left without
/// tags goes.
pub open spec fn disabled(es: Seq<(Seq<char>, Seq<TagModel>)>, c: Seq<char>, t: Seq<char>) -> Seq<(Seq<char>, Seq<TagModel>)> {
    es.map_values(disable_upd(c, t)).filter(disable_keep(c))
}

/// Whether a tag is still alive at `now`.
pub open spec fn alive(x: TagModel, now: u64) -> bool {
    match x.1 {
        Some(end) => end > now,
        None => true,
    }
}

/// The entries after the tags ended by `now` went; entries left without
/// tags go.
pub open spec fn cleaned(es: Seq<(Seq<char>, Seq<TagModel>)>, now: u64) -> Seq<(Seq<char>, Seq<TagModel>)> {
    es.map_values(|e: (Seq<char>, Seq<TagModel>)| (e.0, e.1.filter(|x: TagModel| alive(x, now)))).filter(
        |e: (Seq<char>, Seq<TagModel>)| e.1.len() > 0,
    )
}

/// Whether a tag name matches a pattern: `prefix*`, `*suffix` or the name
/// itself.
pub open spec fn tag_pattern_match(name: Seq<char>, pattern: Seq<char>) -> bool {
    if ends_with(pattern, "*"@) {
        starts_with(name, pattern.subrange(0, pattern.len() - 1))
    } else if starts_with(pattern, "*"@) {
        ends_with(name, pattern.subrange(1, pattern.len() as int))
    } else {
        name == pattern
    }
}

/// The client-specific tags of all clients.
#[derive(Debug)]
pub struct ClientTagManager {
    clients: Vec<ClientTags>,
}

impl View for ClientTagManager {
    type V = Seq<(Seq<char>, Seq<TagModel>)>;

    closed spec fn view(&self) -> Seq<(Seq<char>, Seq<TagModel>)> {
        entries_view(self.clients@)
    }
}

fn copy_tags(v: &Vec<ClientTag>) -> (r: Vec<ClientTag>)
    ensures
        tag_list_view(r@) == tag_list_view(v@),
{
    let mut r: Vec<ClientTag> = Vec::new();
    let mut i: usize = 0;
    while i < v.len()
        invariant
            i <= v.len(),
            tag_list_view(r@) == tag_list_view(v@).take(i as int),
        decreases v.len() - i,
    {
        let ghost before = r@;
        r.push(ClientTag { name: v[i].name.clone(), end_of_life: v[i].end_of_life });
        assert(tag_list_view(r@) =~= tag_list_view(before).push((v@[i as int].name@, v@[i as int].end_of_life)));
        assert(tag_list_view(v@).take(i as int + 1) =~= tag_list_view(v@).take(i as int).push((v@[i as int].name@, v@[i as int].end_of_life)));
        i += 1;
    }
    assert(tag_list_view(v@).take(i as int) =~= tag_list_view(v@));
    r
}

fn has_name_exec(v: &Vec<ClientTag>, t: &str) -> (r: bool)
    ensures
        r == has_name(tag_list_view(v@), t@),
{
    let mut i: usize = 0;
    while i < v.len()
        invariant
            i <= v.len(),
            forall|k: int| 0 <= k < i ==> (#[trigger] tag_list_view(v@)[k]).0 != t@,
        decreases v.len() - i,
    {
        if str_eq(v[i].name.as_str(), t) {
            assert(tag_list_view(v@)[i as int].0 == t@);
            return true;
        }
        i += 1;
    }
    false
}

fn filter_tags(v: &Vec<ClientTag>, t: &str) -> (r: Vec<ClientTag>)
    ensures
        tag_list_view(r@) == without_tag(tag_list_view(v@), t@),
{
    let ghost tv = tag_list_view(v@);
    let ghost f = not_named(t@);
    let mut r: Vec<ClientTag> = Vec::new();
    let mut i: usize = 0;
    assert(tv.take(0) =~= Seq::<TagModel>::empty());
    assert(tag_list_view(r@) =~= Seq::<TagModel>::empty());
    while i < v.len()
        invariant
            i <= v.len(),
            tv == tag_list_view(v@),
            f == not_named(t@),
            tag_list_view(r@) == tv.take(i as int).filter(f),
        decreases v.len() - i,
    {
        proof {
            tv.take(i as int).lemma_filter_push(tv[i as int], f);
            assert(tv.take(i as int).push(tv[i as int]) =~= tv.take(i as int + 1));
        }
        if !str_eq(v[i].name.as_str(), t) {
            let ghost before = r@;
            r.push(ClientTag { name: v[i].name.clone(), end_of_life: v[i].end_of_life });
            assert(tag_list_view(r@) =~= tag_list_view(before).push(tv[i as int]));
        }
        i += 1;
    }
    assert(tv.take(i as int) =~= tv);
    r
}

fn alive_tags(v: &Vec<ClientTag>, now: u64) -> (r: Vec<ClientTag>)
    ensures
        tag_list_view(r@) == tag_list_view(v@).filter(|x: TagModel| alive(x, now)),
{
    let ghost tv = tag_list_view(v@);
    let ghost f = |x: TagModel| alive(x, now);
    let mut r: Vec<ClientTag> = Vec::new();
    let mut i: usize = 0;
    assert(tv.take(0) =~= Seq::<TagModel>::empty());
    assert(tag_list_view(r@) =~= Seq::<TagModel>::empty());
    while i < v.len()
        invariant
            i <= v.len(),
            tv == tag_list_view(v@),
            f == (|x: TagModel| alive(x, now)),
            tag_list_view(r@) == tv.take(i as int).filter(f),
        decreases v.len() - i,
    {
        proof {
            tv.take(i as int).lemma_filter_push(tv[i as int], f);
            assert(tv.take(i as int).push(tv[i as int]) =~= tv.take(i as int + 1));
        }
        let keep = match v[i].end_of_life {
            Some(end) => end > now,
            None => true,
        };
        if keep {
            let ghost before = r@;
            r.push(ClientTag { name: v[i].name.clone(), end_of_life: v[i].end_of_life });
            assert(tag_list_view(r@) =~= tag_list_view(before).push(tv[i as int]));
        }
        i += 1;
    }
    assert(tv.take(i as int) =~= tv);
    r
}

impl ClientTagManager {
    pub fn new() -> (r: Self)
        ensures
            r@ == Seq::<(Seq<char>, Seq<TagModel>)>::empty(),
    {
        let r = ClientTagManager { clients: Vec::new() };
        assert(entries_view(r.clients@) =~= Seq::<(Seq<char>, Seq<TagModel>)>::empty());
        r
    }

    /// The tags of a client.
    pub fn get_tags_for_client(&self, client_address: &str) -> (r: Vec<ClientTag>)
        ensures
            tag_list_view(r@) == tags_for(self@, client_address@),
    {
        let ghost es = self@;
        let mut i: usize = 0;
        assert(es.skip(0) =~= es);
        while i < self.clients.len()
            invariant
                i <= self.clients.len(),
                es == entries_view(self.clients@),
                tags_for(es, client_address@) == tags_for(es.skip(i as int), client_address@),
            decreases self.clients.len() - i,
        {
            assert(es.skip(i as int)[0] == es[i as int]);
            assert(es.skip(i as int).drop_first() =~= es.skip(i as int + 1));
            if str_eq(self.clients[i].client.as_str(), client_address) {
                return copy_tags(&self.clients[i].tags);
            }
            i += 1;
        }
        let r: Vec<ClientTag> = Vec::new();
        assert(tag_list_view(r@) =~= Seq::<TagModel>::empty());
        r
    }

    /// Whether a client has turned a tag on.
    pub fn client_has_requested_tag(&self, client_address: &str, tag: &str) -> (r: bool)
        ensures
            r == has_name(tags_for(self@, client_address@), tag@),
    {
        let tags = self.get_tags_for_client(client_address);
        has_name_exec(&tags, tag)
    }

    /// Turns a tag on for a client (ending at `end_of_life`, if given).
    pub fn enable_client_tag(&mut self, client_address: &str, tag_name: &str, end_of_life: Option<u64>)
        ensures
            final(self)@ == enabled(old(self)@, client_address@, tag_name@, end_of_life),
    {
        let ghost es = self@;
        let ghost upd = |e: (Seq<char>, Seq<TagModel>)| if e.0 == client_address@ && !has_name(e.1, tag_name@) {
            (e.0, e.1.push((tag_name@, end_of_life)))
        } else {
            e
        };
        let mut found = false;
        let mut i: usize = 0;
        while i < self.clients.len()
            invariant
                i <= self.clients.len(),
                self.clients@.len() == es.len(),
                es == old(self)@,
                upd == (|e: (Seq<char>, Seq<TagModel>)| if e.0 == client_address@ && !has_name(e.1, tag_name@) {
                    (e.0, e.1.push((tag_name@, end_of_life)))
                } else {
                    e
                }),
                forall|k: int| 0 <= k < i ==> #[trigger] entries_view(self.clients@)[k] == upd(es[k]),
                forall|k: int| i <= k < es.len() ==> #[trigger] entries_view(self.clients@)[k] == es[k],
                found == exists|k: int| 0 <= k < i && (#[trigger] es[k]).0 == client_address@,
            decreases self.clients.len() - i,
        {
            let ghost prev = self.clients@;
            assert(entries_view(prev)[i as int] == es[i as int]);
            if str_eq(self.clients[i].client.as_str(), client_address) {
                assert(es[i as int].0 == client_address@);
                found = true;
                if !has_name_exec(&self.clients[i].tags, tag_name) {
                    let mut entry = ClientTags { client: self.clients[i].client.clone(), tags: copy_tags(&self.clients[i].tags) };
                    let ghost tb = entry.tags@;
                    entry.tags.push(ClientTag { name: own(tag_name), end_of_life });
                    assert(tag_list_view(entry.tags@) =~= tag_list_view(tb).push((tag_name@, end_of_life)));
                    self.clients.set(i, entry);
                    assert(entries_view(self.clients@) =~= entries_view(prev).update(i as int, upd(es[i as int])));
                } else {
                    assert(upd(es[i as int]) == es[i as int]);
                }
            } else {
                assert(upd(es[i as int]) == es[i as int]);
            }
            i += 1;
        }
        if !found {
            let ghost before = self.clients@;
            let mut tags: Vec<ClientTag> = Vec::new();
            tags.push(ClientTag { name: own(tag_name), end_of_life });
            assert(tag_list_view(tags@) =~= seq![(tag_name@, end_of_life)]);
            self.clients.push(ClientTags { client: own(client_address), tags });
            assert(entries_view(self.clients@) =~= entries_view(before).push((client_address@, seq![(tag_name@, end_of_life)])));
            assert(entries_view(before) =~= es);
        } else {
            assert(entries_view(self.clients@) =~= es.map_values(upd));
        }
    }

    /// Turns a tag off for a client; a client left without tags is forgotten.
    pub fn disable_client_tag(&mut self, client_address: &str, tag_name: &str)
        ensures
            final(self)@ == disabled(old(self)@, client_address@, tag_name@),
    {
        let ghost es = self@;
        let ghost upd = disable_upd(client_address@, tag_name@);
        let ghost keep = disable_keep(client_address@);
        let ghost mapped = es.map_values(upd);
        let mut kept: Vec<ClientTags> = Vec::new();
        let mut i: usize = 0;
        assert(mapped.take(0) =~= Seq::<(Seq<char>, Seq<TagModel>)>::empty());
        assert(entries_view(kept@) =~= Seq::<(Seq<char>, Seq<TagModel>)>::empty());
        while i < self.clients.len()
            invariant
                i <= self.clients.len(),
                es == entries_view(self.clients@),
                mapped == es.map_values(upd),
                upd == disable_upd(client_address@, tag_name@),
                keep == disable_keep(client_address@),
                entries_view(kept@) == mapped.take(i as int).filter(keep),
            decreases self.clients.len() - i,
        {
            proof {
                mapped.take(i as int).lemma_filter_push(mapped[i as int], keep);
                assert(mapped.take(i as int).push(mapped[i as int]) =~= mapped.take(i as int + 1));
            }
            let ghost before = kept@;
            if str_eq(self.clients[i].client.as_str(), client_address) {
                let tags = filter_tags(&self.clients[i].tags, tag_name);
                if tags.len() > 0 {
                    kept.push(ClientTags { client: self.clients[i].client.clone(), tags });
                    assert(entries_view(kept@) =~= entries_view(before).push(mapped[i as int]));
                }
            } else {
                kept.push(ClientTags { client: self.clients[i].client.clone(), tags: copy_tags(&self.clients[i].tags) });
                assert(entries_view(kept@) =~= entries_view(before).push(mapped[i as int]));
            }
            i += 1;
        }
        assert(mapped.take(i as int) =~= mapped);
        self.clients = kept;
    }

    /// Whether one of a client's tags matches a pattern (see
    /// `tag_pattern_match`).
    pub fn client_tag_match(&self, client_address: &str, pattern: &str) -> (r: bool)
        ensures
            r == exists|k: int|
                0 <= k < tags_for(self@, client_address@).len() && tag_pattern_match(
                    (#[trigger] tags_for(self@, client_address@)[k]).0,
                    pattern@,
                ),
    {
        let tags = self.get_tags_for_client(client_address);
        let ghost tv = tag_list_view(tags@);
        let pv = chars_of(pattern);
        proof {
            reveal_strlit("*");
        }
        let mut i: usize = 0;
        while i < tags.len()
            invariant
                i <= tags.len(),
                tv == tag_list_view(tags@),
                tv == tags_for(self@, client_address@),
                pv@ == pattern@,
                forall|k: int| 0 <= k < i ==> !tag_pattern_match((#[trigger] tv[k]).0, pattern@),
            decreases tags.len() - i,
        {
            proof {
                reveal_strlit("*");
            }
            let name = tags[i].name.as_str();
            let m = if str_ends_with(pattern, "*") {
                let prefix = from_chars(&slice_chars(&pv, 0, pv.len() - 1));
                str_starts_with(name, prefix.as_str())
            } else if str_starts_with(pattern, "*") {
                let suffix = from_chars(&slice_chars(&pv, 1, pv.len()));
                str_ends_with(name, suffix.as_str())
            } else {
                str_eq(name, pattern)
            };
            if m {
                assert(tag_pattern_match(tv[i as int].0, pattern@));
                return true;
            }
            i += 1;
        }
        false
    }

    /// Turns on, for a client, each tag named by an `X-Client-Tag:` header.
    pub fn set_client_address(&mut self, client_address: &str, headers: &[String])
        ensures
            final(self)@ == header_tags_enabled(old(self)@, client_address@, str_views(headers@)),
    {
        let ghost hs = str_views(headers@);
        let ghost start = self@;
        let mut i: usize = 0;
        proof {
            reveal_strlit("X-Client-Tag:");
        }
        assert(hs.take(0) =~= Seq::<Seq<char>>::empty());
        while i < headers.len()
            invariant
                i <= headers.len(),
                hs == str_views(headers@),
                self@ == header_tags_enabled(start, client_address@, hs.take(i as int)),
            decreases headers.len() - i,
        {
            proof {
                assert(hs.take(i as int + 1).drop_last() =~= hs.take(i as int));
                assert(hs.take(i as int + 1).last() == headers@[i as int]@);
            }
            proof {
                reveal_strlit("X-Client-Tag:");
            }
            if str_starts_with(headers[i].as_str(), "X-Client-Tag:") {
                let v = chars_of(headers[i].as_str());
                let name = from_chars(&trim_vec(&slice_chars(&v, 13, v.len())));
                self.enable_client_tag(client_address, name.as_str(), None);
            }
            i += 1;
        }
        assert(hs.take(i as int) =~= hs);
    }

    /// Forgets the tags that ended by the current time, and the clients
    /// left without tags.  What remains depends on the clock.
    pub fn cleanup_expired_tags(&mut self)
        ensures
            exists|now: u64| final(self)@ == cleaned(old(self)@, now),
    {
        let now = unix_seconds_now();
        self.cleanup_expired_tags_at(now);
    }

    /// Forgets the tags that ended by `now`, and the clients left without tags.
    pub fn cleanup_expired_tags_at(&mut self, now: u64)
        ensures
            final(self)@ == cleaned(old(self)@, now),
    {
        let ghost es = self@;
        let ghost f = |e: (Seq<char>, Seq<TagModel>)| (e.0, e.1.filter(|x: TagModel| alive(x, now)));
        let ghost keep = |e: (Seq<char>, Seq<TagModel>)| e.1.len() > 0;
        let ghost mapped = es.map_values(f);
        let mut kept: Vec<ClientTags> = Vec::new();
        let mut i: usize = 0;
        assert(mapped.take(0) =~= Seq::<(Seq<char>, Seq<TagModel>)>::empty());
        assert(entries_view(kept@) =~= Seq::<(Seq<char>, Seq<TagModel>)>::empty());
        while i < self.clients.len()
            invariant
                i <= self.clients.len(),
                es == entries_view(self.clients@),
                f == (|e: (Seq<char>, Seq<TagModel>)| (e.0, e.1.filter(|x: TagModel| alive(x, now)))),
                keep == (|e: (Seq<char>, Seq<TagModel>)| e.1.len() > 0),
                mapped == es.map_values(f),
                entries_view(kept@) == mapped.take(i as int).filter(keep),
            decreases self.clients.len() - i,
        {
            proof {
                mapped.take(i as int).lemma_filter_push(mapped[i as int], keep);
                assert(mapped.take(i as int).push(mapped[i as int]) =~= mapped.take(i as int + 1));
            }
            let ghost before = kept@;
            let tags = alive_tags(&self.clients[i].tags, now);
            if tags.len() > 0 {
                kept.push(ClientTags { client: self.clients[i].client.clone(), tags });
                assert(entries_view(kept@) =~= entries_view(before).push(mapped[i as int]));
            }
            i += 1;
        }
        assert(mapped.take(i as int) =~= mapped);
        self.clients = kept;
    }

    /// How many clients have tags.
    pub fn get_client_count(&self) -> (r: usize)
        ensures
            r == self@.len(),
    {
        self.clients.len()
    }

    /// The addresses of the clients that have tags.
    pub fn get_all_clients(&self) -> (r: Vec<String>)
        ensures
            str_views(r@) == self@.map_values(|e: (Seq<char>, Seq<TagModel>)| e.0),
    {
        let mut r: Vec<String> = Vec::new();
        let mut i: usize = 0;
        while i < self.clients.len()
            invariant
                i <= self.clients.len(),
                str_views(r@) == self@.map_values(|e: (Seq<char>, Seq<TagModel>)| e.0).take(i as int),
            decreases self.clients.len() - i,
        {
            let ghost before = r@;
            r.push(self.clients[i].client.clone());
            assert(str_views(r@) =~= str_views(before).push(self.clients@[i as int].client@));
            assert(self@.map_values(|e: (Seq<char>, Seq<TagModel>)| e.0).take(i as int + 1) =~= self@.map_values(|e: (Seq<char>, Seq<TagModel>)| e.0).take(i as int).push(self.clients@[i as int].client@));
            i += 1;
        }
        assert(self@.map_values(|e: (Seq<char>, Seq<TagModel>)| e.0).take(i as int) =~= self@.map_values(|e: (Seq<char>, Seq<TagModel>)| e.0));
        r
    }

    /// Forgets all tags.
    pub fn clear_all(&mut self)
        ensures
            final(self)@ == Seq::<(Seq<char>, Seq<TagModel>)>::empty(),
    {
        self.clients = Vec::new();
        assert(entries_view(self.clients@) =~= Seq::<(Seq<char>, Seq<TagModel>)>::empty());
    }
}

/// The entries after each `X-Client-Tag:` header turned its tag on.
pub open spec fn header_tags_enabled(es: Seq<(Seq<char>, Seq<TagModel>)>, c: Seq<char>, hs: Seq<Seq<char>>) -> Seq<(Seq<char>, Seq<TagModel>)>
    decreases hs.len(),
{
    if hs.len() == 0 {
        es
    } else {
        let prev = header_tags_enabled(es, c, hs.drop_last());
        let h = hs.last();
        if starts_with(h, "X-Client-Tag:"@) {
            enabled(prev, c, trim(h.subrange(13, h.len() as int)), None)
        } else {
            prev
        }
    }
}

proof fn lemma_tags_for_index(es: Seq<(Seq<char>, Seq<TagModel>)>, c: Seq<char>, i: int)
    requires
        0 <= i < es.len(),
        es[i].0 == c,
        forall|k: int| 0 <= k < i ==> (#[trigger] es[k]).0 != c,
    ensures
        tags_for(es, c) == es[i].1,
    decreases i,
{
    if i > 0 {
        let t = es.drop_first();
        assert forall|k: int| 0 <= k < i - 1 implies (#[trigger] t[k]).0 != c by {
            assert(t[k] == es[k + 1]);
        }
        lemma_tags_for_index(t, c, i - 1);
    }
}

proof fn lemma_tags_for_none(es: Seq<(Seq<char>, Seq<TagModel>)>, c: Seq<char>)
    requires
        forall|k: int| 0 <= k < es.len() ==> (#[trigger] es[k]).0 != c,
    ensures
        tags_for(es, c) == Seq::<TagModel>::empty(),
    decreases es.len(),
{
    if es.len() > 0 {
        let t = es.drop_first();
        assert forall|k: int| 0 <= k < t.len() implies (#[trigger] t[k]).0 != c by {
            assert(t[k] == es[k + 1]);
        }
        lemma_tags_for_none(t, c);
    }
}

/// The first entry of a client, where it has one.
proof fn lemma_first_index(es: Seq<(Seq<char>, Seq<TagModel>)>, c: Seq<char>) -> (i: int)
    requires
        has_client(es, c),
    ensures
        0 <= i < es.len(),
        es[i].0 == c,
        forall|k: int| 0 <= k < i ==> (#[trigger] es[k]).0 != c,
    decreases es.len(),
{
    if es[0].0 == c {
        0
    } else {
        let t = es.drop_first();
        let w = choose|k: int| 0 <= k < es.len() && (#[trigger] es[k]).0 == c;
        assert(t[w - 1] == es[w]);
        assert(has_client(t, c));
        let j = lemma_first_index(t, c);
        assert forall|k: int| 0 <= k < j + 1 implies (#[trigger] es[k]).0 != c by {
            if k > 0 {
                assert(es[k] == t[k - 1]);
            }
        }
        j + 1
    }
}

/// After a client turns a tag on, the client has it.
pub proof fn law_enable_then_requested(es: Seq<(Seq<char>, Seq<TagModel>)>, c: Seq<char>, t: Seq<char>, eol: Option<u64>)
    ensures
        has_name(tags_for(enabled(es, c, t, eol), c), t),
{
    let e2 = enabled(es, c, t, eol);
    if has_client(es, c) {
        let i = lemma_first_index(es, c);
        assert forall|k: int| 0 <= k < i implies (#[trigger] e2[k]).0 != c by {
            assert(es[k].0 != c);
        }
        lemma_tags_for_index(e2, c, i);
        let ts = e2[i].1;
        if has_name(es[i].1, t) {
            let w = choose|k: int| 0 <= k < es[i].1.len() && (#[trigger] es[i].1[k]).0 == t;
            assert(ts[w].0 == t);
        } else {
            assert(ts[ts.len() - 1].0 == t);
        }
    } else {
        assert forall|k: int| 0 <= k < es.len() implies (#[trigger] e2[k]).0 != c by {
            assert(e2[k] == es[k]);
        }
        lemma_tags_for_index(e2, c, es.len() as int);
        assert(e2[es.len() as int].1[0].0 == t);
    }
}

proof fn lemma_tags_for_all(es: Seq<(Seq<char>, Seq<TagModel>)>, c: Seq<char>, t: Seq<char>)
    requires
        forall|k: int| 0 <= k < es.len() && (#[trigger] es[k]).0 == c ==> !has_name(es[k].1, t),
    ensures
        !has_name(tags_for(es, c), t),
    decreases es.len(),
{
    if es.len() > 0 && es[0].0 != c {
        let r = es.drop_first();
        assert forall|k: int| 0 <= k < r.len() && (#[trigger] r[k]).0 == c implies !has_name(r[k].1, t) by {
            assert(r[k] == es[k + 1]);
        }
        lemma_tags_for_all(r, c, t);
    }
}

proof fn lemma_filter_keeps_all(
    s: Seq<(Seq<char>, Seq<TagModel>)>,
    p: spec_fn((Seq<char>, Seq<TagModel>)) -> bool,
    c: Seq<char>,
    t: Seq<char>,
)
    requires
        forall|k: int| 0 <= k < s.len() && (#[trigger] s[k]).0 == c ==> !has_name(s[k].1, t),
    ensures
        forall|k: int|
            0 <= k < s.filter(p).len() && (#[trigger] s.filter(p)[k]).0 == c ==> !has_name(
                s.filter(p)[k].1,
                t,
            ),
    decreases s.len(),
{
    reveal(Seq::filter);
    if s.len() > 0 {
        let d = s.drop_last();
        assert forall|k: int| 0 <= k < d.len() && (#[trigger] d[k]).0 == c implies !has_name(d[k].1, t) by {
            assert(d[k] == s[k]);
        }
        lemma_filter_keeps_all(d, p, c, t);
        let fd = d.filter(p);
        let fs = s.filter(p);
        assert(fs == if p(s.last()) { fd.push(s.last()) } else { fd });
        assert forall|k: int| 0 <= k < fs.len() && (#[trigger] fs[k]).0 == c implies !has_name(fs[k].1, t) by {
            if k < fd.len() {
                assert(fs[k] == fd[k]);
            } else {
                assert(fs[k] == s[s.len() - 1]);
            }
        }
    }
}

/// After a client turns a tag off, the client no longer has it.
pub proof fn law_disable_then_not_requested(es: Seq<(Seq<char>, Seq<TagModel>)>, c: Seq<char>, t: Seq<char>)
    ensures
        !has_name(tags_for(disabled(es, c, t), c), t),
{
    let upd = disable_upd(c, t);
    let keep = disable_keep(c);
    let m = es.map_values(upd);
    assert forall|k: int| 0 <= k < m.len() && (#[trigger] m[k]).0 == c implies !has_name(m[k].1, t) by {
        let f = not_named(t);
        let w = m[k].1;
        assert(m[k] == upd(es[k]));
        assert(w == es[k].1.filter(f));
        if has_name(w, t) {
            let j = choose|j: int| 0 <= j < w.len() && (#[trigger] w[j]).0 == t;
            es[k].1.lemma_filter_pred(f, j);
        }
    }
    lemma_filter_keeps_all(m, keep, c, t);
    assert(disabled(es, c, t) == m.filter(keep));
    lemma_tags_for_all(m.filter(keep), c, t);
}

} // verus!
