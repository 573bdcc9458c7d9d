//! Counters and per-connection state.

use vstd::prelude::*;
use std::collections::HashMap;
use crate::text::{str_eq, str_views, own};
use crate::http::HttpRequest;
use crate::config::{Action, ForwardSpec};

verus! {

/// Counts of what the proxy has handled.  Each counter wraps around at
/// its maximum.
#[derive(Debug, Clone, Copy)]
pub struct Statistics {
    pub urls_read: u64,
    pub urls_rejected: u64,
    pub requests_received: u64,
    pub requests_blocked: u64,
}

impl Default for Statistics {
    fn default() -> (r: Self)
        ensures
            r.urls_read == 0 && r.urls_rejected == 0 && r.requests_received == 0
                && r.requests_blocked == 0,
    {
        Statistics { urls_read: 0, urls_rejected: 0, requests_received: 0, requests_blocked: 0 }
    }
}

impl Statistics {
    pub fn increment_urls_read(&mut self)
        ensures
            final(self).urls_read == old(self).urls_read.wrapping_add(1),
            final(self).urls_rejected == old(self).urls_rejected,
            final(self).requests_received == old(self).requests_received,
            final(self).requests_blocked == old(self).requests_blocked,
    {
        self.urls_read = self.urls_read.wrapping_add(1);
    }

    pub fn increment_urls_rejected(&mut self)
        ensures
            final(self).urls_rejected == old(self).urls_rejected.wrapping_add(1),
            final(self).urls_read == old(self).urls_read,
            final(self).requests_received == old(self).requests_received,
            final(self).requests_blocked == old(self).requests_blocked,
    {
        self.urls_rejected = self.urls_rejected.wrapping_add(1);
    }

    pub fn increment_requests_received(&mut self)
        ensures
            final(self).requests_received == old(self).requests_received.wrapping_add(1),
            final(self).urls_read == old(self).urls_read,
            final(self).urls_rejected == old(self).urls_rejected,
            final(self).requests_blocked == old(self).requests_blocked,
    {
        self.requests_received = self.requests_received.wrapping_add(1);
    }

    pub fn increment_requests_blocked(&mut self)
        ensures
            final(self).requests_blocked == old(self).requests_blocked.wrapping_add(1),
            final(self).urls_read == old(self).urls_read,
            final(self).urls_rejected == old(self).urls_rejected,
            final(self).requests_received == old(self).requests_received,
    {
        self.requests_blocked = self.requests_blocked.wrapping_add(1);
    }

    pub fn get_urls_read(&self) -> (r: u64)
        ensures
            r == self.urls_read,
    {
        self.urls_read
    }

    pub fn get_urls_rejected(&self) -> (r: u64)
        ensures
            r == self.urls_rejected,
    {
        self.urls_rejected
    }

    pub fn get_requests_received(&self) -> (r: u64)
        ensures
            r == self.requests_received,
    {
        self.requests_received
    }

    pub fn get_requests_blocked(&self) -> (r: u64)
        ensures
            r == self.requests_blocked,
    {
        self.requests_blocked
    }
}

/// What the proxy keeps about one client connection.
pub struct ClientState {
    pub id: u64,
    pub ip_addr: String,
    pub port: u16,
    pub request: Option<HttpRequest>,
    pub action: Option<Action>,
    pub forward_spec: Option<ForwardSpec>,
    /// The connection's `CSP_FLAG_…` bits.
    pub flags: u32,
    pub buffer: Vec<u8>,
    pub content_buffer: Option<Vec<u8>>,
    /// Tags, each held once.
    pub tags: Vec<String>,
}

impl ClientState {
    /// The state of a new connection from `ip_addr:port`.
    pub fn new(id: u64, ip_addr: &str, port: u16) -> (r: Self)
        ensures
            r.id == id && r.ip_addr@ == ip_addr@ && r.port == port,
            r.request is None && r.action is None && r.forward_spec is None,
            r.flags == 0 && r.buffer@.len() == 0 && r.content_buffer is None && r.tags@.len() == 0,
    {
        ClientState {
            id,
            ip_addr: own(ip_addr),
            port,
            request: None,
            action: None,
            forward_spec: None,
            flags: 0,
            buffer: Vec::new(),
            content_buffer: None,
            tags: Vec::new(),
        }
    }

    pub fn set_request(&mut self, request: HttpRequest)
        ensures
            final(self).request == Some(request),
            final(self).action == old(self).action,
            final(self).flags == old(self).flags,
            final(self).tags == old(self).tags,
    {
        self.request = Some(request);
    }

    /// Forgets the request, its actions and its buffered content.
    pub fn clear_request(&mut self)
        ensures
            final(self).request is None && final(self).action is None && final(self).content_buffer is None,
            final(self).flags == old(self).flags,
            final(self).tags == old(self).tags,
    {
        self.request = None;
        self.action = None;
        self.content_buffer = None;
    }

    /// Adds a tag unless the connection has it already.
    pub fn add_tag(&mut self, tag: String)
        ensures
            str_views(final(self).tags@) == if str_views(old(self).tags@).contains(tag@) {
                str_views(old(self).tags@)
            } else {
                str_views(old(self).tags@).push(tag@)
            },
            final(self).flags == old(self).flags,
    {
        if !self.has_tag(tag.as_str()) {
            let ghost before = self.tags@;
            let ghost t = tag@;
            self.tags.push(tag);
            assert(str_views(self.tags@) =~= str_views(before).push(t));
        }
    }

    /// Whether the connection has the tag.
    pub fn has_tag(&self, tag: &str) -> (r: bool)
        ensures
            r == str_views(self.tags@).contains(tag@),
    {
        let mut i: usize = 0;
        while i < self.tags.len()
            invariant
                i <= self.tags.len(),
                forall|j: int| 0 <= j < i ==> #[trigger] str_views(self.tags@)[j] != tag@,
            decreases self.tags.len() - i,
        {
            if str_eq(self.tags[i].as_str(), tag) {
                assert(str_views(self.tags@)[i as int] == tag@);
                return true;
            }
            i += 1;
        }
        false
    }

    pub fn set_flag(&mut self, flag: u32)
        ensures
            final(self).flags == old(self).flags | flag,
            final(self).tags == old(self).tags,
    {
        self.flags = self.flags | flag;
    }

    pub fn clear_flag(&mut self, flag: u32)
        ensures
            final(self).flags == old(self).flags & !flag,
            final(self).tags == old(self).tags,
    {
        self.flags = self.flags & !flag;
    }

    pub fn has_flag(&self, flag: u32) -> (r: bool)
        ensures
            r == (self.flags & flag != 0),
    {
        (self.flags & flag) != 0
    }
}

/// After a flag is set the connection has it, and after it is cleared it
/// has it no longer; other flags are untouched either way.
pub proof fn law_flags_set_clear(flags: u32, flag: u32, other: u32)
    requires
        flag != 0,
        flag & other == 0,
    ensures
        (flags | flag) & flag != 0,
        (flags & !flag) & flag == 0,
        (flags | flag) & other == flags & other,
        (flags & !flag) & other == flags & other,
{
    assert((flags | flag) & flag != 0) by (bit_vector)
        requires
            flag != 0,
    ;
    assert((flags & !flag) & flag == 0) by (bit_vector);
    assert((flags | flag) & other == flags & other) by (bit_vector)
        requires
            flag & other == 0,
    ;
    assert((flags & !flag) & other == flags & other) by (bit_vector)
        requires
            flag & other == 0,
    ;
}

/// Whether filtering is switched on, and switching it.
pub struct AppToggle {
    pub enabled: bool,
}

impl AppToggle {
    /// Filtering starts switched on.
    pub fn new() -> (r: Self)
        ensures
            r.enabled,
    {
        AppToggle { enabled: true }
    }

    pub fn is_enabled(&self) -> (r: bool)
        ensures
            r == self.enabled,
    {
        self.enabled
    }

    pub fn set_enabled(&mut self, enabled: bool)
        ensures
            final(self).enabled == enabled,
    {
        self.enabled = enabled;
    }

    /// Switches filtering over and says whether it is now on.
    pub fn toggle(&mut self) -> (r: bool)
        ensures
            final(self).enabled == !old(self).enabled,
            r == final(self).enabled,
    {
        let current = self.is_enabled();
        self.set_enabled(!current);
        !current
    }
}


/// The id that follows `id`; after the largest id the count starts over at
/// zero.
pub open spec fn id_after(id: u64) -> u64 {
    if id == u64::MAX {
        0
    } else {
        (id + 1) as u64
    }
}

/// The connections the proxy serves, by id, and the id the next one gets.
pub struct ClientManager {
    clients: HashMap<u64, ClientState>,
    next_id: u64,
}

impl Default for ClientManager {
    fn default() -> (r: Self)
        ensures
            r.clients() == Map::<u64, ClientState>::empty(),
            r.next_id() == 1,
            r.ids_below_next(),
    {
        ClientManager::new()
    }
}

impl ClientManager {
    /// The connections, by id.
    pub closed spec fn clients(&self) -> Map<u64, ClientState> {
        self.clients@
    }

    /// The id the next connection gets.
    pub closed spec fn next_id(&self) -> u64 {
        self.next_id
    }

    /// The next id is not zero, and every registered id is below it and
    /// not zero.
    pub open spec fn ids_below_next(&self) -> bool {
        &&& 1 <= self.next_id()
        &&& forall|k: u64| #[trigger] self.clients().contains_key(k) ==> 1 <= k < self.next_id()
    }

    /// No connections; the first gets id 1.
    pub fn new() -> (r: Self)
        ensures
            r.clients() == Map::<u64, ClientState>::empty(),
            r.next_id() == 1,
            r.ids_below_next(),
    {
        ClientManager { clients: HashMap::new(), next_id: 1 }
    }

    /// Registers a connection from `ip_addr:port` under the next id, and
    /// returns that id.
    pub fn create_client(&mut self, ip_addr: &str, port: u16) -> (id: u64)
        ensures
            id == old(self).next_id(),
            final(self).next_id() == id_after(old(self).next_id()),
            final(self).clients().dom() == old(self).clients().dom().insert(id),
            final(self).clients()[id].id == id,
            final(self).clients()[id].ip_addr@ == ip_addr@,
            final(self).clients()[id].port == port,
            final(self).clients()[id].request is None,
            final(self).clients()[id].flags == 0,
            forall|k: u64| k != id && old(self).clients().contains_key(k) ==> final(self).clients()[k]
                == old(self).clients()[k],
            old(self).ids_below_next() && old(self).next_id() < u64::MAX ==> !old(self).clients().contains_key(id)
                && final(self).ids_below_next(),
    {
        broadcast use vstd::std_specs::hash::group_hash_axioms;

        let id = self.next_id;
        self.next_id = self.next_id.wrapping_add(1);
        assert(id < u64::MAX ==> self.next_id == id + 1);
        let client = ClientState::new(id, ip_addr, port);
        self.clients.insert(id, client);
        id
    }

    /// Forgets the connection `id`.
    pub fn remove_client(&mut self, id: u64)
        ensures
            final(self).clients() == old(self).clients().remove(id),
            final(self).next_id() == old(self).next_id(),
            old(self).ids_below_next() ==> final(self).ids_below_next(),
    {
        broadcast use vstd::std_specs::hash::group_hash_axioms;

        self.clients.remove(&id);
        assert(self.clients@ == old(self).clients@.remove(id));
        assert forall|k: u64| #[trigger] self.clients().contains_key(k) implies old(self).clients().contains_key(
            k,
        ) by {}
    }

    /// The connection `id`, where it is registered.
    pub fn get_client(&self, id: u64) -> (r: Option<&ClientState>)
        ensures
            match r {
                Some(c) => self.clients().contains_key(id) && *c == self.clients()[id],
                None => !self.clients().contains_key(id),
            },
    {
        broadcast use vstd::std_specs::hash::group_hash_axioms;

        self.clients.get(&id)
    }

    /// How many connections are registered.
    pub fn client_count(&self) -> (r: usize)
        ensures
            r == self.clients().len(),
    {
        broadcast use vstd::std_specs::hash::group_hash_axioms;

        self.clients.len()
    }
}


} // verus!
