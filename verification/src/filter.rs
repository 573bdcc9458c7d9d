//! Filters, access control and port lists.

use vstd::prelude::*;
use crate::text::{
    split_char, split_char_exec, views, parse_unsigned, int_error_text, int_error_message,
    decimal, trim, find_char, chars_of, push_str, push_chars, push_decimal, parse_u32,
    parse_u16, trim_vec, find_char_exec, slice_chars,
};
use crate::error::{PrivoxyError, PrivoxyResult};

verus! {

/// The kinds of filter a filter file can declare.
#[derive(Debug, Clone, Copy, PartialEq, Eq, Structural)]
pub enum FilterType {
    Content,
    ClientHeader,
    ClientHeaderTagger,
    ServerHeader,
    ServerHeaderTagger,
    ClientBody,
    ClientBodyTagger,
}

impl Default for FilterType {
    fn default() -> (r: Self)
        ensures
            r == FilterType::Content,
    {
        FilterType::Content
    }
}

/// Values that a dynamic filter's replacement text can refer to.
#[derive(Debug, Clone)]
pub struct FilterVariables {
    pub host: String,
    pub url: String,
    pub path: String,
    pub origin: String,
    pub listen_address: String,
}

impl Default for FilterVariables {
    fn default() -> (r: Self)
        ensures
            r.host@.len() == 0 && r.url@.len() == 0 && r.path@.len() == 0 && r.origin@.len() == 0,
            r.listen_address@ == "127.0.0.1:8118"@,
    {
        FilterVariables {
            host: String::new(),
            url: String::new(),
            path: String::new(),
            origin: String::new(),
            listen_address: "127.0.0.1:8118".to_string(),
        }
    }
}

// ---------------------------------------------------------------------------
// Access control

/// One access control rule: addresses `a` with `a & mask == address`.
#[derive(Debug, Clone, Copy)]
pub struct AccessControlEntry {
    pub address: u32,
    pub mask: u32,
    pub permit: bool,
}

/// An ordered list of access control rules; the first that matches decides.
#[derive(Debug, Clone)]
pub struct AccessControlList {
    pub entries: Vec<AccessControlEntry>,
}

/// The mask with the top `bits` bits set.
pub open spec fn prefix_mask(bits: u32) -> u32 {
    if bits == 0 {
        0
    } else {
        0xffff_ffffu32 << ((32 - bits) as u32)
    }
}

/// The result of reading one dotted-quad part.
pub open spec fn octet_result(p: Seq<char>) -> Result<nat, Seq<char>> {
    match parse_unsigned(p, 0xffff_ffff) {
        None => Err("Invalid octet '"@ + p + "': "@ + int_error_text(p, 0xffff_ffff)),
        Some(o) => if o > 255 {
            Err("Octet out of range: "@ + decimal(o))
        } else {
            Ok(o)
        },
    }
}

/// The value of dotted-quad parts read in order, most significant first;
/// the first part that fails decides the error.
pub open spec fn octets_value(parts: Seq<Seq<char>>) -> Result<nat, Seq<char>>
    decreases parts.len(),
{
    if parts.len() == 0 {
        Ok(0)
    } else {
        match octets_value(parts.drop_last()) {
            Err(e) => Err(e),
            Ok(acc) => match octet_result(parts.last()) {
                Err(e) => Err(e),
                Ok(o) => Ok(acc * 256 + o),
            },
        }
    }
}

/// Reading an IPv4 address `a.b.c.d` as a number.
pub open spec fn ip_address_result(s: Seq<char>) -> Result<u32, Seq<char>> {
    let parts = split_char(s, '.');
    if parts.len() != 4 {
        Err("Invalid IP address: "@ + s)
    } else {
        match octets_value(parts) {
            Ok(v) => Ok(v as u32),
            Err(e) => Err(e),
        }
    }
}

/// Reading an ACL address `a.b.c.d` or `a.b.c.d/bits` as `(address, mask)`.
pub open spec fn acl_address_result(s: Seq<char>) -> Result<(u32, u32), Seq<char>> {
    let parts = split_char(s, '/');
    if parts.len() == 0 || parts.len() > 2 {
        Err("Invalid ACL specification: "@ + s)
    } else {
        match ip_address_result(parts[0]) {
            Err(e) => Err(e),
            Ok(ip) => {
                let bits: Result<nat, Seq<char>> = if parts.len() > 1 {
                    match parse_unsigned(parts[1], 0xffff_ffff) {
                        Some(b) => Ok(b),
                        None => Err("Invalid mask: "@ + int_error_text(parts[1], 0xffff_ffff)),
                    }
                } else {
                    Ok(32)
                };
                match bits {
                    Err(e) => Err(e),
                    Ok(b) => if b > 32 {
                        Err("Invalid mask length: "@ + decimal(b))
                    } else {
                        Ok((ip & prefix_mask(b as u32), prefix_mask(b as u32)))
                    },
                }
            },
        }
    }
}

/// Whether the first rule matching `ip` denies it (no match permits).
pub open spec fn acl_blocks(entries: Seq<AccessControlEntry>, ip: u32) -> bool
    decreases entries.len(),
{
    if entries.len() == 0 {
        false
    } else if ip & entries[0].mask == entries[0].address {
        !entries[0].permit
    } else {
        acl_blocks(entries.drop_first(), ip)
    }
}

pub open spec fn filter_error<T>(r: PrivoxyResult<T>, m: Seq<char>) -> bool {
    r matches Err(PrivoxyError::Filter(x)) && x@ == m
}

fn filter_err(prefix: &str, detail: &[char]) -> (r: PrivoxyError)
    ensures
        r matches PrivoxyError::Filter(x) && x@ == prefix@ + detail@,
{
    let mut m = String::new();
    push_str(&mut m, prefix);
    push_chars(&mut m, detail);
    PrivoxyError::Filter(m)
}

impl AccessControlList {
    pub fn new() -> (r: Self)
        ensures
            r.entries@ == Seq::<AccessControlEntry>::empty(),
    {
        AccessControlList { entries: Vec::new() }
    }

    /// Reads an IPv4 address `a.b.c.d` as a number.
    pub fn parse_ip_address(ip_str: &str) -> (r: PrivoxyResult<u32>)
        ensures
            match ip_address_result(ip_str@) {
                Ok(v) => r == Ok::<u32, PrivoxyError>(v),
                Err(m) => filter_error(r, m),
            },
    {
        let v = chars_of(ip_str);
        let parts = split_char_exec(&v, '.');
        let ghost ps = views(parts@);
        if parts.len() != 4 {
            return Err(filter_err("Invalid IP address: ", &v));
        }
        let mut ip: u32 = 0;
        let mut i: usize = 0;
        while i < 4
            invariant
                i <= 4,
                parts.len() == 4,
                ps == views(parts@),
                ps == split_char(v@, '.'),
                v@ == ip_str@,
                octets_value(ps.take(i as int)) == Ok::<nat, Seq<char>>(ip as nat),
                i == 0 ==> ip == 0,
                i == 1 ==> ip < 256,
                i == 2 ==> ip < 65536,
                i == 3 ==> ip < 16777216,
            decreases 4 - i,
        {
            proof {
                assert(ps.take(i as int + 1).drop_last() =~= ps.take(i as int));
                assert(ps.take(i as int + 1).last() == ps[i as int]);
            }
            let part = &parts[i];
            match parse_u32(part) {
                None => {
                    let e = int_error_message(part, 0xffff_ffff);
                    let mut m = String::new();
                    push_str(&mut m, "Invalid octet '");
                    push_chars(&mut m, part);
                    push_str(&mut m, "': ");
                    push_str(&mut m, e.as_str());
                    proof {
                        assert(part@ == ps[i as int]);
                        assert(octets_value(ps.take(i as int + 1)) == Err::<nat, Seq<char>>(m@));
                        lemma_octets_err_prefix(ps, i as int + 1);
                        assert(ps.take(4) =~= ps);
                    }
                    return Err(PrivoxyError::Filter(m));
                },
                Some(o) => {
                    if o > 255 {
                        let mut m = String::new();
                        push_str(&mut m, "Octet out of range: ");
                        push_decimal(&mut m, o as u64);
                        proof {
                            assert(part@ == ps[i as int]);
                            assert(octets_value(ps.take(i as int + 1)) == Err::<nat, Seq<char>>(m@));
                            lemma_octets_err_prefix(ps, i as int + 1);
                            assert(ps.take(4) =~= ps);
                        }
                        return Err(PrivoxyError::Filter(m));
                    }
                    ip = ip * 256 + o;
                },
            }
            i += 1;
        }
        assert(ps.take(4) =~= ps);
        Ok(ip)
    }

    /// Reads an ACL address `a.b.c.d` or `a.b.c.d/bits` as `(address, mask)`,
    /// the address cut down to the mask.
    pub fn parse_acl_address(spec: &str) -> (r: PrivoxyResult<(u32, u32)>)
        ensures
            match acl_address_result(spec@) {
                Ok(v) => r == Ok::<(u32, u32), PrivoxyError>(v),
                Err(m) => filter_error(r, m),
            },
    {
        let v = chars_of(spec);
        let parts = split_char_exec(&v, '/');
        let ghost ps = views(parts@);
        assert(ps == split_char(v@, '/'));
        if parts.len() == 0 || parts.len() > 2 {
            return Err(filter_err("Invalid ACL specification: ", &v));
        }
        let first = crate::text::from_chars(&parts[0]);
        let ip = match Self::parse_ip_address(first.as_str()) {
            Ok(ip) => ip,
            Err(e) => {
                return Err(e);
            },
        };
        let bits: u32 = if parts.len() > 1 {
            match parse_u32(&parts[1]) {
                Some(b) => b,
                None => {
                    let e = int_error_message(&parts[1], 0xffff_ffff);
                    let mut m = String::new();
                    push_str(&mut m, "Invalid mask: ");
                    push_str(&mut m, e.as_str());
                    return Err(PrivoxyError::Filter(m));
                },
            }
        } else {
            32
        };
        if bits > 32 {
            let mut m = String::new();
            push_str(&mut m, "Invalid mask length: ");
            push_decimal(&mut m, bits as u64);
            return Err(PrivoxyError::Filter(m));
        }
        let mask: u32 = if bits == 0 {
            0
        } else {
            0xffff_ffffu32 << (32 - bits)
        };
        Ok((ip & mask, mask))
    }

    /// Appends a rule.
    pub fn add_entry(&mut self, address: u32, mask: u32, permit: bool)
        ensures
            final(self).entries@ == old(self).entries@.push(
                AccessControlEntry { address, mask, permit },
            ),
    {
        self.entries.push(AccessControlEntry { address, mask, permit });
    }

    /// Whether `ip` is denied: the first rule that matches decides, and an
    /// address no rule matches is permitted.
    pub fn is_blocked(&self, ip: u32) -> (r: bool)
        ensures
            r == acl_blocks(self.entries@, ip),
    {
        if self.entries.len() == 0 {
            return false;
        }
        let mut i: usize = 0;
        assert(self.entries@.skip(0) =~= self.entries@);
        while i < self.entries.len()
            invariant
                i <= self.entries.len(),
                acl_blocks(self.entries@, ip) == acl_blocks(self.entries@.skip(i as int), ip),
            decreases self.entries.len() - i,
        {
            let e = self.entries[i];
            assert(self.entries@.skip(i as int)[0] == e);
            assert(self.entries@.skip(i as int).drop_first() =~= self.entries@.skip(i as int + 1));
            if (ip & e.mask) == e.address {
                return !e.permit;
            }
            i += 1;
        }
        false
    }
}

proof fn lemma_octets_err_prefix(ps: Seq<Seq<char>>, k: int)
    requires
        0 <= k <= ps.len(),
        octets_value(ps.take(k)) is Err,
    ensures
        octets_value(ps) == octets_value(ps.take(k)),
    decreases ps.len() - k,
{
    if k < ps.len() {
        assert(ps.take(k + 1).drop_last() =~= ps.take(k));
        lemma_octets_err_prefix(ps, k + 1);
    } else {
        assert(ps.take(k) =~= ps);
    }
}

/// Whether `port` is one of `forbidden_ports`.
pub fn connect_port_is_forbidden(port: u16, forbidden_ports: &[u16]) -> (r: bool)
    ensures
        r == forbidden_ports@.contains(port),
{
    let mut i: usize = 0;
    while i < forbidden_ports.len()
        invariant
            i <= forbidden_ports.len(),
            forall|j: int| 0 <= j < i ==> forbidden_ports@[j] != port,
        decreases forbidden_ports.len() - i,
    {
        if forbidden_ports[i] == port {
            assert(forbidden_ports@[i as int] == port);
            return true;
        }
        i += 1;
    }
    false
}

/// Ports to which `CONNECT` is refused unless configured otherwise.
pub const DEFAULT_FORBIDDEN_CONNECT_PORTS: [u16; 82] = [
    1, 7, 9, 11, 13, 15, 17, 19, 20, 21, 22, 23, 25, 37, 42, 43, 53, 69, 77, 79, 87, 95, 101,
    102, 103, 104, 109, 110, 111, 113, 115, 117, 119, 123, 135, 137, 139, 143, 161, 179, 389,
    465, 512, 513, 514, 515, 526, 530, 531, 532, 540, 548, 554, 556, 563, 587, 601, 636, 989,
    990, 993, 995, 1719, 1720, 1723, 2049, 3659, 4045, 5060, 5061, 6000, 6566, 6665, 6666,
    6667, 6668, 6669, 6697, 6699, 8765, 9999, 10080,
];

// ---------------------------------------------------------------------------
// Port lists

/// A set of ports given as single ports and inclusive ranges.
#[derive(Debug, Clone)]
pub struct PortList {
    ports: Vec<u16>,
    ranges: Vec<(u16, u16)>,
}

impl View for PortList {
    type V = (Seq<u16>, Seq<(u16, u16)>);

    closed spec fn view(&self) -> (Seq<u16>, Seq<(u16, u16)>) {
        (self.ports@, self.ranges@)
    }
}

/// Whether a port list holds `port`.
pub open spec fn port_list_has(l: (Seq<u16>, Seq<(u16, u16)>), port: u16) -> bool {
    l.0.contains(port) || exists|i: int| 0 <= i < l.1.len() && (#[trigger] l.1[i]).0 <= port <= l.1[i].1
}

/// One comma-separated entry of a port list: `Ok((false, p, p))` for a
/// port, `Ok((true, a, b))` for a range `a-b`.
pub open spec fn port_entry(part: Seq<char>) -> Result<(bool, u16, u16), Seq<char>> {
    let t = trim(part);
    match find_char(t, '-') {
        Some(d) => {
            let a = trim(t.subrange(0, d));
            let b = trim(t.subrange(d + 1, t.len() as int));
            match parse_unsigned(a, 0xffff) {
                None => Err("Invalid port range start: "@ + int_error_text(a, 0xffff)),
                Some(x) => match parse_unsigned(b, 0xffff) {
                    None => Err("Invalid port range end: "@ + int_error_text(b, 0xffff)),
                    Some(y) => if x > y {
                        Err("Invalid port range: "@ + decimal(x) + "-"@ + decimal(y))
                    } else {
                        Ok((true, x as u16, y as u16))
                    },
                },
            }
        },
        None => match parse_unsigned(t, 0xffff) {
            None => Err("Invalid port: "@ + int_error_text(t, 0xffff)),
            Some(x) => Ok((false, x as u16, x as u16)),
        },
    }
}

/// The port list that comma-separated entries give, read in order; empty
/// entries are skipped and the first bad entry decides the error.
pub open spec fn port_list_result(parts: Seq<Seq<char>>) -> Result<(Seq<u16>, Seq<(u16, u16)>), Seq<char>>
    decreases parts.len(),
{
    if parts.len() == 0 {
        Ok((Seq::empty(), Seq::empty()))
    } else {
        match port_list_result(parts.drop_last()) {
            Err(e) => Err(e),
            Ok(l) => if trim(parts.last()).len() == 0 {
                Ok(l)
            } else {
                match port_entry(parts.last()) {
                    Err(e) => Err(e),
                    Ok(p) => if p.0 {
                        Ok((l.0, l.1.push((p.1, p.2))))
                    } else {
                        Ok((l.0.push(p.1), l.1))
                    },
                }
            },
        }
    }
}

proof fn lemma_port_list_err_prefix(ps: Seq<Seq<char>>, k: int)
    requires
        0 <= k <= ps.len(),
        port_list_result(ps.take(k)) is Err,
    ensures
        port_list_result(ps) == port_list_result(ps.take(k)),
    decreases ps.len() - k,
{
    if k < ps.len() {
        assert(ps.take(k + 1).drop_last() =~= ps.take(k));
        lemma_port_list_err_prefix(ps, k + 1);
    } else {
        assert(ps.take(k) =~= ps);
    }
}

/// Reads one entry, as `port_entry` states it.
fn parse_port_entry(part: &[char]) -> (r: Result<(bool, u16, u16), String>)
    ensures
        match port_entry(part@) {
            Ok(p) => r == Ok::<(bool, u16, u16), String>(p),
            Err(m) => r matches Err(x) && x@ == m,
        },
{
    let t = trim_vec(part);
    match find_char_exec(&t, '-') {
        Some(d) => {
            let a = trim_vec(&slice_chars(&t, 0, d));
            let b = trim_vec(&slice_chars(&t, d + 1, t.len()));
            match parse_u16(&a) {
                None => {
                    let mut m = String::new();
                    push_str(&mut m, "Invalid port range start: ");
                    push_str(&mut m, int_error_message(&a, 0xffff).as_str());
                    Err(m)
                },
                Some(x) => match parse_u16(&b) {
                    None => {
                        let mut m = String::new();
                        push_str(&mut m, "Invalid port range end: ");
                        push_str(&mut m, int_error_message(&b, 0xffff).as_str());
                        Err(m)
                    },
                    Some(y) => {
                        if x > y {
                            let mut m = String::new();
                            push_str(&mut m, "Invalid port range: ");
                            push_decimal(&mut m, x as u64);
                            push_str(&mut m, "-");
                            push_decimal(&mut m, y as u64);
                            Err(m)
                        } else {
                            Ok((true, x, y))
                        }
                    },
                },
            }
        },
        None => match parse_u16(&t) {
            None => {
                let mut m = String::new();
                push_str(&mut m, "Invalid port: ");
                push_str(&mut m, int_error_message(&t, 0xffff).as_str());
                Err(m)
            },
            Some(x) => Ok((false, x, x)),
        },
    }
}

impl PortList {
    pub fn new() -> (r: Self)
        ensures
            r@ == (Seq::<u16>::empty(), Seq::<(u16, u16)>::empty()),
    {
        PortList { ports: Vec::new(), ranges: Vec::new() }
    }

    pub fn add_port(&mut self, port: u16)
        ensures
            final(self)@ == (old(self)@.0.push(port), old(self)@.1),
    {
        self.ports.push(port);
    }

    pub fn add_range(&mut self, start: u16, end: u16)
        ensures
            final(self)@ == (old(self)@.0, old(self)@.1.push((start, end))),
    {
        self.ranges.push((start, end));
    }

    /// Whether the list holds `port`, as a single port or inside a range.
    pub fn matches(&self, port: u16) -> (r: bool)
        ensures
            r == port_list_has(self@, port),
    {
        if connect_port_is_forbidden(port, self.ports.as_slice()) {
            assert(self@.0 == self.ports@);
            return true;
        }
        let mut i: usize = 0;
        while i < self.ranges.len()
            invariant
                i <= self.ranges.len(),
                forall|j: int| 0 <= j < i ==> !((#[trigger] self.ranges@[j]).0 <= port <= self.ranges@[j].1),
            decreases self.ranges.len() - i,
        {
            let (a, b) = self.ranges[i];
            if a <= port && port <= b {
                assert(self@.1 == self.ranges@);
                assert(self@.1[i as int].0 <= port <= self@.1[i as int].1);
                return true;
            }
            i += 1;
        }
        false
    }

    /// Reads a list such as `21,22,80-90`.
    pub fn parse(port_list: &str) -> (r: PrivoxyResult<Self>)
        ensures
            match port_list_result(split_char(port_list@, ',')) {
                Ok(l) => r matches Ok(p) && p@ == l,
                Err(m) => filter_error(r, m),
            },
    {
        let v = chars_of(port_list);
        let parts = split_char_exec(&v, ',');
        let ghost ps = views(parts@);
        let mut result = PortList::new();
        let mut i: usize = 0;
        while i < parts.len()
            invariant
                i <= parts.len(),
                ps == views(parts@),
                ps == split_char(v@, ','),
                v@ == port_list@,
                port_list_result(ps.take(i as int)) == Ok::<(Seq<u16>, Seq<(u16, u16)>), Seq<char>>(result@),
            decreases parts.len() - i,
        {
            proof {
                assert(ps.take(i as int + 1).drop_last() =~= ps.take(i as int));
                assert(ps.take(i as int + 1).last() == ps[i as int]);
            }
            let t = trim_vec(&parts[i]);
            if t.len() > 0 {
                match parse_port_entry(&parts[i]) {
                    Err(m) => {
                        proof {
                            assert(parts@[i as int]@ == ps[i as int]);
                            assert(port_list_result(ps.take(i as int + 1)) == Err::<(Seq<u16>, Seq<(u16, u16)>), Seq<char>>(m@));
                            lemma_port_list_err_prefix(ps, i as int + 1);
                        }
                        return Err(PrivoxyError::Filter(m));
                    },
                    Ok((is_range, a, b)) => {
                        if is_range {
                            result.add_range(a, b);
                        } else {
                            result.add_port(a);
                        }
                    },
                }
            }
            i += 1;
        }
        assert(ps.take(i as int) =~= ps);
        Ok(result)
    }
}

} // verus!

pub use crate::content_filter::{
    FilterRule, FilterJob, Filter, UrlPattern, Action, FilterEngine, BlockList, parse_filter_lines,
    parse_filter_file, parse_filter_job, parse_filter_header, make_ungreedy, unescape_pattern,
    unescape_replacement, split_name_description,
};
