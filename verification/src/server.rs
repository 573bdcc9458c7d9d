//! The decisions of the accept loop: whether a new connection is served,
//! and the short answers it gets where it is not.

use vstd::prelude::*;
use crate::text::own;

verus! {

/// What becomes of a connection that was just accepted.
#[derive(Debug, Clone, Copy, PartialEq, Eq, Structural)]
pub enum Admission {
    /// As many connections as allowed are open already.
    TooManyConnections,
    /// The client's address may not use the proxy.
    AccessDenied,
    /// The connection is handled.
    Serve,
}

/// The limit on open connections comes first, then the access rules.
pub open spec fn admission(client_count: usize, max_connections: usize, access_allowed: bool) -> Admission {
    if client_count >= max_connections {
        Admission::TooManyConnections
    } else if !access_allowed {
        Admission::AccessDenied
    } else {
        Admission::Serve
    }
}

/// Whether a new connection is served, given how many are open, the limit,
/// and whether the access rules admit the client.
pub fn admit_connection(client_count: usize, max_connections: usize, access_allowed: bool) -> (r: Admission)
    ensures
        r == admission(client_count, max_connections, access_allowed),
{
    if client_count >= max_connections {
        Admission::TooManyConnections
    } else if !access_allowed {
        Admission::AccessDenied
    } else {
        Admission::Serve
    }
}

/// The answer to a connection over the limit.
pub open spec fn too_many_connections_answer() -> Seq<char> {
    "HTTP/1.1 503 Service Unavailable\r\nContent-Type: text/plain\r\nConnection: close\r\n\r\nToo many connections. Please try again later.\n"@
}

/// The answer to a client the access rules refuse.
pub open spec fn access_denied_answer() -> Seq<char> {
    "HTTP/1.1 403 Forbidden\r\nContent-Type: text/plain\r\nConnection: close\r\n\r\nAccess denied.\n"@
}

/// The answer while the proxy is switched off.
pub open spec fn proxy_disabled_answer() -> Seq<char> {
    "HTTP/1.1 503 Service Unavailable\r\nContent-Type: text/plain\r\nConnection: close\r\n\r\nProxy is currently disabled.\n"@
}

/// The answer to a connection over the limit.
pub fn too_many_connections_text() -> (r: String)
    ensures
        r@ == too_many_connections_answer(),
{
    own("HTTP/1.1 503 Service Unavailable\r\nContent-Type: text/plain\r\nConnection: close\r\n\r\nToo many connections. Please try again later.\n")
}

/// The answer to a client the access rules refuse.
pub fn access_denied_text() -> (r: String)
    ensures
        r@ == access_denied_answer(),
{
    own("HTTP/1.1 403 Forbidden\r\nContent-Type: text/plain\r\nConnection: close\r\n\r\nAccess denied.\n")
}

/// The answer while the proxy is switched off.
pub fn proxy_disabled_text() -> (r: String)
    ensures
        r@ == proxy_disabled_answer(),
{
    own("HTTP/1.1 503 Service Unavailable\r\nContent-Type: text/plain\r\nConnection: close\r\n\r\nProxy is currently disabled.\n")
}

} // verus!
