//! Version, limits and flags shared by the whole program.

use vstd::prelude::*;

verus! {

pub const VERSION: &'static str = "4.1.0";
pub const VERSION_MAJOR: u32 = 4;
pub const VERSION_MINOR: u32 = 1;
pub const VERSION_POINT: u32 = 0;
pub const CODE_STATUS: &'static str = "stable";
pub const HOME_PAGE_URL: &'static str = "https://www.privoxy.org/";

pub const BUFFER_SIZE: usize = 5000;
pub const CGI_PARAM_LEN_MAX: usize = 500;
pub const HOSTENT_BUFFER_SIZE: usize = 2048;
pub const DEFAULT_LISTEN_ADDR: &'static str = "127.0.0.1:8118";

pub const HTTP_OK: &'static str = "HTTP/1.1 200 OK\r\n";
pub const HTTP_BAD_REQUEST: &'static str = "HTTP/1.1 400 Bad Request\r\n";
pub const HTTP_NOT_FOUND: &'static str = "HTTP/1.1 404 Not Found\r\n";
pub const HTTP_CONNECT_OK: &'static str = "HTTP/1.1 200 Connection established\r\n\r\n";

pub const DEFAULT_CONFIG_FILE: &'static str = "config";

pub const CONNECTION_TIMEOUT_SECS: u64 = 300;
pub const KEEP_ALIVE_TIMEOUT_SECS: u64 = 55;

pub const MAX_CONNECTIONS: usize = 1000;

pub const ANCHOR_LEFT: u32 = 1;
pub const ANCHOR_RIGHT: u32 = 2;

pub const CSP_FLAG_CHUNKED: u32 = 0x0001;
pub const CSP_FLAG_CONTENT_LENGTH_SET: u32 = 0x0002;
pub const CSP_FLAG_MODIFIED: u32 = 0x0004;
pub const CSP_FLAG_CLIENT_CONNECTION_KEEP_ALIVE: u32 = 0x0008;
pub const CSP_FLAG_SERVER_CONNECTION_KEEP_ALIVE: u32 = 0x0010;
pub const CSP_FLAG_SSL_TUNNEL: u32 = 0x0020;

} // verus!
