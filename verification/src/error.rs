//! The library's error type.

use vstd::prelude::*;
use crate::text::push_str;

verus! {

/// Errors reported by the library.
#[derive(Debug)]
pub enum PrivoxyError {
    Memory,
    CgiParams(String),
    File(String),
    Parse(String),
    Modified,
    Compress(String),
    Io(String),
    Network(String),
    Http(String),
    Config(String),
    Filter(String),
    Ssl(String),
    InvalidUrl(String),
    Connection(String),
    Timeout,
    TooManyConnections,
    Unknown,
    Other(String),
}

pub type PrivoxyResult<T> = Result<T, PrivoxyError>;

/// The prefix that the human-readable text of each error starts with.
pub open spec fn error_prefix(e: PrivoxyError) -> Seq<char> {
    match e {
        PrivoxyError::Memory => "Memory allocation failed"@,
        PrivoxyError::CgiParams(_) => "CGI parameters error: "@,
        PrivoxyError::File(_) => "File error: "@,
        PrivoxyError::Parse(_) => "Parse error: "@,
        PrivoxyError::Modified => "Modified error"@,
        PrivoxyError::Compress(_) => "Compression error: "@,
        PrivoxyError::Io(_) => "IO error: "@,
        PrivoxyError::Network(_) => "Network error: "@,
        PrivoxyError::Http(_) => "HTTP error: "@,
        PrivoxyError::Config(_) => "Configuration error: "@,
        PrivoxyError::Filter(_) => "Filter error: "@,
        PrivoxyError::Ssl(_) => "SSL/TLS error: "@,
        PrivoxyError::InvalidUrl(_) => "Invalid URL: "@,
        PrivoxyError::Connection(_) => "Connection error: "@,
        PrivoxyError::Timeout => "Timeout error"@,
        PrivoxyError::TooManyConnections => "Too many connections"@,
        PrivoxyError::Unknown => "Unknown error"@,
        PrivoxyError::Other(_) => ""@,
    }
}

/// The detail text an error carries, if any.
pub open spec fn error_detail(e: PrivoxyError) -> Seq<char> {
    match e {
        PrivoxyError::CgiParams(s) => s@,
        PrivoxyError::File(s) => s@,
        PrivoxyError::Parse(s) => s@,
        PrivoxyError::Compress(s) => s@,
        PrivoxyError::Io(s) => s@,
        PrivoxyError::Network(s) => s@,
        PrivoxyError::Http(s) => s@,
        PrivoxyError::Config(s) => s@,
        PrivoxyError::Filter(s) => s@,
        PrivoxyError::Ssl(s) => s@,
        PrivoxyError::InvalidUrl(s) => s@,
        PrivoxyError::Connection(s) => s@,
        PrivoxyError::Other(s) => s@,
        _ => Seq::empty(),
    }
}

impl PrivoxyError {
    /// The human-readable text of the error.
    pub fn message(&self) -> (r: String)
        ensures
            r@ == error_prefix(*self) + error_detail(*self),
    {
        let mut r = String::new();
        let prefix: &str = match self {
            PrivoxyError::Memory => "Memory allocation failed",
            PrivoxyError::CgiParams(_) => "CGI parameters error: ",
            PrivoxyError::File(_) => "File error: ",
            PrivoxyError::Parse(_) => "Parse error: ",
            PrivoxyError::Modified => "Modified error",
            PrivoxyError::Compress(_) => "Compression error: ",
            PrivoxyError::Io(_) => "IO error: ",
            PrivoxyError::Network(_) => "Network error: ",
            PrivoxyError::Http(_) => "HTTP error: ",
            PrivoxyError::Config(_) => "Configuration error: ",
            PrivoxyError::Filter(_) => "Filter error: ",
            PrivoxyError::Ssl(_) => "SSL/TLS error: ",
            PrivoxyError::InvalidUrl(_) => "Invalid URL: ",
            PrivoxyError::Connection(_) => "Connection error: ",
            PrivoxyError::Timeout => "Timeout error",
            PrivoxyError::TooManyConnections => "Too many connections",
            PrivoxyError::Unknown => "Unknown error",
            PrivoxyError::Other(_) => "",
        };
        push_str(&mut r, prefix);
        match self {
            PrivoxyError::CgiParams(s) | PrivoxyError::File(s) | PrivoxyError::Parse(s)
            | PrivoxyError::Compress(s) | PrivoxyError::Io(s) | PrivoxyError::Network(s)
            | PrivoxyError::Http(s) | PrivoxyError::Config(s) | PrivoxyError::Filter(s)
            | PrivoxyError::Ssl(s) | PrivoxyError::InvalidUrl(s) | PrivoxyError::Connection(s)
            | PrivoxyError::Other(s) => {
                push_str(&mut r, s.as_str());
            },
            _ => {},
        }
        r
    }
}

} // verus!
