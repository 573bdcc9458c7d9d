//! The optional parts this build has: the defaults, with rustls as the TLS
//! backend and no HTTPS inspection.

use vstd::prelude::*;

verus! {

pub const FEATURE_HTTPS_INSPECTION_OPENSSL: bool = false;
pub const FEATURE_HTTPS_INSPECTION_RUSTLS: bool = true;
pub const FEATURE_HTTPS_INSPECTION_MBEDTLS: bool = false;
pub const FEATURE_HTTPS_INSPECTION_WOLFSSL: bool = false;
pub const FEATURE_HTTPS_INSPECTION: bool = false;
pub const FEATURE_TOGGLE: bool = true;
pub const FEATURE_FORCE_LOAD: bool = true;
pub const FEATURE_FAST_REDIRECTS: bool = true;
pub const FEATURE_STATISTICS: bool = true;
pub const FEATURE_EXTENDED_STATISTICS: bool = false;
pub const FEATURE_IMAGE_BLOCKING: bool = true;
pub const FEATURE_ACL: bool = true;
pub const FEATURE_TRUST: bool = true;
pub const FEATURE_CGI_EDIT_ACTIONS: bool = true;
pub const FEATURE_NO_GIFS: bool = false;
pub const FEATURE_GRACEFUL_TERMINATION: bool = false;
pub const FEATURE_PCRE_HOST_PATTERNS: bool = false;
pub const FEATURE_EXTERNAL_FILTERS: bool = false;
pub const FEATURE_ACCEPT_FILTER: bool = false;
pub const FEATURE_STRPTIME_SANITY_CHECKS: bool = false;
pub const FEATURE_CLIENT_TAGS: bool = true;
pub const FEATURE_COMPRESSION: bool = true;
pub const FEATURE_CONNECTION_KEEP_ALIVE: bool = true;
pub const FEATURE_CONNECTION_SHARING: bool = true;

/// The first backend built in, in the order OpenSSL, rustls, mbedTLS,
/// wolfSSL.
pub open spec fn backend_name() -> Seq<char> {
    if FEATURE_HTTPS_INSPECTION_OPENSSL {
        "openssl"@
    } else if FEATURE_HTTPS_INSPECTION_RUSTLS {
        "rustls"@
    } else if FEATURE_HTTPS_INSPECTION_MBEDTLS {
        "mbedtls"@
    } else {
        "wolfssl"@
    }
}

/// Whether some backend for inspecting HTTPS traffic is built in.
pub fn is_https_inspection_enabled() -> (r: bool)
    ensures
        r == (FEATURE_HTTPS_INSPECTION || FEATURE_HTTPS_INSPECTION_OPENSSL || FEATURE_HTTPS_INSPECTION_RUSTLS
            || FEATURE_HTTPS_INSPECTION_MBEDTLS || FEATURE_HTTPS_INSPECTION_WOLFSSL),
{
    FEATURE_HTTPS_INSPECTION || FEATURE_HTTPS_INSPECTION_OPENSSL || FEATURE_HTTPS_INSPECTION_RUSTLS
        || FEATURE_HTTPS_INSPECTION_MBEDTLS || FEATURE_HTTPS_INSPECTION_WOLFSSL
}

/// The name of the HTTPS inspection backend, preferring OpenSSL, then
/// rustls, mbedTLS and wolfSSL.
pub fn get_https_inspection_backend() -> (r: Option<&'static str>)
    ensures
        match r {
            Some(s) => s@ == backend_name(),
            None => !FEATURE_HTTPS_INSPECTION_OPENSSL && !FEATURE_HTTPS_INSPECTION_RUSTLS
                && !FEATURE_HTTPS_INSPECTION_MBEDTLS && !FEATURE_HTTPS_INSPECTION_WOLFSSL,
        },
        (FEATURE_HTTPS_INSPECTION_OPENSSL || FEATURE_HTTPS_INSPECTION_RUSTLS || FEATURE_HTTPS_INSPECTION_MBEDTLS
            || FEATURE_HTTPS_INSPECTION_WOLFSSL) ==> r is Some,
{
    if FEATURE_HTTPS_INSPECTION_OPENSSL {
        Some("openssl")
    } else if FEATURE_HTTPS_INSPECTION_RUSTLS {
        Some("rustls")
    } else if FEATURE_HTTPS_INSPECTION_MBEDTLS {
        Some("mbedtls")
    } else if FEATURE_HTTPS_INSPECTION_WOLFSSL {
        Some("wolfssl")
    } else {
        None
    }
}

} // verus!
