//! Calls into std functions that vstd does not specify and into the outside
//! crates the library uses.  Every item here is trusted: Verus believes its
//! contract without proof, so each contract states only what the called
//! function's documentation or source shows.

use vstd::prelude::*;
use std::io::{Read, Write};
use base64::Engine;
use rand::Rng;
use crate::http::{HeadStatus, RawHead, RawHeadView};

verus! {

// ---------------------------------------------------------------------------
// std: Unicode case mapping and UTF-8

/// What `str::to_lowercase` returns (full Unicode case mapping).
pub uninterp spec fn unicode_lowercase(s: Seq<char>) -> Seq<char>;

/// What `str::to_uppercase` returns (full Unicode case mapping).
pub uninterp spec fn unicode_uppercase(s: Seq<char>) -> Seq<char>;

/// Calls `str::to_lowercase`.  The result is named; on ASCII text the
/// Unicode mapping is the ASCII one, so there it equals the ASCII folding.
#[verifier::external_body]
pub(crate) fn str_to_lowercase(s: &str) -> (r: String)
    ensures
        r@ == unicode_lowercase(s@),
        crate::text::is_ascii_text(s@) ==> r@ == crate::text::lower(s@),
{
    s.to_lowercase()
}

/// Calls `str::to_uppercase`.  The result is named; on ASCII text the
/// Unicode mapping is the ASCII one.
#[verifier::external_body]
pub(crate) fn str_to_uppercase(s: &str) -> (r: String)
    ensures
        r@ == unicode_uppercase(s@),
        crate::text::is_ascii_text(s@) ==> r@ == crate::text::upper(s@),
{
    s.to_uppercase()
}

/// Calls `String::from_utf8`: it succeeds exactly on valid UTF-8 and then
/// holds the decoded characters.
#[verifier::external_body]
pub(crate) fn string_from_utf8(bytes: Vec<u8>) -> (r: Option<String>)
    ensures
        r is Some <==> vstd::utf8::valid_utf8(bytes@),
        r matches Some(s) ==> s@ == vstd::utf8::decode_utf8(bytes@),
{
    String::from_utf8(bytes).ok()
}

// ---------------------------------------------------------------------------
// std: the clock

/// Calls `SystemTime::now` and gives the whole seconds since the Unix epoch
/// (0 if the clock is before the epoch).  Nothing is promised of the value.
#[verifier::external_body]
pub(crate) fn unix_seconds_now() -> u64 {
    std::time::SystemTime::now().duration_since(std::time::UNIX_EPOCH).unwrap_or_default().as_secs()
}

/// Calls `SystemTime::now` and gives the milliseconds since the Unix epoch.
/// Nothing is promised of the value.
#[verifier::external_body]
pub(crate) fn unix_millis_now() -> u128 {
    std::time::SystemTime::now().duration_since(std::time::UNIX_EPOCH).unwrap_or_default().as_millis()
}


/// What `String::from_utf8_lossy` gives: the decoded text, with each
/// ill-formed sequence replaced by U+FFFD.
pub uninterp spec fn lossy_utf8(bytes: Seq<u8>) -> Seq<char>;

/// Calls `String::from_utf8_lossy`.  On valid UTF-8 it is plain decoding.
#[verifier::external_body]
pub(crate) fn utf8_lossy(bytes: &[u8]) -> (r: String)
    ensures
        r@ == lossy_utf8(bytes@),
        vstd::utf8::valid_utf8(bytes@) ==> r@ == vstd::utf8::decode_utf8(bytes@),
{
    String::from_utf8_lossy(bytes).into_owned()
}

// ---------------------------------------------------------------------------
// httparse: HTTP message heads

/// What `httparse::Request::parse` reports on `data` with room for
/// `max_headers` headers.
pub uninterp spec fn request_head(data: Seq<u8>, max_headers: usize) -> RawHeadView;

/// What `httparse::Response::parse` reports on `data` with room for
/// `max_headers` headers.
pub uninterp spec fn response_head(data: Seq<u8>, max_headers: usize) -> RawHeadView;

/// Calls `httparse::Request::parse` with a buffer of `max_headers` headers
/// and copies out what it found.  The report is named; of it the source
/// shows that a complete head ends within the data.
#[verifier::external_body]
pub(crate) fn parse_request_head(data: &[u8], max_headers: usize) -> (r: RawHead)
    ensures
        r@ == request_head(data@, max_headers),
        r.status matches HeadStatus::Complete(n) ==> n <= data.len(),
{
    let mut headers = vec![httparse::EMPTY_HEADER; max_headers];
    let mut req = httparse::Request::new(&mut headers);
    let status = match req.parse(data) {
        Ok(httparse::Status::Complete(n)) => HeadStatus::Complete(n),
        Ok(httparse::Status::Partial) => HeadStatus::Partial,
        Err(e) => HeadStatus::Failed(format!("{:?}", e)),
    };
    let headers = req.headers.iter().map(|h| (h.name.to_string(), h.value.to_vec())).collect();
    RawHead {
        status, method: req.method.map(|m| m.to_string()), path: req.path.map(|p| p.to_string()),
        version: req.version, code: None, reason: None, headers,
    }
}

/// Calls `httparse::Response::parse` with a buffer of `max_headers` headers
/// and copies out what it found.  The report is named; of it the source
/// shows that a complete head ends within the data.
#[verifier::external_body]
pub(crate) fn parse_response_head(data: &[u8], max_headers: usize) -> (r: RawHead)
    ensures
        r@ == response_head(data@, max_headers),
        r.status matches HeadStatus::Complete(n) ==> n <= data.len(),
{
    let mut headers = vec![httparse::EMPTY_HEADER; max_headers];
    let mut resp = httparse::Response::new(&mut headers);
    let status = match resp.parse(data) {
        Ok(httparse::Status::Complete(n)) => HeadStatus::Complete(n),
        Ok(httparse::Status::Partial) => HeadStatus::Partial,
        Err(e) => HeadStatus::Failed(format!("{:?}", e)),
    };
    let headers = resp.headers.iter().map(|h| (h.name.to_string(), h.value.to_vec())).collect();
    RawHead {
        status, method: None, path: None, version: resp.version, code: resp.code,
        reason: resp.reason.map(|r| r.to_string()), headers,
    }
}

// ---------------------------------------------------------------------------
// regex

/// The error text `regex::Regex::new` gives for pattern `p`, or `None`
/// where the pattern compiles.
pub uninterp spec fn regex_error(p: Seq<char>) -> Option<Seq<char>>;

/// What `regex::Regex::is_match` answers for pattern `p` on `t`.
pub uninterp spec fn regex_matches(p: Seq<char>, t: Seq<char>) -> bool;

/// What `regex::Regex::replace_all` gives for pattern `p` on `t` with the
/// replacement `r` (which may refer to groups as `$1` or `${name}`).
pub uninterp spec fn regex_replaced(p: Seq<char>, t: Seq<char>, r: Seq<char>) -> Seq<char>;

/// Calls `regex::Regex::new` and reports the error text, if any.
#[verifier::external_body]
pub(crate) fn regex_check(p: &str) -> (r: Option<String>)
    ensures
        crate::http::opt_view(r) == regex_error(p@),
{
    regex::Regex::new(p).err().map(|e| e.to_string())
}

/// Calls `regex::Regex::is_match` with the compiled pattern `p`.
#[verifier::external_body]
pub(crate) fn regex_is_match(p: &str, t: &str) -> (r: bool)
    requires
        regex_error(p@) is None,
    ensures
        r == regex_matches(p@, t@),
{
    regex::Regex::new(p).map(|re| re.is_match(t)).unwrap_or(false)
}

/// Calls `regex::Regex::replace_all` with the compiled pattern `p`.  As the
/// crate documents, a text with no match comes back unchanged.
#[verifier::external_body]
pub(crate) fn regex_replace_all(p: &str, t: &str, r: &str) -> (out: String)
    requires
        regex_error(p@) is None,
    ensures
        out@ == regex_replaced(p@, t@, r@),
        !regex_matches(p@, t@) ==> out@ == t@,
{
    regex::Regex::new(p).map(|re| re.replace_all(t, r).into_owned()).unwrap_or_default()
}

/// What `regex::Regex::replace` gives for pattern `p` on `t` with the
/// replacement `r`: the first match replaced.
pub uninterp spec fn regex_replaced_first(p: Seq<char>, t: Seq<char>, r: Seq<char>) -> Seq<char>;

/// Calls `regex::Regex::replace` (the first match) with the compiled
/// pattern `p`.  As the crate documents, a text with no match comes back
/// unchanged.
#[verifier::external_body]
pub(crate) fn regex_replace_first(p: &str, t: &str, r: &str) -> (out: String)
    requires
        regex_error(p@) is None,
    ensures
        out@ == regex_replaced_first(p@, t@, r@),
        !regex_matches(p@, t@) ==> out@ == t@,
{
    match regex::Regex::new(p) {
        Ok(re) => re.replace(t, r).into_owned(),
        Err(_) => String::new(),
    }
}

// ---------------------------------------------------------------------------
// flate2

/// What deflate compression at `level` makes of `data` (through
/// `flate2::write::DeflateEncoder`), or the text of the I/O error.
pub uninterp spec fn deflated(data: Seq<u8>, level: u8) -> Result<Seq<u8>, Seq<char>>;

/// What gzip compression at `level` makes of `data` (through
/// `flate2::write::GzEncoder`), or the text of the I/O error.
pub uninterp spec fn gzipped(data: Seq<u8>, level: u8) -> Result<Seq<u8>, Seq<char>>;

/// What `flate2::read::DeflateDecoder` reads from `data`, or the text of
/// the error (for data that is no deflate stream).
pub uninterp spec fn inflated(data: Seq<u8>) -> Result<Seq<u8>, Seq<char>>;

/// What `flate2::read::GzDecoder` reads from `data`, or the text of the error.
pub uninterp spec fn gunzipped(data: Seq<u8>) -> Result<Seq<u8>, Seq<char>>;

pub open spec fn bytes_result_view(r: Result<Vec<u8>, String>) -> Result<Seq<u8>, Seq<char>> {
    match r {
        Ok(v) => Ok(v@),
        Err(e) => Err(e@),
    }
}

/// Compresses with `flate2::write::DeflateEncoder` (write all, then finish).
/// Its miniz backend asserts, in debug builds, a level of at most 10.
/// Deflate is lossless: `DeflateDecoder` reads the data back from the result.
#[verifier::external_body]
pub(crate) fn deflate_compress(data: &[u8], level: u8) -> (r: Result<Vec<u8>, String>)
    requires
        level <= 10,
    ensures
        bytes_result_view(r) == deflated(data@, level),
        r matches Ok(c) ==> (inflated(c@) matches Ok(d) && d == data@),
{
    let mut e = flate2::write::DeflateEncoder::new(Vec::new(), flate2::Compression::new(level as u32));
    e.write_all(data).map_err(|x| x.to_string())?;
    e.finish().map_err(|x| x.to_string())
}

/// Compresses with `flate2::write::GzEncoder` (write all, then finish).
/// Its miniz backend asserts, in debug builds, a level of at most 10.
/// Gzip is lossless: `GzDecoder` reads the data back from the result.
#[verifier::external_body]
pub(crate) fn gzip_compress(data: &[u8], level: u8) -> (r: Result<Vec<u8>, String>)
    requires
        level <= 10,
    ensures
        bytes_result_view(r) == gzipped(data@, level),
        r matches Ok(c) ==> (gunzipped(c@) matches Ok(d) && d == data@),
{
    let mut e = flate2::write::GzEncoder::new(Vec::new(), flate2::Compression::new(level as u32));
    e.write_all(data).map_err(|x| x.to_string())?;
    e.finish().map_err(|x| x.to_string())
}

/// Decompresses with `flate2::read::DeflateDecoder` (read to the end).
#[verifier::external_body]
pub(crate) fn deflate_decompress(data: &[u8]) -> (r: Result<Vec<u8>, String>)
    ensures
        bytes_result_view(r) == inflated(data@),
{
    let mut out = Vec::new();
    flate2::read::DeflateDecoder::new(data).read_to_end(&mut out).map_err(|x| x.to_string())?;
    Ok(out)
}

/// Decompresses with `flate2::read::GzDecoder` (read to the end).
#[verifier::external_body]
pub(crate) fn gzip_decompress(data: &[u8]) -> (r: Result<Vec<u8>, String>)
    ensures
        bytes_result_view(r) == gunzipped(data@),
{
    let mut out = Vec::new();
    flate2::read::GzDecoder::new(data).read_to_end(&mut out).map_err(|x| x.to_string())?;
    Ok(out)
}

// ---------------------------------------------------------------------------
// base64

/// What `base64::engine::general_purpose::STANDARD.encode` gives for `data`.
pub uninterp spec fn base64_encoded(data: Seq<u8>) -> Seq<char>;

/// What `base64::engine::general_purpose::STANDARD.decode` gives for
/// `text`: the bytes, or `None` where it reports an error.
pub uninterp spec fn base64_decoded(text: Seq<char>) -> Option<Seq<u8>>;

/// Encodes with the standard alphabet and padding.  The same engine
/// decodes the result back to `data`.
#[verifier::external_body]
pub(crate) fn b64_encode(data: &[u8]) -> (r: String)
    ensures
        r@ == base64_encoded(data@),
        base64_decoded(r@) == Some(data@),
{
    base64::engine::general_purpose::STANDARD.encode(data)
}

/// Decodes with the standard alphabet and padding; `None` on an error.
#[verifier::external_body]
pub(crate) fn b64_decode(text: &str) -> (r: Option<Vec<u8>>)
    ensures
        match (r, base64_decoded(text@)) {
            (Some(v), Some(d)) => v@ == d,
            (None, None) => true,
            _ => false,
        },
{
    base64::engine::general_purpose::STANDARD.decode(text).ok()
}

// ---------------------------------------------------------------------------
// chrono

/// What `chrono::DateTime::from_timestamp(secs, 0)` (the Unix epoch where
/// that gives `None`), formatted with `%Y-%m-%d %H:%M:%S`, reads.  The time
/// is UTC, so the text depends on `secs` alone.
pub uninterp spec fn utc_text(secs: i64) -> Seq<char>;

/// Formats a Unix time in UTC as `YYYY-MM-DD HH:MM:SS`.
#[verifier::external_body]
pub(crate) fn format_utc(secs: i64) -> (r: String)
    ensures
        r@ == utc_text(secs),
{
    chrono::DateTime::from_timestamp(secs, 0).unwrap_or_default().format("%Y-%m-%d %H:%M:%S").to_string()
}

/// What `chrono::DateTime::from_timestamp(secs, 0)` formatted with
/// `%a, %d %b %Y %H:%M:%S GMT` gives, or `None` where the time is out of
/// chrono's range.
pub uninterp spec fn http_date(secs: i64) -> Option<Seq<char>>;

/// Formats a Unix time as an HTTP date in GMT, where chrono can represent it.
#[verifier::external_body]
pub(crate) fn format_http_date(secs: i64) -> (r: Option<String>)
    ensures
        crate::http::opt_view(r) == http_date(secs),
{
    match chrono::DateTime::from_timestamp(secs, 0) {
        Some(d) => Some(d.format("%a, %d %b %Y %H:%M:%S GMT").to_string()),
        None => None,
    }
}

// ---------------------------------------------------------------------------
// rand

/// A random number drawn by `rand::Rng::gen_range(0..bound)` from the
/// thread's generator.  The range must not be empty (the call panics on
/// an empty range); the number lies in it.
#[verifier::external_body]
pub(crate) fn random_below(bound: i64) -> (r: i64)
    requires
        bound > 0,
    ensures
        0 <= r < bound,
{
    rand::thread_rng().gen_range(0..bound)
}


// ---------------------------------------------------------------------------
// std::path

/// Whether `std::path::Path::is_absolute` holds of the path `p` on the
/// target the crate is built for (on Unix, a path that starts at the root).
pub uninterp spec fn path_absolute(p: Seq<char>) -> bool;

/// What `Path::new(dir).join(p)` gives, as text, on the target the crate
/// is built for.
pub uninterp spec fn path_joined(dir: Seq<char>, p: Seq<char>) -> Seq<char>;

/// What `Path::new(p).parent()` gives, as text, on the target the crate is
/// built for.
pub uninterp spec fn path_parent(p: Seq<char>) -> Option<Seq<char>>;

/// Calls `std::path::Path::is_absolute`.
#[verifier::external_body]
pub(crate) fn is_absolute_path(p: &str) -> (r: bool)
    ensures
        r == path_absolute(p@),
{
    std::path::Path::new(p).is_absolute()
}

/// Calls `std::path::Path::join`; the joined path of two texts is text.
#[verifier::external_body]
pub(crate) fn join_path(dir: &str, p: &str) -> (r: String)
    ensures
        r@ == path_joined(dir@, p@),
{
    std::path::Path::new(dir).join(p).to_string_lossy().into_owned()
}

/// Calls `std::path::Path::parent`; the parent of a text path is text.
#[verifier::external_body]
pub(crate) fn parent_path(p: &str) -> (r: Option<String>)
    ensures
        match (r, path_parent(p@)) {
            (Some(x), Some(y)) => x@ == y,
            (None, None) => true,
            _ => false,
        },
{
    std::path::Path::new(p).parent().map(|x| x.to_string_lossy().into_owned())
}


/// Reads `std::path::MAIN_SEPARATOR`, which its documentation gives as `/`
/// on Unix and `\` on Windows.
#[verifier::external_body]
pub(crate) fn main_separator() -> (r: char)
    ensures
        r == '/' || r == '\\',
{
    std::path::MAIN_SEPARATOR
}

} // verus!
