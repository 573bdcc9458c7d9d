//! Content compression: the algorithms the proxy knows and the calls into
//! the deflate and gzip codecs.

use vstd::prelude::*;
use crate::text::{lower, push_str, chars_of, lower_vec, seq_eq};
use crate::error::{PrivoxyError, PrivoxyResult};
use crate::bindings::{
    deflate_compress, gzip_compress, deflate_decompress, gzip_decompress, deflated, gzipped,
    inflated, gunzipped,
};
use vstd::slice::slice_to_vec;

verus! {

pub const COMPRESSION_LEVEL_DEFAULT: u8 = 6;
pub const COMPRESSION_LEVEL_MIN: u8 = 0;
pub const COMPRESSION_LEVEL_MAX: u8 = 9;
pub const COMPRESSION_LEVEL_FASTEST: u8 = 1;
pub const COMPRESSION_LEVEL_BEST: u8 = 9;

/// The compression algorithms the proxy knows.
#[derive(Debug, Clone, Copy, PartialEq, Eq, Structural)]
pub enum CompressionAlgorithm {
    /// No compression.
    Identity,
    Deflate,
    Gzip,
}

/// The algorithm a content-coding name gives, ASCII case ignored.
pub open spec fn algorithm_named(s: Seq<char>) -> Option<CompressionAlgorithm> {
    let l = lower(s);
    if l == "none"@ || l == "identity"@ {
        Some(CompressionAlgorithm::Identity)
    } else if l == "deflate"@ {
        Some(CompressionAlgorithm::Deflate)
    } else if l == "gzip"@ || l == "x-gzip"@ {
        Some(CompressionAlgorithm::Gzip)
    } else {
        None
    }
}

fn vec_is(v: &Vec<char>, s: &str) -> (r: bool)
    ensures
        r == (v@ == s@),
{
    let w = chars_of(s);
    seq_eq(v, &w)
}

impl CompressionAlgorithm {
    /// The algorithm of a content-coding name.
    pub fn from_str(s: &str) -> (r: Option<Self>)
        ensures
            r == algorithm_named(s@),
    {
        let l = lower_vec(&chars_of(s));
        if vec_is(&l, "none") || vec_is(&l, "identity") {
            Some(CompressionAlgorithm::Identity)
        } else if vec_is(&l, "deflate") {
            Some(CompressionAlgorithm::Deflate)
        } else if vec_is(&l, "gzip") || vec_is(&l, "x-gzip") {
            Some(CompressionAlgorithm::Gzip)
        } else {
            None
        }
    }

    /// The algorithm's content-coding name.
    pub fn as_str(&self) -> (r: &'static str)
        ensures
            r@ == match *self {
                CompressionAlgorithm::Identity => "identity"@,
                CompressionAlgorithm::Deflate => "deflate"@,
                CompressionAlgorithm::Gzip => "gzip"@,
            },
    {
        match self {
            CompressionAlgorithm::Identity => "identity",
            CompressionAlgorithm::Deflate => "deflate",
            CompressionAlgorithm::Gzip => "gzip",
        }
    }

    /// The `Content-Encoding` value for the algorithm; none for no compression.
    pub fn content_encoding(&self) -> (r: Option<&'static str>)
        ensures
            match *self {
                CompressionAlgorithm::Identity => r is None,
                CompressionAlgorithm::Deflate => r matches Some(x) && x@ == "deflate"@,
                CompressionAlgorithm::Gzip => r matches Some(x) && x@ == "gzip"@,
            },
    {
        match self {
            CompressionAlgorithm::Identity => None,
            CompressionAlgorithm::Deflate => Some("deflate"),
            CompressionAlgorithm::Gzip => Some("gzip"),
        }
    }
}

pub open spec fn compress_error<T>(r: PrivoxyResult<T>, m: Seq<char>) -> bool {
    r matches Err(PrivoxyError::Compress(x)) && x@ == m
}

fn compress_err(prefix: &str, e: String) -> (r: PrivoxyError)
    ensures
        r matches PrivoxyError::Compress(x) && x@ == prefix@ + e@,
{
    let mut m = String::new();
    push_str(&mut m, prefix);
    push_str(&mut m, e.as_str());
    PrivoxyError::Compress(m)
}

/// Compresses with deflate at `level`; flate2 takes levels up to 10.
pub fn compress_deflate(data: &[u8], level: u8) -> (r: PrivoxyResult<Vec<u8>>)
    requires
        level <= 10,
    ensures
        match deflated(data@, level) {
            Ok(v) => r matches Ok(x) && x@ == v,
            Err(e) => compress_error(r, "Deflate compression failed: "@ + e),
        },
        r matches Ok(x) ==> inflated(x@) == Ok::<Seq<u8>, Seq<char>>(data@),
{
    match deflate_compress(data, level) {
        Ok(v) => Ok(v),
        Err(e) => Err(compress_err("Deflate compression failed: ", e)),
    }
}

/// Compresses with gzip at `level`; flate2 takes levels up to 10.
pub fn compress_gzip(data: &[u8], level: u8) -> (r: PrivoxyResult<Vec<u8>>)
    requires
        level <= 10,
    ensures
        match gzipped(data@, level) {
            Ok(v) => r matches Ok(x) && x@ == v,
            Err(e) => compress_error(r, "Gzip compression failed: "@ + e),
        },
        r matches Ok(x) ==> gunzipped(x@) == Ok::<Seq<u8>, Seq<char>>(data@),
{
    match gzip_compress(data, level) {
        Ok(v) => Ok(v),
        Err(e) => Err(compress_err("Gzip compression failed: ", e)),
    }
}

/// Decompresses deflate data.
pub fn decompress_deflate(data: &[u8]) -> (r: PrivoxyResult<Vec<u8>>)
    ensures
        match inflated(data@) {
            Ok(v) => r matches Ok(x) && x@ == v,
            Err(e) => compress_error(r, "Deflate decompression failed: "@ + e),
        },
{
    match deflate_decompress(data) {
        Ok(v) => Ok(v),
        Err(e) => Err(compress_err("Deflate decompression failed: ", e)),
    }
}

/// Decompresses gzip data.
pub fn decompress_gzip(data: &[u8]) -> (r: PrivoxyResult<Vec<u8>>)
    ensures
        match gunzipped(data@) {
            Ok(v) => r matches Ok(x) && x@ == v,
            Err(e) => compress_error(r, "Gzip decompression failed: "@ + e),
        },
{
    match gzip_decompress(data) {
        Ok(v) => Ok(v),
        Err(e) => Err(compress_err("Gzip decompression failed: ", e)),
    }
}

/// What decompressing `data` with `algorithm` gives: the data unpacked,
/// or the text of the error.
pub open spec fn decompressed_with(algorithm: CompressionAlgorithm, data: Seq<u8>) -> Result<Seq<u8>, Seq<char>> {
    match algorithm {
        CompressionAlgorithm::Identity => Ok(data),
        CompressionAlgorithm::Deflate => inflated(data),
        CompressionAlgorithm::Gzip => gunzipped(data),
    }
}

/// Compresses with the given algorithm; no compression copies the data.
/// Decompressing the result with the same algorithm gives back `data`.
pub fn compress(data: &[u8], algorithm: CompressionAlgorithm, level: u8) -> (r: PrivoxyResult<Vec<u8>>)
    requires
        level <= 10,
    ensures
        match algorithm {
            CompressionAlgorithm::Identity => r matches Ok(x) && x@ == data@,
            CompressionAlgorithm::Deflate => match deflated(data@, level) {
                Ok(v) => r matches Ok(x) && x@ == v,
                Err(e) => compress_error(r, "Deflate compression failed: "@ + e),
            },
            CompressionAlgorithm::Gzip => match gzipped(data@, level) {
                Ok(v) => r matches Ok(x) && x@ == v,
                Err(e) => compress_error(r, "Gzip compression failed: "@ + e),
            },
        },
        r matches Ok(x) ==> decompressed_with(algorithm, x@) == Ok::<Seq<u8>, Seq<char>>(data@),
{
    match algorithm {
        CompressionAlgorithm::Identity => Ok(slice_to_vec(data)),
        CompressionAlgorithm::Deflate => compress_deflate(data, level),
        CompressionAlgorithm::Gzip => compress_gzip(data, level),
    }
}

/// Decompresses with the given algorithm; no compression copies the data.
pub fn decompress(data: &[u8], algorithm: CompressionAlgorithm) -> (r: PrivoxyResult<Vec<u8>>)
    ensures
        match algorithm {
            CompressionAlgorithm::Identity => r matches Ok(x) && x@ == data@,
            CompressionAlgorithm::Deflate => match inflated(data@) {
                Ok(v) => r matches Ok(x) && x@ == v,
                Err(e) => compress_error(r, "Deflate decompression failed: "@ + e),
            },
            CompressionAlgorithm::Gzip => match gunzipped(data@) {
                Ok(v) => r matches Ok(x) && x@ == v,
                Err(e) => compress_error(r, "Gzip decompression failed: "@ + e),
            },
        },
{
    match algorithm {
        CompressionAlgorithm::Identity => Ok(slice_to_vec(data)),
        CompressionAlgorithm::Deflate => decompress_deflate(data),
        CompressionAlgorithm::Gzip => decompress_gzip(data),
    }
}

/// A bound on the size of deflate output: 0.1% more plus 12 bytes.
pub fn compress_bound(input_len: usize) -> (r: usize)
    requires
        input_len + input_len / 1000 + 12 <= usize::MAX,
    ensures
        r == input_len + input_len / 1000 + 12,
{
    input_len + (input_len / 1000) + 12
}

/// Whether data is large enough to be worth compressing.
pub fn should_compress(data: &[u8], min_size: usize) -> (r: bool)
    ensures
        r == (data@.len() >= min_size),
{
    data.len() >= min_size
}

} // verus!
