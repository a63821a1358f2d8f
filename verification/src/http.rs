//! The plain request/response model the middleware operates on, and the
//! weak validation tag attached to cacheable responses.
//!
//! The tag is a 64-bit FNV-1a digest of the canonical JSON body, rendered
//! as a weak entity tag. Equal canonical bodies always carry equal tags,
//! which is what conditional requests compare.

use vstd::prelude::*;

use crate::text::hex_digits;
use crate::text::u64_to_hex;

verus! {

/// The request methods the middleware distinguishes.
#[derive(Clone, Copy, PartialEq, Eq, Structural)]
pub enum Method {
    Get,
    Post,
    Put,
    Patch,
    Delete,
    Head,
    Options,
}

/// Whether a method writes, so a completed request must invalidate.
pub open spec fn is_mutating(m: Method) -> bool {
    m is Put || m is Patch || m is Post || m is Delete
}

/// What the middleware reads from an incoming request.
pub struct CacheRequest {
    pub method: Method,
    /// The request path.
    pub path: String,
    /// The raw query string, still form-encoded.
    pub query: String,
    /// Whether the cache-bypass header is present (any value).
    pub bypass: bool,
    /// The conditional validation tag the client replayed, if any.
    pub if_none_match: Option<String>,
}

/// What the middleware reads and writes on a response.
pub struct CacheResponse {
    pub status: u16,
    pub body: String,
    /// Whether the wrapped handler attached an error to this response.
    pub error: bool,
    /// The served-from-cache marker header.
    pub cached_marker: bool,
    /// The cache-control header value, once attached.
    pub cache_control: Option<String>,
    /// The validation tag header value, once attached.
    pub etag: Option<String>,
}

/// The ghost image of a response, for stating contracts.
pub struct RespModel {
    pub status: u16,
    pub body: Seq<char>,
    pub error: bool,
    pub cached_marker: bool,
    pub cache_control: Option<Seq<char>>,
    pub etag: Option<Seq<char>>,
}

/// The ghost image of a concrete response.
pub open spec fn resp_model(r: CacheResponse) -> RespModel {
    RespModel {
        status: r.status,
        body: r.body@,
        error: r.error,
        cached_marker: r.cached_marker,
        cache_control: match r.cache_control {
            Option::Some(v) => Option::Some(v@),
            Option::None => Option::None,
        },
        etag: match r.etag {
            Option::Some(v) => Option::Some(v@),
            Option::None => Option::None,
        },
    }
}

/// The FNV-1a offset basis.
pub open spec fn fnv_offset() -> u64 {
    0xcbf29ce484222325
}

/// The FNV-1a prime.
pub open spec fn fnv_prime() -> u64 {
    0x100000001b3
}

/// One FNV-1a step: fold a character's scalar value into the digest.
pub open spec fn fnv_step(h: u64, c: char) -> u64 {
    vstd::wrapping::u64_specs::wrapping_mul(h ^ (c as u64), fnv_prime())
}

/// The FNV-1a digest of a character sequence.
pub open spec fn fnv64(s: Seq<char>) -> u64
    decreases s.len(),
{
    if s.len() == 0 {
        fnv_offset()
    } else {
        fnv_step(fnv64(s.drop_last()), s.last())
    }
}

/// The weak validation tag of a canonical body.
pub open spec fn spec_etag(canon: Seq<char>) -> Seq<char> {
    "W/\""@ + hex_digits(fnv64(canon) as nat) + "\""@
}

/// Computes the weak validation tag of a canonical body, proved against
/// `spec_etag`: equal canonical bodies always yield equal tags.
pub fn compute_etag(canon: &str) -> (r: String)
    ensures
        r@ == spec_etag(canon@),
{
    let n = canon.unicode_len();
    let mut h: u64 = 0xcbf29ce484222325;
    let mut i: usize = 0;
    proof {
        assert(canon@.take(0) =~= Seq::empty());
    }
    while i < n
        invariant
            n == canon@.len(),
            0 <= i <= n,
            h == fnv64(canon@.take(i as int)),
        decreases n - i,
    {
        let c = canon.get_char(i);
        h = (h ^ (c as u64)).wrapping_mul(0x100000001b3);
        proof {
            assert(canon@.take(i + 1).drop_last() =~= canon@.take(i as int));
            assert(canon@.take(i + 1).last() == canon@[i as int]);
        }
        i += 1;
    }
    proof {
        assert(canon@.take(n as int) =~= canon@);
    }
    let hex = u64_to_hex(h);
    let mut out = String::from_str("W/\"");
    out.append(hex.as_str());
    out.append("\"");
    out
}

} // verus!
