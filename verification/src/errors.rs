//! The error type shared by the pool and the cache helpers.
//!
//! Timeouts are a distinguished error kind, not a generic transport failure,
//! so that callers can degrade gracefully (serve the request uncached)
//! instead of failing it.

use vstd::prelude::*;

verus! {

/// An error raised by an operation against the cache service.
///
/// `timeout` is true exactly when the operation exceeded its deadline;
/// every other failure (transport, parse) leaves it false.
#[derive(Debug)]
pub struct CacheError {
    pub reason: String,
    pub timeout: bool,
}

impl CacheError {
    /// A non-timeout failure carrying a human-readable reason.
    pub fn new(reason: String) -> (e: CacheError)
        ensures
            e.reason == reason,
            !e.timeout,
    {
        CacheError { reason, timeout: false }
    }

    /// A failure caused by an elapsed deadline.
    pub fn new_timeout(reason: String) -> (e: CacheError)
        ensures
            e.reason == reason,
            e.timeout,
    {
        CacheError { reason, timeout: true }
    }

    /// The reason, for display at the edge of the system.
    pub fn message(&self) -> (r: String)
        ensures
            r@ == self.reason@,
    {
        self.reason.clone()
    }
}

} // verus!
