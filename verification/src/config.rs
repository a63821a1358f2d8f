//! Configuration for the connection pool.

use vstd::prelude::*;

use crate::outside::cpu_count;

verus! {

/// Configuration for the cache pool.
#[derive(Clone)]
pub struct Config {
    /// Connection string of the cache service; only host and port matter.
    pub database_url: String,
    /// Deadline for read operations, in milliseconds.
    pub read_timeout_ms: u64,
    /// Deadline for write operations, in milliseconds.
    pub write_timeout_ms: u64,
    /// Number of connections in the pool.
    pub max_size: usize,
    /// Concurrent reads tolerated per connection; reads hold while
    /// `max_size * concurrency` of them are in progress.
    pub concurrency: usize,
}

/// Safe and performant default for reads in flight per connection.
pub const DEFAULT_CONCURRENCY: usize = 4;

impl Default for Config {
    /// One connection per CPU, the default concurrency factor, and
    /// hundred-millisecond deadlines.
    fn default() -> (c: Config)
        ensures
            c.database_url@ == "redis://127.0.0.1/"@,
            c.read_timeout_ms == 100,
            c.write_timeout_ms == 100,
            c.max_size >= 1,
            c.concurrency == DEFAULT_CONCURRENCY,
    {
        Config {
            database_url: "redis://127.0.0.1/".to_owned(),
            read_timeout_ms: 100,
            write_timeout_ms: 100,
            max_size: cpu_count(),
            concurrency: DEFAULT_CONCURRENCY,
        }
    }
}

} // verus!
