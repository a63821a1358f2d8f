//! A transparent response-cache and event fan-out layer.
//!
//! The crate models the three components of the layer and verifies their
//! behaviour:
//! - a bounded-concurrency connection pool to a key/value + pub-sub service
//!   (`pool`), backed here by a TTL key/value store with a logical clock
//!   (`store`);
//! - a request-interception cache middleware implementing a
//!   lookup/store/invalidate/ETag state machine keyed on
//!   method + path + sorted query + identity (`middleware`, `keys`);
//! - a pub-sub-driven fan-out component pushing domain events to live
//!   per-resource listener connections (`fanout`).

pub mod caching;
pub mod config;
pub mod errors;
pub mod fanout;
pub mod http;
pub mod keys;
pub mod laws;
pub mod middleware;
pub mod outside;
pub mod pool;
pub mod store;
pub mod support;
pub mod text;
