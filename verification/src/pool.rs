//! The connection pool: a round-robin selector over a fixed number of
//! connection slots, a counting semaphore bounding concurrent reads, and
//! the keyspace of `store` under a logical millisecond clock.
//!
//! Reads are gated by a semaphore sized `max_size * concurrency`; writes
//! deliberately are not. Connection selection is an incrementing counter
//! taken modulo the pool size, with no per-slot locking. A store and a
//! millisecond expiry issued by `add` travel through the same slot, so
//! their relative order is guaranteed.

use vstd::prelude::*;

use crate::config::Config;
use crate::errors::CacheError;
use crate::store::CacheStore;
use crate::store::StoredEntry;
use crate::store::spec_get;
use crate::store::spec_lookup;
use crate::store::view_opt_string;
use crate::text::contains_seq;

verus! {

/// Durations handed to `add` are in milliseconds.
pub type Milliseconds = usize;

/// The pool. `current` is the round-robin counter; `permits_in_use` counts
/// reads in flight against `capacity == max_size * concurrency`.
pub struct CachePool {
    pub store: CacheStore,
    pub published: Vec<(String, String)>,
    pub now_ms: u64,
    pub current: usize,
    pub max_size: usize,
    pub concurrency: usize,
    pub capacity: usize,
    pub permits_in_use: usize,
    pub read_timeout_ms: u64,
    pub write_timeout_ms: u64,
}

impl CachePool {
    /// Structural well-formedness: at least one connection, the semaphore
    /// sized by the configuration, and no more permits out than it holds.
    pub open spec fn wf(self) -> bool {
        &&& self.max_size >= 1
        &&& self.capacity == self.max_size * self.concurrency
        &&& self.permits_in_use <= self.capacity
    }

    /// The configuration fields of `a` and `b` agree.
    pub open spec fn same_shape(a: CachePool, b: CachePool) -> bool {
        &&& a.max_size == b.max_size
        &&& a.concurrency == b.concurrency
        &&& a.capacity == b.capacity
        &&& a.read_timeout_ms == b.read_timeout_ms
        &&& a.write_timeout_ms == b.write_timeout_ms
    }

    /// Builds a pool from its configuration: an empty keyspace, the clock
    /// at zero and no reads in flight. Fails exactly when the configured
    /// pool size is zero or the semaphore size does not fit.
    pub fn from_config(config: &Config) -> (r: Result<CachePool, CacheError>)
        ensures
            (r is Ok) == (config.max_size >= 1 && config.max_size * config.concurrency
                <= usize::MAX),
            r is Ok ==> {
                let p = r->Ok_0;
                &&& p.wf()
                &&& p.max_size == config.max_size
                &&& p.concurrency == config.concurrency
                &&& p.read_timeout_ms == config.read_timeout_ms
                &&& p.write_timeout_ms == config.write_timeout_ms
                &&& p.now_ms == 0
                &&& p.current == 0
                &&& p.permits_in_use == 0
                &&& p.published@.len() == 0
                &&& p.store.entries@.len() == 0
                &&& forall|k: Seq<char>| spec_lookup(p.store.entries@, k) is None
            },
    {
        if config.max_size == 0 {
            return Result::Err(CacheError::new("pool size must be at least one".to_owned()));
        }
        let capacity = match config.max_size.checked_mul(config.concurrency) {
            Option::Some(c) => c,
            Option::None => {
                return Result::Err(
                    CacheError::new("pool concurrency bound does not fit".to_owned()),
                );
            },
        };
        Result::Ok(
            CachePool {
                store: CacheStore::new(),
                published: Vec::new(),
                now_ms: 0,
                current: 0,
                max_size: config.max_size,
                concurrency: config.concurrency,
                capacity,
                permits_in_use: 0,
                read_timeout_ms: config.read_timeout_ms,
                write_timeout_ms: config.write_timeout_ms,
            },
        )
    }

    /// Selects the connection slot for the next operation: the counter
    /// modulo the pool size, advancing the counter. Slots are never locked;
    /// the protocol tolerates pipelined use up to the semaphore bound.
    pub fn next_conn_index(&mut self) -> (idx: usize)
        requires
            old(self).wf(),
        ensures
            idx == old(self).current % old(self).max_size,
            idx < old(self).max_size,
            *final(self) == (CachePool { current: old(self).current.wrapping_add(1), ..*old(
                self,
            ) }),
            final(self).wf(),
    {
        let idx = self.current % self.max_size;
        self.current = self.current.wrapping_add(1);
        idx
    }

    /// Takes one read permit if the semaphore has one free; returns whether
    /// it did. A read that finds no permit must wait for a release: with
    /// the semaphore full this function never grants.
    pub fn try_acquire_read_permit(&mut self) -> (granted: bool)
        requires
            old(self).wf(),
        ensures
            granted == (old(self).permits_in_use < old(self).capacity),
            granted ==> *final(self) == (CachePool {
                permits_in_use: (old(self).permits_in_use + 1) as usize,
                ..*old(self)
            }),
            !granted ==> *final(self) == *old(self),
            final(self).wf(),
    {
        if self.permits_in_use < self.capacity {
            self.permits_in_use = self.permits_in_use + 1;
            true
        } else {
            false
        }
    }

    /// Returns one read permit. Callers release unconditionally, whether
    /// the gated operation succeeded, failed or timed out.
    pub fn release_read_permit(&mut self)
        requires
            old(self).wf(),
            old(self).permits_in_use >= 1,
        ensures
            *final(self) == (CachePool {
                permits_in_use: (old(self).permits_in_use - 1) as usize,
                ..*old(self)
            }),
            final(self).wf(),
    {
        self.permits_in_use = self.permits_in_use - 1;
    }

    /// Reads `key`: the stored value if present and unexpired. The read
    /// uses one connection slot, so the round-robin counter advances; the
    /// keyspace and the permit count are untouched. The semaphore that
    /// gates reads is exercised through `try_acquire_read_permit` and
    /// `release_read_permit`, which a driver holds around a read that can
    /// actually be in flight; this in-process read completes at once.
    pub fn get(&mut self, key: &str) -> (r: Option<String>)
        requires
            old(self).wf(),
        ensures
            view_opt_string(r) == spec_get(old(self).store.entries@, key@, old(self).now_ms),
            *final(self) == (CachePool { current: old(self).current.wrapping_add(1), ..*old(
                self,
            ) }),
            final(self).wf(),
    {
        let _idx = self.next_conn_index();
        self.store.get(key, self.now_ms)
    }

    /// Stores `data` under `key`. A time-to-live, when given, sets a
    /// millisecond expiry relative to the clock now, issued on the same
    /// connection slot as the store itself.
    pub fn add(&mut self, key: &str, data: &str, ttl: Option<Milliseconds>)
        requires
            old(self).wf(),
        ensures
            spec_lookup(final(self).store.entries@, key@) is Some,
            spec_lookup(final(self).store.entries@, key@)->0.key@ == key@,
            spec_lookup(final(self).store.entries@, key@)->0.value@ == data@,
            spec_lookup(final(self).store.entries@, key@)->0.expires_at == match ttl {
                Option::Some(t) => Option::Some(
                    if old(self).now_ms + t > u64::MAX {
                        u64::MAX
                    } else {
                        (old(self).now_ms + t) as u64
                    },
                ),
                Option::None => Option::<u64>::None,
            },
            forall|k: Seq<char>|
                k != key@ ==> spec_lookup(final(self).store.entries@, k) == spec_lookup(
                    old(self).store.entries@,
                    k,
                ),
            final(self).now_ms == old(self).now_ms,
            final(self).published@ == old(self).published@,
            final(self).permits_in_use == old(self).permits_in_use,
            CachePool::same_shape(*final(self), *old(self)),
            final(self).wf(),
    {
        let _idx = self.next_conn_index();
        let expires_at = match ttl {
            Option::Some(t) => {
                let t64 = t as u64;
                let room = u64::MAX - self.now_ms;
                if t64 > room {
                    Option::Some(u64::MAX)
                } else {
                    Option::Some(self.now_ms + t64)
                }
            },
            Option::None => Option::None,
        };
        self.store.add(key, data, expires_at);
    }

    /// Removes the entry stored under exactly `key`, if any.
    pub fn delete(&mut self, key: &str)
        requires
            old(self).wf(),
        ensures
            spec_lookup(final(self).store.entries@, key@) is None,
            forall|k: Seq<char>|
                k != key@ ==> spec_lookup(final(self).store.entries@, k) == spec_lookup(
                    old(self).store.entries@,
                    k,
                ),
            final(self).now_ms == old(self).now_ms,
            final(self).published@ == old(self).published@,
            final(self).permits_in_use == old(self).permits_in_use,
            CachePool::same_shape(*final(self), *old(self)),
            final(self).wf(),
    {
        let _idx = self.next_conn_index();
        self.store.delete(key);
    }

    /// Walks the keyspace and removes every entry whose key contains
    /// `key_fragment` as a literal substring, batching deletions page by
    /// page until the scan cursor returns to its start sentinel.
    pub fn delete_by_key_fragment(&mut self, key_fragment: &str)
        requires
            old(self).wf(),
        ensures
            forall|k: Seq<char>|
                spec_lookup(final(self).store.entries@, k) == (if contains_seq(
                    k,
                    key_fragment@,
                ) {
                    Option::<StoredEntry>::None
                } else {
                    spec_lookup(old(self).store.entries@, k)
                }),
            final(self).now_ms == old(self).now_ms,
            final(self).published@ == old(self).published@,
            final(self).permits_in_use == old(self).permits_in_use,
            CachePool::same_shape(*final(self), *old(self)),
            final(self).wf(),
    {
        let _idx = self.next_conn_index();
        self.store.delete_by_fragment(key_fragment);
    }

    /// Publishes `message` on `channel` for the fan-out subscriber.
    pub fn publish(&mut self, channel: &str, message: &str)
        requires
            old(self).wf(),
        ensures
            final(self).published@.len() == old(self).published@.len() + 1,
            final(self).published@.last().0@ == channel@,
            final(self).published@.last().1@ == message@,
            forall|i: int|
                0 <= i < old(self).published@.len() ==> final(self).published@[i] == old(
                    self,
                ).published@[i],
            final(self).store.entries@ == old(self).store.entries@,
            final(self).now_ms == old(self).now_ms,
            final(self).permits_in_use == old(self).permits_in_use,
            CachePool::same_shape(*final(self), *old(self)),
            final(self).wf(),
    {
        let _idx = self.next_conn_index();
        self.published.push((channel.to_owned(), message.to_owned()));
    }

    /// Advances the logical clock by `ms` milliseconds, saturating at the
    /// clock's maximum.
    pub fn advance_clock(&mut self, ms: u64)
        requires
            old(self).wf(),
        ensures
            final(self).now_ms == (if old(self).now_ms + ms > u64::MAX {
                u64::MAX
            } else {
                (old(self).now_ms + ms) as u64
            }),
            final(self).store.entries@ == old(self).store.entries@,
            final(self).published@ == old(self).published@,
            final(self).current == old(self).current,
            final(self).permits_in_use == old(self).permits_in_use,
            CachePool::same_shape(*final(self), *old(self)),
            final(self).wf(),
    {
        let room = u64::MAX - self.now_ms;
        if ms > room {
            self.now_ms = u64::MAX;
        } else {
            self.now_ms = self.now_ms + ms;
        }
    }

    /// The logical clock, in milliseconds.
    pub fn now(&self) -> (t: u64)
        ensures
            t == self.now_ms,
    {
        self.now_ms
    }
}

} // verus!
