//! Helpers between the middleware and the pool: every operation here is a
//! no-op when no cache service is configured, so requests behave exactly
//! as if caching did not exist, and no failure here can fail a request.

use vstd::prelude::*;

use crate::keys::pairs_view;
use crate::keys::serialize_cache_data;
use crate::keys::spec_serialize;
use crate::outside::canon_json;
use crate::outside::json_canon_of;
use crate::pool::CachePool;
use crate::store::StoredEntry;
use crate::store::spec_get;
use crate::store::spec_lookup;
use crate::store::view_opt_string;
use crate::text::contains_seq;

verus! {

/// The optional handle to the cache service. `inner` is `None` when the
/// service is unconfigured or unavailable; every helper then does nothing.
pub struct CacheDatabase {
    pub inner: Option<CachePool>,
}

/// A database handle is well-formed when its pool, if any, is.
pub open spec fn db_wf(db: CacheDatabase) -> bool {
    db.inner is Some ==> db.inner->0.wf()
}

/// Whether a cache service is configured.
pub open spec fn db_configured(db: CacheDatabase) -> bool {
    db.inner is Some
}

/// The entries of the configured pool, or nothing.
pub open spec fn db_entries(db: CacheDatabase) -> Seq<StoredEntry> {
    if db.inner is Some {
        db.inner->0.store.entries@
    } else {
        Seq::empty()
    }
}

/// The published messages of the configured pool, or nothing.
pub open spec fn db_published(db: CacheDatabase) -> Seq<(String, String)> {
    if db.inner is Some {
        db.inner->0.published@
    } else {
        Seq::empty()
    }
}

/// The logical clock of the configured pool, or zero.
pub open spec fn db_now(db: CacheDatabase) -> u64 {
    if db.inner is Some {
        db.inner->0.now_ms
    } else {
        0
    }
}

/// `b` is `a` after some pool operations that left the keyspace, the
/// published log, the clock and the permits alone (the round-robin
/// counter may have advanced).
pub open spec fn db_same_but_counter(a: CacheDatabase, b: CacheDatabase) -> bool {
    &&& (a.inner is Some) == (b.inner is Some)
    &&& db_entries(b) == db_entries(a)
    &&& db_published(b) == db_published(a)
    &&& db_now(b) == db_now(a)
    &&& (a.inner is Some ==> b.inner->0.permits_in_use == a.inner->0.permits_in_use
        && CachePool::same_shape(b.inner->0, a.inner->0))
}

/// `b` is `a` with only the keyspace possibly changed (and the round-robin
/// counter advanced).
pub open spec fn db_same_but_entries(a: CacheDatabase, b: CacheDatabase) -> bool {
    &&& (a.inner is Some) == (b.inner is Some)
    &&& db_published(b) == db_published(a)
    &&& db_now(b) == db_now(a)
    &&& (a.inner is Some ==> b.inner->0.permits_in_use == a.inner->0.permits_in_use
        && CachePool::same_shape(b.inner->0, a.inner->0))
}

/// What a cached read returns: the canonical rendering of the stored
/// document under the serialized key data, provided one is stored, alive,
/// and parses; anything else reads as a miss.
pub open spec fn spec_cached_value(
    db: CacheDatabase,
    data: Seq<(Seq<char>, Seq<char>)>,
) -> Option<Seq<char>> {
    if db.inner is Some {
        match spec_get(db_entries(db), spec_serialize(data), db_now(db)) {
            Option::Some(stored) => json_canon_of(stored),
            Option::None => Option::None,
        }
    } else {
        Option::None
    }
}

/// Reads the entry cached under `cache_data`, returning its canonical
/// JSON rendering. A stored document that no longer parses reads as a
/// miss, as does anything when no service is configured.
pub fn get_cached_value(db: &mut CacheDatabase, cache_data: &Vec<(String, String)>) -> (r:
    Option<String>)
    requires
        db_wf(*old(db)),
    ensures
        view_opt_string(r) == spec_cached_value(*old(db), pairs_view(cache_data@)),
        db_same_but_counter(*old(db), *final(db)),
        db_wf(*final(db)),
{
    match &mut db.inner {
        Option::Some(pool) => {
            let key = serialize_cache_data(cache_data);
            match pool.get(key.as_str()) {
                Option::Some(stored) => canon_json(stored.as_str()),
                Option::None => Option::None,
            }
        },
        Option::None => Option::None,
    }
}

/// Stores `body` under `cache_data` with the given time-to-live. Does
/// nothing when no service is configured; a store failure is never
/// surfaced to the request.
pub fn set_cached_value(
    db: &mut CacheDatabase,
    cache_period_ms: usize,
    body: &str,
    cache_data: &Vec<(String, String)>,
)
    requires
        db_wf(*old(db)),
    ensures
        db_same_but_entries(*old(db), *final(db)),
        db_wf(*final(db)),
        !db_configured(*old(db)) ==> db_entries(*final(db)) == db_entries(*old(db)),
        db_configured(*old(db)) ==> {
            let key = spec_serialize(pairs_view(cache_data@));
            &&& spec_lookup(db_entries(*final(db)), key) is Some
            &&& spec_lookup(db_entries(*final(db)), key)->0.value@ == body@
            &&& spec_lookup(db_entries(*final(db)), key)->0.expires_at == Option::Some(
                if db_now(*old(db)) + cache_period_ms > u64::MAX {
                    u64::MAX
                } else {
                    (db_now(*old(db)) + cache_period_ms) as u64
                },
            )
            &&& forall|k: Seq<char>|
                k != key ==> spec_lookup(db_entries(*final(db)), k) == spec_lookup(
                    db_entries(*old(db)),
                    k,
                )
        },
{
    match &mut db.inner {
        Option::Some(pool) => {
            let key = serialize_cache_data(cache_data);
            pool.add(key.as_str(), body, Option::Some(cache_period_ms));
        },
        Option::None => {},
    }
}

/// Removes every entry whose key contains `key_fragment` as a literal
/// substring. Does nothing when no service is configured.
pub fn delete_by_key_fragment(db: &mut CacheDatabase, key_fragment: &str)
    requires
        db_wf(*old(db)),
    ensures
        db_same_but_entries(*old(db), *final(db)),
        db_wf(*final(db)),
        !db_configured(*old(db)) ==> db_entries(*final(db)) == db_entries(*old(db)),
        db_configured(*old(db)) ==> forall|k: Seq<char>|
            spec_lookup(db_entries(*final(db)), k) == (if contains_seq(k, key_fragment@) {
                Option::<StoredEntry>::None
            } else {
                spec_lookup(db_entries(*old(db)), k)
            }),
{
    match &mut db.inner {
        Option::Some(pool) => {
            pool.delete_by_key_fragment(key_fragment);
        },
        Option::None => {},
    }
}

/// Publishes `message` on `channel` for the fan-out subscriber. Does
/// nothing when no service is configured.
pub fn publish(db: &mut CacheDatabase, channel: &str, message: &str)
    requires
        db_wf(*old(db)),
    ensures
        db_wf(*final(db)),
        (old(db).inner is Some) == (final(db).inner is Some),
        db_entries(*final(db)) == db_entries(*old(db)),
        db_now(*final(db)) == db_now(*old(db)),
        !db_configured(*old(db)) ==> db_published(*final(db)) == db_published(*old(db)),
        db_configured(*old(db)) ==> {
            &&& db_published(*final(db)).len() == db_published(*old(db)).len() + 1
            &&& db_published(*final(db)).last().0@ == channel@
            &&& db_published(*final(db)).last().1@ == message@
            &&& forall|i: int|
                0 <= i < db_published(*old(db)).len() ==> db_published(*final(db))[i]
                    == db_published(*old(db))[i]
        },
{
    match &mut db.inner {
        Option::Some(pool) => {
            pool.publish(channel, message);
        },
        Option::None => {},
    }
}

} // verus!
