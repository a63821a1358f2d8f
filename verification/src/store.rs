//! A key/value store with millisecond time-to-live expiry.
//!
//! This is the keyspace the pool operates on: values are overwritten
//! wholesale, expire when their deadline passes, and can be removed either
//! exactly by key or coarsely by matching a fragment as a literal substring
//! of the key. Time is a logical millisecond clock supplied by the caller,
//! so expiry is a provable function of the store and the clock.

use vstd::prelude::*;

use crate::text::contains_seq;
use crate::text::contains_str;
use crate::text::str_eq;

verus! {

/// One stored entry: a serialized value under a key, with an optional
/// absolute expiry instant in milliseconds.
pub struct StoredEntry {
    pub key: String,
    pub value: String,
    pub expires_at: Option<u64>,
}

/// The first entry of `s` whose key reads `k`, if any.
pub open spec fn spec_lookup(s: Seq<StoredEntry>, k: Seq<char>) -> Option<StoredEntry>
    decreases s.len(),
{
    if s.len() == 0 {
        Option::None
    } else if s[0].key@ == k {
        Option::Some(s[0])
    } else {
        spec_lookup(s.skip(1), k)
    }
}

/// Whether an entry is still alive at instant `now`:
/// it never expires, or its deadline lies strictly in the future.
pub open spec fn spec_live(e: StoredEntry, now: u64) -> bool {
    match e.expires_at {
        Option::None => true,
        Option::Some(t) => now < t,
    }
}

/// What a read of `k` at instant `now` returns: the stored value if an
/// entry exists and is alive, nothing otherwise.
pub open spec fn spec_get(s: Seq<StoredEntry>, k: Seq<char>, now: u64) -> Option<Seq<char>> {
    match spec_lookup(s, k) {
        Option::Some(e) => if spec_live(e, now) {
            Option::Some(e.value@)
        } else {
            Option::None
        },
        Option::None => Option::None,
    }
}

/// The view of an optional string, for stating contracts.
pub open spec fn view_opt_string(o: Option<String>) -> Option<Seq<char>> {
    match o {
        Option::Some(v) => Option::Some(v@),
        Option::None => Option::None,
    }
}

/// Appending an entry is only visible to lookups that found nothing before,
/// and only under the appended key.
pub proof fn lemma_lookup_push(s: Seq<StoredEntry>, e: StoredEntry, k: Seq<char>)
    ensures
        spec_lookup(s.push(e), k) == (if spec_lookup(s, k) is Some {
            spec_lookup(s, k)
        } else if e.key@ == k {
            Option::Some(e)
        } else {
            Option::<StoredEntry>::None
        }),
    decreases s.len(),
{
    if s.len() == 0 {
        assert(s.push(e)[0] == e);
        assert(s.push(e).skip(1) =~= Seq::<StoredEntry>::empty());
    } else {
        assert(s.push(e)[0] == s[0]);
        assert(s.push(e).skip(1) =~= s.skip(1).push(e));
        lemma_lookup_push(s.skip(1), e, k);
    }
}

/// The store itself: a list of entries searched front to back.
/// An overwrite removes the old entry before appending the new one, so the
/// first match is the only match for its key.
pub struct CacheStore {
    pub entries: Vec<StoredEntry>,
}

impl CacheStore {
    /// An empty store.
    pub fn new() -> (s: CacheStore)
        ensures
            s.entries@.len() == 0,
            forall|k: Seq<char>| spec_lookup(s.entries@, k) is None,
    {
        let s = CacheStore { entries: Vec::new() };
        s
    }

    /// Reads `key` at instant `now`: the stored value if present and not
    /// yet expired, nothing if absent or expired.
    pub fn get(&self, key: &str, now: u64) -> (r: Option<String>)
        ensures
            view_opt_string(r) == spec_get(self.entries@, key@, now),
    {
        let n = self.entries.len();
        let mut i: usize = 0;
        proof {
            assert(self.entries@.skip(0) =~= self.entries@);
        }
        while i < n
            invariant
                n == self.entries@.len(),
                0 <= i <= n,
                spec_lookup(self.entries@, key@) == spec_lookup(
                    self.entries@.skip(i as int),
                    key@,
                ),
            decreases n - i,
        {
            let e = &self.entries[i];
            proof {
                assert(self.entries@.skip(i as int)[0] == self.entries@[i as int]);
            }
            if str_eq(e.key.as_str(), key) {
                let live = match e.expires_at {
                    Option::Some(t) => now < t,
                    Option::None => true,
                };
                if live {
                    return Option::Some(e.value.clone());
                } else {
                    return Option::None;
                }
            }
            proof {
                assert(self.entries@.skip(i as int).skip(1) =~= self.entries@.skip(i + 1));
            }
            i += 1;
        }
        proof {
            assert(self.entries@.skip(n as int).len() == 0);
        }
        Option::None
    }

    /// Removes every entry stored under exactly `key`.
    pub fn delete(&mut self, key: &str)
        ensures
            spec_lookup(final(self).entries@, key@) is None,
            forall|k: Seq<char>|
                k != key@ ==> spec_lookup(final(self).entries@, k) == spec_lookup(
                    old(self).entries@,
                    k,
                ),
    {
        let n = self.entries.len();
        let mut kept: Vec<StoredEntry> = Vec::new();
        let mut i: usize = 0;
        while i < n
            invariant
                n == self.entries@.len(),
                0 <= i <= n,
                spec_lookup(kept@, key@) is None,
                forall|k: Seq<char>|
                    k != key@ ==> spec_lookup(kept@, k) == spec_lookup(
                        self.entries@.take(i as int),
                        k,
                    ),
            decreases n - i,
        {
            let e = &self.entries[i];
            let ghost prev_kept = kept@;
            let ghost cur = self.entries@[i as int];
            if !str_eq(e.key.as_str(), key) {
                kept.push(StoredEntry {
                    key: e.key.clone(),
                    value: e.value.clone(),
                    expires_at: e.expires_at,
                });
                proof {
                    assert(kept@.last().key@ == cur.key@ && kept@.last().value@ == cur.value@
                        && kept@.last().expires_at == cur.expires_at);
                }
            }
            proof {
                assert(self.entries@.take(i + 1) =~= self.entries@.take(i as int).push(cur));
                assert forall|k: Seq<char>| k != key@ implies spec_lookup(kept@, k)
                    == spec_lookup(self.entries@.take(i + 1), k) by {
                    lemma_lookup_push(self.entries@.take(i as int), cur, k);
                    if cur.key@ != key@ {
                        lemma_lookup_push(prev_kept, kept@.last(), k);
                        assert(kept@ =~= prev_kept.push(kept@.last()));
                    }
                }
                if cur.key@ != key@ {
                    lemma_lookup_push(prev_kept, kept@.last(), key@);
                    assert(kept@ =~= prev_kept.push(kept@.last()));
                }
            }
            i += 1;
        }
        proof {
            assert(self.entries@.take(n as int) =~= self.entries@);
        }
        self.entries = kept;
    }

    /// Stores `value` under `key`, replacing any previous entry wholesale.
    /// Reads of other keys are unaffected.
    pub fn add(&mut self, key: &str, value: &str, expires_at: Option<u64>)
        ensures
            spec_lookup(final(self).entries@, key@) is Some,
            spec_lookup(final(self).entries@, key@)->0.key@ == key@,
            spec_lookup(final(self).entries@, key@)->0.value@ == value@,
            spec_lookup(final(self).entries@, key@)->0.expires_at == expires_at,
            forall|k: Seq<char>|
                k != key@ ==> spec_lookup(final(self).entries@, k) == spec_lookup(
                    old(self).entries@,
                    k,
                ),
    {
        self.delete(key);
        let ghost mid = self.entries@;
        let entry = StoredEntry { key: key.to_owned(), value: value.to_owned(), expires_at };
        self.entries.push(entry);
        proof {
            let pushed = spec_lookup(mid, key@);
            assert forall|k: Seq<char>| true implies spec_lookup(self.entries@, k)
                == (if spec_lookup(mid, k) is Some {
                spec_lookup(mid, k)
            } else if key@ == k {
                Option::Some(self.entries@.last())
            } else {
                Option::<StoredEntry>::None
            }) by {
                lemma_lookup_push(mid, self.entries@.last(), k);
                assert(self.entries@ =~= mid.push(self.entries@.last()));
            }
        }
    }

    /// Removes every entry whose key contains `fragment` as a literal
    /// substring; every other entry is untouched. This is the coarse
    /// invalidation primitive: it may remove more than an exact match would.
    pub fn delete_by_fragment(&mut self, fragment: &str)
        ensures
            forall|k: Seq<char>|
                spec_lookup(final(self).entries@, k) == (if contains_seq(k, fragment@) {
                    Option::<StoredEntry>::None
                } else {
                    spec_lookup(old(self).entries@, k)
                }),
    {
        let n = self.entries.len();
        let mut kept: Vec<StoredEntry> = Vec::new();
        let mut i: usize = 0;
        while i < n
            invariant
                n == self.entries@.len(),
                0 <= i <= n,
                forall|k: Seq<char>|
                    spec_lookup(kept@, k) == (if contains_seq(k, fragment@) {
                        Option::<StoredEntry>::None
                    } else {
                        spec_lookup(self.entries@.take(i as int), k)
                    }),
            decreases n - i,
        {
            let e = &self.entries[i];
            let ghost prev_kept = kept@;
            let ghost cur = self.entries@[i as int];
            if !contains_str(e.key.as_str(), fragment) {
                kept.push(StoredEntry {
                    key: e.key.clone(),
                    value: e.value.clone(),
                    expires_at: e.expires_at,
                });
                proof {
                    assert(kept@.last().key@ == cur.key@ && kept@.last().value@ == cur.value@
                        && kept@.last().expires_at == cur.expires_at);
                }
            }
            proof {
                assert(self.entries@.take(i + 1) =~= self.entries@.take(i as int).push(cur));
                assert forall|k: Seq<char>| true implies spec_lookup(kept@, k) == (if contains_seq(
                    k,
                    fragment@,
                ) {
                    Option::<StoredEntry>::None
                } else {
                    spec_lookup(self.entries@.take(i + 1), k)
                }) by {
                    lemma_lookup_push(self.entries@.take(i as int), cur, k);
                    if !contains_seq(cur.key@, fragment@) {
                        lemma_lookup_push(prev_kept, kept@.last(), k);
                        assert(kept@ =~= prev_kept.push(kept@.last()));
                    }
                }
            }
            i += 1;
        }
        proof {
            assert(self.entries@.take(n as int) =~= self.entries@);
        }
        self.entries = kept;
    }

    /// How many entries the store physically holds.
    pub fn len(&self) -> (n: usize)
        ensures
            n == self.entries@.len(),
    {
        self.entries.len()
    }
}

} // verus!
