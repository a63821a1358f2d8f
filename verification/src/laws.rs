//! The layer's cross-cutting guarantees, stated and proved over the same
//! spec functions the executable contracts use.

use vstd::prelude::*;

use crate::caching::CacheDatabase;
use crate::caching::db_configured;
use crate::caching::db_entries;
use crate::caching::db_now;
use crate::http::CacheRequest;
use crate::http::Method;
use crate::http::RespModel;
use crate::http::spec_etag;
use crate::keys::spec_serialize;
use crate::keys::spec_sorted_data;
use crate::middleware::CacheUsersBy;
use crate::middleware::CfgModel;
use crate::middleware::DecisionModel;
use crate::middleware::IdentityOutcome;
use crate::middleware::KeyPolicyOutcome;
use crate::middleware::ScopeCheckOutcome;
use crate::middleware::spec_decision;
use crate::middleware::spec_not_modified;
use crate::middleware::spec_policy_outcome;
use crate::middleware::spec_request_data;
use crate::middleware::spec_update_response;
use crate::outside::json_canon_of;
use crate::outside::query_pairs_of;
use crate::pool::CachePool;
use crate::store::spec_live;
use crate::store::spec_lookup;
use crate::text::contains_seq;

verus! {

/// Every stored key containing `fragment` reads as absent.
pub open spec fn spec_invalidated(db: CacheDatabase, fragment: Seq<char>) -> bool {
    forall|k: Seq<char>|
        contains_seq(k, fragment) ==> spec_lookup(db_entries(db), k) is None
}

/// Idempotent key derivation and repeat reads: a GET whose method, path,
/// sorted query and identity partition derive the same key as an earlier
/// stored response is decided as a hit within the stored entry's
/// time-to-live window: the decision carries the canonical rendering of
/// the stored body and is marked served-from-cache.
pub proof fn lemma_repeated_get_is_served(
    policy: CacheUsersBy,
    req: CacheRequest,
    identity: IdentityOutcome,
    scope_check: ScopeCheckOutcome,
    db: CacheDatabase,
    user: Option<Seq<char>>,
    stored_body: Seq<char>,
)
    requires
        req.method is Get,
        !req.bypass,
        spec_policy_outcome(policy, identity, scope_check) == KeyPolicyOutcome::Partition(user),
        db_configured(db),
    ensures
        ({
            let key = spec_serialize(spec_request_data(req, user));
            let entry = spec_lookup(db_entries(db), key);
            (entry is Some && entry->0.value@ == stored_body && spec_live(entry->0, db_now(db))
                && json_canon_of(stored_body) is Some) ==> spec_decision(
                policy,
                req,
                identity,
                scope_check,
                db,
            ) == DecisionModel::HitD(
                json_canon_of(stored_body)->0,
                CfgModel {
                    cache_response: false,
                    served_cache: true,
                    error: false,
                    user_key: user,
                    cache_data: spec_request_data(req, user),
                },
            )
        }),
{
}

/// Invalidation: after a completed mutating request to a path removed
/// every entry whose key contains that path, the next GET whose derived
/// cache key contains the path decides as a fresh miss that records the
/// response for storing.
pub proof fn lemma_invalidated_get_misses(
    policy: CacheUsersBy,
    req: CacheRequest,
    identity: IdentityOutcome,
    scope_check: ScopeCheckOutcome,
    db: CacheDatabase,
    user: Option<Seq<char>>,
    mutated_path: Seq<char>,
)
    requires
        req.method is Get,
        !req.bypass,
        spec_policy_outcome(policy, identity, scope_check) == KeyPolicyOutcome::Partition(user),
        db_configured(db),
        spec_invalidated(db, mutated_path),
    ensures
        contains_seq(spec_serialize(spec_request_data(req, user)), mutated_path)
            ==> spec_decision(policy, req, identity, scope_check, db) == DecisionModel::MissD(
            CfgModel {
                cache_response: true,
                served_cache: false,
                error: false,
                user_key: user,
                cache_data: spec_request_data(req, user),
            },
        ),
{
}

/// Key derivation is idempotent: two GET requests sharing the path, the
/// sorted query pairs and the identity partition derive the same key
/// data and the same serialized cache key, whatever order their raw
/// query strings listed the pairs in.
pub proof fn lemma_equal_sorted_queries_equal_keys(
    req1: CacheRequest,
    req2: CacheRequest,
    user: Option<Seq<char>>,
)
    requires
        req1.path@ == req2.path@,
    ensures
        spec_sorted_data(query_pairs_of(req1.query@)) == spec_sorted_data(
            query_pairs_of(req2.query@),
        ) ==> spec_request_data(req1, user) == spec_request_data(req2, user)
            && spec_serialize(spec_request_data(req1, user)) == spec_serialize(
            spec_request_data(req2, user),
        ),
{
}

/// Conditional GET: replaying the validation tag of a response body via
/// the conditional header turns post-processing of a fresh 200 into an
/// empty 304 carrying no further headers.
pub proof fn lemma_conditional_get_not_modified(
    cfg: CfgModel,
    inm: Option<Seq<char>>,
    resp: RespModel,
    max_age_s: u64,
)
    requires
        resp.status == 200,
        !cfg.error,
    ensures
        (json_canon_of(resp.body) is Some && inm == Option::Some(
            spec_etag(json_canon_of(resp.body)->0),
        )) ==> spec_update_response(cfg, Method::Get, inm, resp, max_age_s, true)
            == spec_not_modified(),
{
}

/// Bypass: a request carrying the bypass header is never decided as a
/// hit, whatever the keyspace holds, and its decision is never marked
/// served-from-cache.
pub proof fn lemma_bypass_never_served(
    policy: CacheUsersBy,
    req: CacheRequest,
    identity: IdentityOutcome,
    scope_check: ScopeCheckOutcome,
    db: CacheDatabase,
)
    requires
        req.bypass,
    ensures
        spec_decision(policy, req, identity, scope_check, db) matches DecisionModel::MissD(cfg)
            && !cfg.served_cache && cfg.cache_response,
{
}

/// Concurrency bound: a well-formed pool never has more reads in flight
/// than its size times its concurrency factor, and a read permit is
/// granted exactly when one is free.
pub proof fn lemma_read_concurrency_bound(p: CachePool)
    requires
        p.wf(),
    ensures
        p.permits_in_use <= p.max_size * p.concurrency,
        p.permits_in_use == p.max_size * p.concurrency ==> !(p.permits_in_use < p.capacity),
{
}

} // verus!
