//! The response-cache middleware: a lookup/store/invalidate/ETag state
//! machine run around every request.
//!
//! Before the handler runs, a decision is computed once from the request,
//! the identity-partitioning policy and the keyspace: serve from cache,
//! let the handler run and store the result, skip caching entirely, or
//! degrade after a lookup timeout. After the handler (or the cache hit)
//! produced a response, the store, the served-from-cache marker, the
//! cache-control header, the weak validation tag and coarse path-based
//! invalidation are applied. No failure in here may fail the request.

use vstd::prelude::*;

use crate::caching::CacheDatabase;
use crate::caching::db_configured;
use crate::caching::db_entries;
use crate::caching::db_now;
use crate::caching::db_same_but_counter;
use crate::caching::db_same_but_entries;
use crate::caching::db_wf;
use crate::caching::delete_by_key_fragment;
use crate::caching::set_cached_value;
use crate::errors::CacheError;
use crate::http::CacheRequest;
use crate::http::CacheResponse;
use crate::http::Method;
use crate::http::RespModel;
use crate::http::compute_etag;
use crate::http::is_mutating;
use crate::http::resp_model;
use crate::http::spec_etag;
use crate::keys::build_cache_data;
use crate::keys::names_view;
use crate::keys::pairs_view;
use crate::keys::role_partition;
use crate::keys::serialize_cache_data;
use crate::keys::spec_build_data;
use crate::keys::spec_role_partition;
use crate::keys::spec_serialize;
use crate::outside::canon_json;
use crate::outside::json_canon_of;
use crate::outside::query_pairs_of;
use crate::store::StoredEntry;
use crate::store::spec_get;
use crate::store::spec_lookup;
use crate::store::view_opt_string;
use crate::text::contains_seq;
use crate::text::dec_digits;
use crate::text::str_eq;
use crate::text::u64_to_dec;

verus! {

/// How the organization referenced by a scope-presence policy is found.
#[derive(Clone)]
pub enum OrganizationLoad {
    /// From the `{id}` path parameter.
    Path,
}

/// The identity-partitioning policy of one cached route.
#[derive(Clone)]
pub enum CacheUsersBy {
    /// Logged-in and anonymous users share cached results.
    Everyone,
    /// Logged-in users are never cached; anonymous users are.
    AnonymousOnly,
    /// Users are partitioned by the sorted, comma-joined set of their
    /// global roles; anonymous and role-less users share one partition.
    GlobalRoles,
    /// Users are partitioned by their own id.
    UserId,
    /// Only identities flagged public are cached; the rest are served
    /// fresh, uncached.
    PublicUsersOnly,
    /// Users are partitioned by whether they hold the named scope on the
    /// organization the request references.
    OrganizationScopePresence(OrganizationLoad, String),
}

/// A resolved identity: id, global roles and the public flag.
pub struct UserIdentity {
    pub id: String,
    pub roles: Vec<String>,
    pub is_public_user: bool,
}

/// What identity resolution yielded for this request. A resolution
/// failure is distinguishable from "no identity" and must never fail the
/// request: it degrades the decision to a miss.
pub enum IdentityOutcome {
    Failed,
    Anonymous,
    Known(UserIdentity),
}

/// What the authorization collaborator said about the identity holding
/// the policy's scope on the referenced organization.
pub enum ScopeCheckOutcome {
    /// The organization or the scopes could not be resolved.
    Failed,
    /// Whether the scope is held.
    Holds(bool),
}

/// Per-request scratch state, computed once by the pre-handler decision
/// and consumed by the post-handler processing.
pub struct CacheConfiguration {
    pub cache_response: bool,
    pub served_cache: bool,
    pub error: bool,
    pub user_key: Option<String>,
    pub cache_data: Vec<(String, String)>,
}

impl CacheConfiguration {
    /// Fresh scratch state: nothing stored, nothing served, no error.
    pub fn new() -> (c: CacheConfiguration)
        ensures
            !c.cache_response,
            !c.served_cache,
            !c.error,
            c.user_key is None,
            c.cache_data@.len() == 0,
    {
        CacheConfiguration {
            cache_response: false,
            served_cache: false,
            error: false,
            user_key: Option::None,
            cache_data: Vec::new(),
        }
    }
}

/// The pre-handler decision: serve this body from cache, run the handler
/// and possibly store, skip caching, or degrade after a lookup timeout.
pub enum Cache {
    Miss(CacheConfiguration),
    Hit(String, CacheConfiguration),
    Skip,
    Timeout(CacheConfiguration),
}

/// The ghost image of the scratch state.
pub struct CfgModel {
    pub cache_response: bool,
    pub served_cache: bool,
    pub error: bool,
    pub user_key: Option<Seq<char>>,
    pub cache_data: Seq<(Seq<char>, Seq<char>)>,
}

/// The ghost image of a concrete scratch state.
pub open spec fn cfg_model(c: CacheConfiguration) -> CfgModel {
    CfgModel {
        cache_response: c.cache_response,
        served_cache: c.served_cache,
        error: c.error,
        user_key: view_opt_string(c.user_key),
        cache_data: pairs_view(c.cache_data@),
    }
}

/// The ghost image of a decision.
pub enum DecisionModel {
    MissD(CfgModel),
    HitD(Seq<char>, CfgModel),
    SkipD,
    TimeoutD(CfgModel),
}

/// The ghost image of a concrete decision.
pub open spec fn decision_model(c: Cache) -> DecisionModel {
    match c {
        Cache::Miss(cfg) => DecisionModel::MissD(cfg_model(cfg)),
        Cache::Hit(body, cfg) => DecisionModel::HitD(body@, cfg_model(cfg)),
        Cache::Skip => DecisionModel::SkipD,
        Cache::Timeout(cfg) => DecisionModel::TimeoutD(cfg_model(cfg)),
    }
}

/// What the policy makes of the resolved identity.
pub enum KeyPolicyOutcome {
    /// Never cache this request, and run the handler.
    SkipAll,
    /// Identity or organization resolution failed: serve fresh, store
    /// nothing, and attach no caching headers.
    ResolutionError,
    /// The identity is not eligible for caching: serve fresh, uncached.
    Uncacheable,
    /// Cache, partitioned by the contained key if any.
    Partition(Option<Seq<char>>),
}

/// The identity partition a policy derives from an identity outcome.
/// Under `Everyone` no identity is ever resolved. An anonymous identity
/// contributes no partition, except under `GlobalRoles`, where it lands
/// in the same (empty) partition as a role-less user.
pub open spec fn spec_policy_outcome(
    policy: CacheUsersBy,
    identity: IdentityOutcome,
    scope_check: ScopeCheckOutcome,
) -> KeyPolicyOutcome {
    match policy {
        CacheUsersBy::Everyone => KeyPolicyOutcome::Partition(Option::None),
        _ => match identity {
            IdentityOutcome::Failed => KeyPolicyOutcome::ResolutionError,
            IdentityOutcome::Anonymous => match policy {
                CacheUsersBy::GlobalRoles => KeyPolicyOutcome::Partition(
                    Option::Some(Seq::empty()),
                ),
                _ => KeyPolicyOutcome::Partition(Option::None),
            },
            IdentityOutcome::Known(user) => match policy {
                CacheUsersBy::Everyone => KeyPolicyOutcome::Partition(Option::None),
                CacheUsersBy::AnonymousOnly => KeyPolicyOutcome::SkipAll,
                CacheUsersBy::UserId => KeyPolicyOutcome::Partition(Option::Some(user.id@)),
                CacheUsersBy::GlobalRoles => KeyPolicyOutcome::Partition(
                    Option::Some(spec_role_partition(names_view(user.roles@))),
                ),
                CacheUsersBy::PublicUsersOnly => if user.is_public_user {
                    KeyPolicyOutcome::Partition(Option::None)
                } else {
                    KeyPolicyOutcome::Uncacheable
                },
                CacheUsersBy::OrganizationScopePresence(_, scope) => match scope_check {
                    ScopeCheckOutcome::Failed => KeyPolicyOutcome::ResolutionError,
                    ScopeCheckOutcome::Holds(held) => KeyPolicyOutcome::Partition(
                        Option::Some(scope@ + (if held {
                            "-t"@
                        } else {
                            "-f"@
                        })),
                    ),
                },
            },
        },
    }
}

/// The key data a GET request is cached under.
pub open spec fn spec_request_data(req: CacheRequest, user: Option<Seq<char>>) -> Seq<
    (Seq<char>, Seq<char>),
> {
    spec_build_data(query_pairs_of(req.query@), "GET"@, req.path@, user)
}

/// A scratch state for a miss-like decision.
pub open spec fn spec_miss_cfg(
    cache_response: bool,
    error: bool,
    user_key: Option<Seq<char>>,
    cache_data: Seq<(Seq<char>, Seq<char>)>,
) -> CfgModel {
    CfgModel { cache_response, served_cache: false, error, user_key, cache_data }
}

/// What the pre-handler computed before consulting the keyspace: skip
/// caching, miss without a lookup, or look up the serialized key.
pub enum Prepared {
    Skip,
    NoLookup(CacheConfiguration),
    Lookup(CacheConfiguration, String),
}

/// The ghost image of a prepared decision.
pub enum PrepModel {
    SkipP,
    NoLookupP(CfgModel),
    LookupP(CfgModel, Seq<char>),
}

/// The ghost image of a concrete prepared decision.
pub open spec fn prepared_model(p: Prepared) -> PrepModel {
    match p {
        Prepared::Skip => PrepModel::SkipP,
        Prepared::NoLookup(cfg) => PrepModel::NoLookupP(cfg_model(cfg)),
        Prepared::Lookup(cfg, key) => PrepModel::LookupP(cfg_model(cfg), key@),
    }
}

/// What the keyspace said to a lookup: a stored document, nothing, or a
/// failure that either was or was not a timeout.
pub enum LookupOutcome {
    Found(Seq<char>),
    Absent,
    Failed(bool),
}

/// The ghost image of a concrete lookup result.
pub open spec fn lookup_model(r: Result<Option<String>, CacheError>) -> LookupOutcome {
    match r {
        Result::Ok(Option::Some(v)) => LookupOutcome::Found(v@),
        Result::Ok(Option::None) => LookupOutcome::Absent,
        Result::Err(e) => LookupOutcome::Failed(e.timeout),
    }
}

/// The pre-lookup part of the decision: non-GET requests and bypassed
/// requests miss without a lookup; a bypassed miss still carries the
/// request's key data (without an identity partition, which is never
/// resolved for it), so the fresh result refreshes the entry under the
/// derived key. The policy may skip caching entirely, degrade a
/// resolution failure to an uncached miss, exclude an identity, or yield
/// the partition under which the key is looked up.
pub open spec fn spec_prepare(
    policy: CacheUsersBy,
    req: CacheRequest,
    identity: IdentityOutcome,
    scope_check: ScopeCheckOutcome,
) -> PrepModel {
    if !(req.method is Get) {
        PrepModel::NoLookupP(spec_miss_cfg(true, false, Option::None, Seq::empty()))
    } else if req.bypass {
        PrepModel::NoLookupP(
            spec_miss_cfg(true, false, Option::None, spec_request_data(req, Option::None)),
        )
    } else {
        match spec_policy_outcome(policy, identity, scope_check) {
            KeyPolicyOutcome::SkipAll => PrepModel::SkipP,
            KeyPolicyOutcome::ResolutionError => PrepModel::NoLookupP(
                spec_miss_cfg(false, true, Option::None, spec_request_data(req, Option::None)),
            ),
            KeyPolicyOutcome::Uncacheable => PrepModel::NoLookupP(
                spec_miss_cfg(false, false, Option::None, spec_request_data(req, Option::None)),
            ),
            KeyPolicyOutcome::Partition(user) => {
                let data = spec_request_data(req, user);
                PrepModel::LookupP(
                    spec_miss_cfg(false, false, user, data),
                    spec_serialize(data),
                )
            },
        }
    }
}

/// The post-lookup part of the decision: a stored document that still
/// parses is served; an unparseable or absent one misses and records that
/// the fresh result may be stored, as does any non-timeout failure; a
/// timeout degrades the request to run fresh with no store afterward.
pub open spec fn spec_conclude(prepared: PrepModel, lookup: LookupOutcome) -> DecisionModel {
    match prepared {
        PrepModel::SkipP => DecisionModel::SkipD,
        PrepModel::NoLookupP(cfg) => DecisionModel::MissD(cfg),
        PrepModel::LookupP(cfg, _key) => match lookup {
            LookupOutcome::Found(stored) => match json_canon_of(stored) {
                Option::Some(body) => DecisionModel::HitD(
                    body,
                    CfgModel { served_cache: true, ..cfg },
                ),
                Option::None => DecisionModel::MissD(CfgModel { cache_response: true, ..cfg }),
            },
            LookupOutcome::Absent => DecisionModel::MissD(
                CfgModel { cache_response: true, ..cfg },
            ),
            LookupOutcome::Failed(timeout) => if timeout {
                DecisionModel::TimeoutD(cfg)
            } else {
                DecisionModel::MissD(CfgModel { cache_response: true, ..cfg })
            },
        },
    }
}

/// The whole pre-handler decision against the configured keyspace: the
/// prepared decision, concluded with what the keyspace holds under the
/// derived key. The in-process keyspace never fails, so no timeout arises
/// here; a remote keyspace is concluded by its caller with the real
/// lookup result.
pub open spec fn spec_decision(
    policy: CacheUsersBy,
    req: CacheRequest,
    identity: IdentityOutcome,
    scope_check: ScopeCheckOutcome,
    db: CacheDatabase,
) -> DecisionModel {
    let prepared = spec_prepare(policy, req, identity, scope_check);
    let lookup = match prepared {
        PrepModel::LookupP(_, key) => if db.inner is Some {
            match spec_get(db_entries(db), key, db_now(db)) {
                Option::Some(stored) => LookupOutcome::Found(stored),
                Option::None => LookupOutcome::Absent,
            }
        } else {
            LookupOutcome::Absent
        },
        _ => LookupOutcome::Absent,
    };
    spec_conclude(prepared, lookup)
}

/// The middleware attached to one route.
#[derive(Clone)]
pub struct CacheResource {
    pub cache_users_by: CacheUsersBy,
}

/// The exec image of a policy outcome.
enum ResolvedPartition {
    SkipAll,
    ResolutionError,
    Uncacheable,
    Partition(Option<String>),
}

/// The ghost image of an exec policy outcome.
spec fn resolved_model(r: ResolvedPartition) -> KeyPolicyOutcome {
    match r {
        ResolvedPartition::SkipAll => KeyPolicyOutcome::SkipAll,
        ResolvedPartition::ResolutionError => KeyPolicyOutcome::ResolutionError,
        ResolvedPartition::Uncacheable => KeyPolicyOutcome::Uncacheable,
        ResolvedPartition::Partition(u) => KeyPolicyOutcome::Partition(view_opt_string(u)),
    }
}

impl CacheResource {
    /// A middleware caching one route under the given policy.
    pub fn new(cache_users_by: CacheUsersBy) -> (r: Self)
        ensures
            r.cache_users_by == cache_users_by,
    {
        Self { cache_users_by }
    }

    /// Applies the policy to the resolved identity.
    fn policy_outcome(&self, identity: &IdentityOutcome, scope_check: &ScopeCheckOutcome) -> (r:
        ResolvedPartition)
        ensures
            resolved_model(r) == spec_policy_outcome(self.cache_users_by, *identity, *scope_check),
    {
        match &self.cache_users_by {
            CacheUsersBy::Everyone => ResolvedPartition::Partition(Option::None),
            _ => match identity {
                IdentityOutcome::Failed => ResolvedPartition::ResolutionError,
                IdentityOutcome::Anonymous => match &self.cache_users_by {
                    CacheUsersBy::GlobalRoles => ResolvedPartition::Partition(
                        Option::Some(String::new()),
                    ),
                    _ => ResolvedPartition::Partition(Option::None),
                },
                IdentityOutcome::Known(user) => match &self.cache_users_by {
                    CacheUsersBy::Everyone => ResolvedPartition::Partition(Option::None),
                    CacheUsersBy::AnonymousOnly => ResolvedPartition::SkipAll,
                    CacheUsersBy::UserId => ResolvedPartition::Partition(
                        Option::Some(user.id.clone()),
                    ),
                    CacheUsersBy::GlobalRoles => ResolvedPartition::Partition(
                        Option::Some(role_partition(&user.roles)),
                    ),
                    CacheUsersBy::PublicUsersOnly => if user.is_public_user {
                        ResolvedPartition::Partition(Option::None)
                    } else {
                        ResolvedPartition::Uncacheable
                    },
                    CacheUsersBy::OrganizationScopePresence(_, scope) => match scope_check {
                        ScopeCheckOutcome::Failed => ResolvedPartition::ResolutionError,
                        ScopeCheckOutcome::Holds(held) => {
                            let key = if *held {
                                scope.clone().concat("-t")
                            } else {
                                scope.clone().concat("-f")
                            };
                            ResolvedPartition::Partition(Option::Some(key))
                        },
                    },
                },
            },
        }
    }

    /// The pre-lookup part of the decision, proved to match
    /// `spec_prepare`. It only reads the request and the resolved
    /// identity; what to do with the derived key is up to the caller.
    pub fn prepare(
        &self,
        req: &CacheRequest,
        identity: &IdentityOutcome,
        scope_check: &ScopeCheckOutcome,
    ) -> (r: Prepared)
        ensures
            prepared_model(r) == spec_prepare(
                self.cache_users_by,
                *req,
                *identity,
                *scope_check,
            ),
    {
        let mut cfg = CacheConfiguration::new();
        if !matches!(req.method, Method::Get) {
            cfg.cache_response = true;
            proof {
                assert(pairs_view(cfg.cache_data@) =~= Seq::<(Seq<char>, Seq<char>)>::empty());
            }
            return Prepared::NoLookup(cfg);
        }
        if req.bypass {
            cfg.cache_response = true;
            cfg.cache_data = build_cache_data(
                "GET",
                req.path.as_str(),
                req.query.as_str(),
                &Option::None,
            );
            return Prepared::NoLookup(cfg);
        }
        match self.policy_outcome(identity, scope_check) {
            ResolvedPartition::SkipAll => Prepared::Skip,
            ResolvedPartition::ResolutionError => {
                cfg.cache_data = build_cache_data(
                    "GET",
                    req.path.as_str(),
                    req.query.as_str(),
                    &Option::None,
                );
                cfg.error = true;
                Prepared::NoLookup(cfg)
            },
            ResolvedPartition::Uncacheable => {
                cfg.cache_data = build_cache_data(
                    "GET",
                    req.path.as_str(),
                    req.query.as_str(),
                    &Option::None,
                );
                Prepared::NoLookup(cfg)
            },
            ResolvedPartition::Partition(user) => {
                cfg.cache_data = build_cache_data(
                    "GET",
                    req.path.as_str(),
                    req.query.as_str(),
                    &user,
                );
                cfg.user_key = user;
                let key = serialize_cache_data(&cfg.cache_data);
                Prepared::Lookup(cfg, key)
            },
        }
    }

    /// The post-lookup part of the decision, proved to match
    /// `spec_conclude`. The caller performed the lookup — against the
    /// in-process keyspace or a remote service — and hands in its result;
    /// a timeout degrades to the timeout decision, any other failure to a
    /// storing miss, so no lookup failure can fail the request.
    pub fn conclude(prepared: Prepared, lookup: Result<Option<String>, CacheError>) -> (r:
        Cache)
        ensures
            decision_model(r) == spec_conclude(prepared_model(prepared), lookup_model(lookup)),
    {
        match prepared {
            Prepared::Skip => Cache::Skip,
            Prepared::NoLookup(cfg) => Cache::Miss(cfg),
            Prepared::Lookup(mut cfg, _key) => match lookup {
                Result::Ok(Option::Some(stored)) => match canon_json(stored.as_str()) {
                    Option::Some(body) => {
                        cfg.served_cache = true;
                        Cache::Hit(body, cfg)
                    },
                    Option::None => {
                        cfg.cache_response = true;
                        Cache::Miss(cfg)
                    },
                },
                Result::Ok(Option::None) => {
                    cfg.cache_response = true;
                    Cache::Miss(cfg)
                },
                Result::Err(e) => if e.timeout {
                    Cache::Timeout(cfg)
                } else {
                    cfg.cache_response = true;
                    Cache::Miss(cfg)
                },
            },
        }
    }

    /// The pre-handler decision against the configured cache service,
    /// proved to match `spec_decision` on the state before the call.
    /// The keyspace is never changed by a decision.
    pub fn start(
        &self,
        db: &mut CacheDatabase,
        req: &CacheRequest,
        identity: &IdentityOutcome,
        scope_check: &ScopeCheckOutcome,
    ) -> (r: Cache)
        requires
            db_wf(*old(db)),
        ensures
            decision_model(r) == spec_decision(
                self.cache_users_by,
                *req,
                *identity,
                *scope_check,
                *old(db),
            ),
            db_same_but_counter(*old(db), *final(db)),
            db_wf(*final(db)),
    {
        let prepared = self.prepare(req, identity, scope_check);
        let lookup: Result<Option<String>, CacheError> = match &prepared {
            Prepared::Lookup(_, key) => match &mut db.inner {
                Option::Some(pool) => Result::Ok(pool.get(key.as_str())),
                Option::None => Result::Ok(Option::None),
            },
            _ => Result::Ok(Option::None),
        };
        Self::conclude(prepared, lookup)
    }
}

/// The middleware's tunables: how long stored entries live, and the
/// client-side freshness advertised in `Cache-Control`.
pub struct CacheSettings {
    /// Time-to-live of stored entries, in milliseconds.
    pub cache_period_ms: usize,
    /// The `max-age` advertised to clients, in seconds.
    pub client_cache_period_s: u64,
}

/// The cache-control directive attached to fresh cacheable responses:
/// `private` exactly when an identity partition was used.
pub open spec fn spec_cache_control(private: bool, max_age_s: u64) -> Seq<char> {
    (if private {
        "private, max-age="@
    } else {
        "public, max-age="@
    }) + dec_digits(max_age_s as nat)
}

/// An empty `304 Not Modified` replacement response. It carries none of
/// the headers attached earlier in post-processing.
pub open spec fn spec_not_modified() -> RespModel {
    RespModel {
        status: 304,
        body: Seq::empty(),
        error: false,
        cached_marker: false,
        cache_control: Option::None,
        etag: Option::None,
    }
}

/// The post-handler response transformation: on a
/// GET 200 the served-from-cache marker is attached when the body came
/// from cache; unless a resolution error occurred, a cache-control
/// directive is attached and, when the body is valid JSON, its weak
/// validation tag; a replayed matching tag turns the response into an
/// empty 304. Everything else passes through untouched.
pub open spec fn spec_update_response(
    cfg: CfgModel,
    method: Method,
    inm: Option<Seq<char>>,
    resp: RespModel,
    max_age_s: u64,
    configured: bool,
) -> RespModel {
    if !configured {
        resp
    } else if method is Get && resp.status == 200 {
        let marked = RespModel {
            cached_marker: resp.cached_marker || cfg.served_cache,
            ..resp
        };
        if cfg.error {
            marked
        } else {
            let directed = RespModel {
                cache_control: Option::Some(
                    spec_cache_control(cfg.user_key is Some, max_age_s),
                ),
                ..marked
            };
            match json_canon_of(resp.body) {
                Option::Some(canon) => {
                    let tag = spec_etag(canon);
                    if inm == Option::Some(tag) {
                        spec_not_modified()
                    } else {
                        RespModel { etag: Option::Some(tag), ..directed }
                    }
                },
                Option::None => directed,
            }
        }
    } else {
        resp
    }
}

/// The view of an optional string reference.
pub open spec fn view_opt_string_ref(o: Option<String>) -> Option<Seq<char>> {
    view_opt_string(o)
}

impl CacheResource {
    /// Post-handler processing, proved against `spec_update_response` for
    /// the response and characterized exactly on the keyspace: a GET 200
    /// whose decision asked for it is stored under its key data with the
    /// configured time-to-live; a completed mutating request removes
    /// every entry whose key contains the request path; nothing else
    /// changes the keyspace. With no service configured the response and
    /// the keyspace pass through untouched.
    pub fn update(
        cfg: CacheConfiguration,
        db: &mut CacheDatabase,
        method: Method,
        path: &str,
        if_none_match: &Option<String>,
        response: CacheResponse,
        settings: &CacheSettings,
    ) -> (r: CacheResponse)
        requires
            db_wf(*old(db)),
        ensures
            db_wf(*final(db)),
            db_same_but_entries(*old(db), *final(db)),
            resp_model(r) == spec_update_response(
                cfg_model(cfg),
                method,
                view_opt_string_ref(*if_none_match),
                resp_model(response),
                settings.client_cache_period_s,
                db_configured(*old(db)),
            ),
            !db_configured(*old(db)) ==> db_entries(*final(db)) == db_entries(*old(db)),
            db_configured(*old(db)) && method is Get && response.status == 200
                && cfg.cache_response ==> {
                let key = spec_serialize(cfg_model(cfg).cache_data);
                &&& spec_lookup(db_entries(*final(db)), key) is Some
                &&& spec_lookup(db_entries(*final(db)), key)->0.value@ == response.body@
                &&& spec_lookup(db_entries(*final(db)), key)->0.expires_at == Option::Some(
                    if db_now(*old(db)) + settings.cache_period_ms > u64::MAX {
                        u64::MAX
                    } else {
                        (db_now(*old(db)) + settings.cache_period_ms) as u64
                    },
                )
                &&& forall|k: Seq<char>|
                    k != key ==> spec_lookup(db_entries(*final(db)), k) == spec_lookup(
                        db_entries(*old(db)),
                        k,
                    )
            },
            db_configured(*old(db)) && (method is Get && response.status == 200
                && !cfg.cache_response) ==> db_entries(*final(db)) == db_entries(*old(db)),
            db_configured(*old(db)) && is_mutating(method) && !response.error ==> forall|
                k: Seq<char>,
            |
                spec_lookup(db_entries(*final(db)), k) == (if contains_seq(k, path@) {
                    Option::<StoredEntry>::None
                } else {
                    spec_lookup(db_entries(*old(db)), k)
                }),
            !(method is Get && response.status == 200) && !(is_mutating(method)
                && !response.error) ==> db_entries(*final(db)) == db_entries(*old(db)),
            is_mutating(method) && response.error ==> db_entries(*final(db)) == db_entries(
                *old(db),
            ),
    {
        if db.inner.is_none() {
            return response;
        }
        if matches!(method, Method::Get) && response.status == 200 {
            if cfg.cache_response {
                set_cached_value(db, settings.cache_period_ms, response.body.as_str(),
                    &cfg.cache_data);
            }
        } else if matches!(
            method,
            Method::Put | Method::Patch | Method::Post | Method::Delete,
        ) {
            if !response.error {
                delete_by_key_fragment(db, path);
            }
        }
        Self::decorate_response(&cfg, method, if_none_match, response, settings)
    }

    /// The response side of post-handler processing alone, proved against
    /// `spec_update_response` with a service configured: the
    /// served-from-cache marker, the cache-control directive, the weak
    /// validation tag, and the empty 304 on a replayed matching tag. The
    /// caller stores and invalidates against its own keyspace.
    pub fn decorate_response(
        cfg: &CacheConfiguration,
        method: Method,
        if_none_match: &Option<String>,
        response: CacheResponse,
        settings: &CacheSettings,
    ) -> (r: CacheResponse)
        ensures
            resp_model(r) == spec_update_response(
                cfg_model(*cfg),
                method,
                view_opt_string_ref(*if_none_match),
                resp_model(response),
                settings.client_cache_period_s,
                true,
            ),
    {
        let mut response = response;
        if matches!(method, Method::Get) && response.status == 200 {
            if cfg.served_cache {
                response.cached_marker = true;
            }
            if !cfg.error {
                let mut directive = if cfg.user_key.is_some() {
                    String::from_str("private, max-age=")
                } else {
                    String::from_str("public, max-age=")
                };
                directive.append(u64_to_dec(settings.client_cache_period_s).as_str());
                response.cache_control = Option::Some(directive);
                match canon_json(response.body.as_str()) {
                    Option::Some(canon) => {
                        let tag = compute_etag(canon.as_str());
                        let replay_matches = match if_none_match {
                            Option::Some(header) => str_eq(header.as_str(), tag.as_str()),
                            Option::None => false,
                        };
                        if replay_matches {
                            return CacheResponse {
                                status: 304,
                                body: String::new(),
                                error: false,
                                cached_marker: false,
                                cache_control: Option::None,
                                etag: Option::None,
                            };
                        }
                        response.etag = Option::Some(tag);
                    },
                    Option::None => {},
                }
            }
        }
        response
    }

    /// One whole request through the middleware: the decision, the
    /// handler's fresh response where one is needed, and post-processing.
    /// On a hit the handler never runs and `fresh` is unused; on a skip
    /// or after a lookup timeout the fresh response passes through with
    /// no post-processing at all. A bypassed request is never marked as
    /// served from cache.
    pub fn handle(
        &self,
        db: &mut CacheDatabase,
        req: &CacheRequest,
        identity: &IdentityOutcome,
        scope_check: &ScopeCheckOutcome,
        fresh: CacheResponse,
        settings: &CacheSettings,
    ) -> (r: CacheResponse)
        requires
            db_wf(*old(db)),
            !fresh.cached_marker,
        ensures
            db_wf(*final(db)),
            db_same_but_entries(*old(db), *final(db)),
            resp_model(r) == spec_handle_response(
                self.cache_users_by,
                *req,
                *identity,
                *scope_check,
                resp_model(fresh),
                settings.client_cache_period_s,
                *old(db),
            ),
            req.bypass ==> !r.cached_marker,
            !db_configured(*old(db)) ==> db_entries(*final(db)) == db_entries(*old(db)),
            db_configured(*old(db)) ==> (match spec_decision(
                self.cache_users_by,
                *req,
                *identity,
                *scope_check,
                *old(db),
            ) {
                DecisionModel::SkipD => db_entries(*final(db)) == db_entries(*old(db)),
                DecisionModel::TimeoutD(_) => db_entries(*final(db)) == db_entries(*old(db)),
                DecisionModel::HitD(_, _) => db_entries(*final(db)) == db_entries(*old(db)),
                DecisionModel::MissD(cfg) => {
                    &&& (req.method is Get && fresh.status == 200 && cfg.cache_response) ==> {
                        let key = spec_serialize(cfg.cache_data);
                        &&& spec_lookup(db_entries(*final(db)), key) is Some
                        &&& spec_lookup(db_entries(*final(db)), key)->0.value@ == fresh.body@
                        &&& spec_lookup(db_entries(*final(db)), key)->0.expires_at
                            == Option::Some(
                            if db_now(*old(db)) + settings.cache_period_ms > u64::MAX {
                                u64::MAX
                            } else {
                                (db_now(*old(db)) + settings.cache_period_ms) as u64
                            },
                        )
                        &&& forall|k: Seq<char>|
                            k != key ==> spec_lookup(db_entries(*final(db)), k) == spec_lookup(
                                db_entries(*old(db)),
                                k,
                            )
                    }
                    &&& (req.method is Get && fresh.status == 200 && !cfg.cache_response)
                        ==> db_entries(*final(db)) == db_entries(*old(db))
                    &&& (is_mutating(req.method) && !fresh.error) ==> forall|k: Seq<char>|
                        spec_lookup(db_entries(*final(db)), k) == (if contains_seq(
                            k,
                            req.path@,
                        ) {
                            Option::<StoredEntry>::None
                        } else {
                            spec_lookup(db_entries(*old(db)), k)
                        })
                    &&& (!(req.method is Get && fresh.status == 200) && !(is_mutating(
                        req.method,
                    ) && !fresh.error)) ==> db_entries(*final(db)) == db_entries(*old(db))
                },
            }),
    {
        let decision = self.start(db, req, identity, scope_check);
        match decision {
            Cache::Hit(body, cfg) => {
                let served = CacheResponse {
                    status: 200,
                    body,
                    error: false,
                    cached_marker: false,
                    cache_control: Option::None,
                    etag: Option::None,
                };
                Self::update(cfg, db, req.method, req.path.as_str(), &req.if_none_match,
                    served, settings)
            },
            Cache::Miss(cfg) => Self::update(cfg, db, req.method, req.path.as_str(),
                &req.if_none_match, fresh, settings),
            Cache::Skip => fresh,
            Cache::Timeout(_) => fresh,
        }
    }
}

/// The response of one whole request through the middleware, composed
/// from the decision and the post-handler transformation.
pub open spec fn spec_handle_response(
    policy: CacheUsersBy,
    req: CacheRequest,
    identity: IdentityOutcome,
    scope_check: ScopeCheckOutcome,
    fresh: RespModel,
    max_age_s: u64,
    db: CacheDatabase,
) -> RespModel {
    let inm = match req.if_none_match {
        Option::Some(h) => Option::Some(h@),
        Option::None => Option::<Seq<char>>::None,
    };
    match spec_decision(policy, req, identity, scope_check, db) {
        DecisionModel::HitD(body, cfg) => spec_update_response(
            cfg,
            req.method,
            inm,
            RespModel {
                status: 200,
                body,
                error: false,
                cached_marker: false,
                cache_control: Option::None,
                etag: Option::None,
            },
            max_age_s,
            db_configured(db),
        ),
        DecisionModel::MissD(cfg) => spec_update_response(
            cfg,
            req.method,
            inm,
            fresh,
            max_age_s,
            db_configured(db),
        ),
        DecisionModel::SkipD => fresh,
        DecisionModel::TimeoutD(_) => fresh,
    }
}

} // verus!
