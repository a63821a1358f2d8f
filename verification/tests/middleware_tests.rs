use bigneon_cache::caching::CacheDatabase;
use bigneon_cache::errors::CacheError;
use bigneon_cache::middleware::Cache;
use bigneon_cache::config::Config;
use bigneon_cache::http::CacheRequest;
use bigneon_cache::http::CacheResponse;
use bigneon_cache::http::Method;
use bigneon_cache::middleware::CacheResource;
use bigneon_cache::middleware::CacheSettings;
use bigneon_cache::middleware::CacheUsersBy;
use bigneon_cache::middleware::IdentityOutcome;
use bigneon_cache::middleware::OrganizationLoad;
use bigneon_cache::middleware::ScopeCheckOutcome;
use bigneon_cache::middleware::UserIdentity;
use bigneon_cache::pool::CachePool;

fn test_db() -> CacheDatabase {
    let config = Config {
        database_url: "redis://127.0.0.1/".to_owned(),
        read_timeout_ms: 100,
        write_timeout_ms: 100,
        max_size: 1,
        concurrency: 1,
    };
    CacheDatabase {
        inner: Some(CachePool::from_config(&config).unwrap()),
    }
}

fn settings() -> CacheSettings {
    CacheSettings {
        cache_period_ms: 10_000,
        client_cache_period_s: 600,
    }
}

fn get_request(path: &str, query: &str) -> CacheRequest {
    CacheRequest {
        method: Method::Get,
        path: path.to_string(),
        query: query.to_string(),
        bypass: false,
        if_none_match: None,
    }
}

fn fresh_response(body: &str) -> CacheResponse {
    CacheResponse {
        status: 200,
        body: body.to_string(),
        error: false,
        cached_marker: false,
        cache_control: None,
        etag: None,
    }
}

fn known_user(id: &str, roles: &[&str], public: bool) -> IdentityOutcome {
    IdentityOutcome::Known(UserIdentity {
        id: id.to_string(),
        roles: roles.iter().map(|r| r.to_string()).collect(),
        is_public_user: public,
    })
}

// Two GET requests sharing method, path, sorted query and identity
// partition: the second call returns the same (canonical) body and is
// marked served from cache, even with the query pairs reordered.
#[test]
fn repeated_get_served_from_cache() {
    let resource = CacheResource::new(CacheUsersBy::Everyone);
    let mut db = test_db();
    let anon = IdentityOutcome::Anonymous;
    let scope = ScopeCheckOutcome::Failed;

    let first = resource.handle(
        &mut db,
        &get_request("/events", "b=2&a=1"),
        &anon,
        &scope,
        fresh_response("{\"x\":1}"),
        &settings(),
    );
    assert_eq!(first.status, 200);
    assert!(!first.cached_marker);
    assert_eq!(first.body, "{\"x\":1}");

    let second = resource.handle(
        &mut db,
        &get_request("/events", "a=1&b=2"),
        &anon,
        &scope,
        fresh_response("{\"x\":999}"),
        &settings(),
    );
    assert_eq!(second.status, 200);
    assert!(second.cached_marker, "second call must be served from cache");
    assert_eq!(second.body, "{\"x\":1}");
}

// A mutating request to a path invalidates every entry whose key
// contains that path; the next GET is a fresh miss.
#[test]
fn mutating_request_invalidates_cached_path() {
    let resource = CacheResource::new(CacheUsersBy::Everyone);
    let mut db = test_db();
    let anon = IdentityOutcome::Anonymous;
    let scope = ScopeCheckOutcome::Failed;

    let warm = resource.handle(
        &mut db,
        &get_request("/events/1", ""),
        &anon,
        &scope,
        fresh_response("{\"v\":1}"),
        &settings(),
    );
    assert!(!warm.cached_marker);

    let post = CacheRequest {
        method: Method::Post,
        path: "/events/1".to_string(),
        query: String::new(),
        bypass: false,
        if_none_match: None,
    };
    resource.handle(
        &mut db,
        &post,
        &anon,
        &scope,
        fresh_response("{\"ok\":true}"),
        &settings(),
    );

    let after = resource.handle(
        &mut db,
        &get_request("/events/1", ""),
        &anon,
        &scope,
        fresh_response("{\"v\":2}"),
        &settings(),
    );
    assert!(!after.cached_marker, "invalidated entry must read as a miss");
    assert_eq!(after.body, "{\"v\":2}");
}

// Replaying a response's validation tag yields an empty 304.
#[test]
fn conditional_get_replay_yields_not_modified() {
    let resource = CacheResource::new(CacheUsersBy::Everyone);
    let mut db = test_db();
    let anon = IdentityOutcome::Anonymous;
    let scope = ScopeCheckOutcome::Failed;

    let first = resource.handle(
        &mut db,
        &get_request("/things", ""),
        &anon,
        &scope,
        fresh_response("{\"x\":1}"),
        &settings(),
    );
    let tag = first.etag.clone().expect("a cacheable 200 carries a validation tag");

    let mut replay = get_request("/things", "");
    replay.if_none_match = Some(tag);
    let second = resource.handle(
        &mut db,
        &replay,
        &anon,
        &scope,
        fresh_response("{\"x\":1}"),
        &settings(),
    );
    assert_eq!(second.status, 304);
    assert_eq!(second.body, "");
    assert!(second.etag.is_none());
    assert!(second.cache_control.is_none());
}

// A request with the bypass header is never served from cache, even with
// a warm entry under its key.
#[test]
fn bypass_never_served_from_cache() {
    let resource = CacheResource::new(CacheUsersBy::Everyone);
    let mut db = test_db();
    let anon = IdentityOutcome::Anonymous;
    let scope = ScopeCheckOutcome::Failed;

    resource.handle(
        &mut db,
        &get_request("/warm", ""),
        &anon,
        &scope,
        fresh_response("{\"w\":1}"),
        &settings(),
    );

    let mut bypassing = get_request("/warm", "");
    bypassing.bypass = true;
    let served = resource.handle(
        &mut db,
        &bypassing,
        &anon,
        &scope,
        fresh_response("{\"w\":2}"),
        &settings(),
    );
    assert!(!served.cached_marker);
    assert_eq!(served.body, "{\"w\":2}");

    // the bypassed fresh result refreshed the entry under the derived
    // key, so the next plain GET serves it from cache
    let refreshed = resource.handle(
        &mut db,
        &get_request("/warm", ""),
        &anon,
        &scope,
        fresh_response("{\"w\":3}"),
        &settings(),
    );
    assert!(refreshed.cached_marker);
    assert_eq!(refreshed.body, "{\"w\":2}");
}

// Responses served to anonymous users advertise a public cache-control
// directive with the configured max-age.
#[test]
fn public_cache_control_for_anonymous() {
    let resource = CacheResource::new(CacheUsersBy::Everyone);
    let mut db = test_db();
    let served = resource.handle(
        &mut db,
        &get_request("/public", ""),
        &IdentityOutcome::Anonymous,
        &ScopeCheckOutcome::Failed,
        fresh_response("{\"p\":1}"),
        &settings(),
    );
    assert_eq!(served.cache_control.as_deref(), Some("public, max-age=600"));
}

// Identity-partitioned responses advertise a private directive, and two
// users with different ids do not share entries.
#[test]
fn user_id_partitions_are_private_and_separate() {
    let resource = CacheResource::new(CacheUsersBy::UserId);
    let mut db = test_db();
    let scope = ScopeCheckOutcome::Failed;
    let alice = known_user("11111111", &[], true);
    let bob = known_user("22222222", &[], true);

    let first = resource.handle(
        &mut db,
        &get_request("/mine", ""),
        &alice,
        &scope,
        fresh_response("{\"who\":\"alice\"}"),
        &settings(),
    );
    assert_eq!(first.cache_control.as_deref(), Some("private, max-age=600"));

    let other = resource.handle(
        &mut db,
        &get_request("/mine", ""),
        &bob,
        &scope,
        fresh_response("{\"who\":\"bob\"}"),
        &settings(),
    );
    assert!(!other.cached_marker, "users must not share partitions");
    assert_eq!(other.body, "{\"who\":\"bob\"}");

    let again = resource.handle(
        &mut db,
        &get_request("/mine", ""),
        &alice,
        &scope,
        fresh_response("{\"who\":\"caro\"}"),
        &settings(),
    );
    assert!(again.cached_marker);
    assert_eq!(again.body, "{\"who\":\"alice\"}");
}

// Under the anonymous-only policy a logged-in user skips caching
// entirely: the fresh response passes through with no headers attached.
#[test]
fn anonymous_only_skips_logged_in_users() {
    let resource = CacheResource::new(CacheUsersBy::AnonymousOnly);
    let mut db = test_db();
    let user = known_user("u1", &[], true);
    let served = resource.handle(
        &mut db,
        &get_request("/feed", ""),
        &user,
        &ScopeCheckOutcome::Failed,
        fresh_response("{\"f\":1}"),
        &settings(),
    );
    assert!(!served.cached_marker);
    assert!(served.cache_control.is_none());
    assert!(served.etag.is_none());
}

// Under the public-users-only policy a non-public identity is served
// fresh and nothing is stored.
#[test]
fn public_users_only_excludes_private_users() {
    let resource = CacheResource::new(CacheUsersBy::PublicUsersOnly);
    let mut db = test_db();
    let private_user = known_user("u2", &[], false);
    let scope = ScopeCheckOutcome::Failed;

    resource.handle(
        &mut db,
        &get_request("/listings", ""),
        &private_user,
        &scope,
        fresh_response("{\"l\":1}"),
        &settings(),
    );
    let again = resource.handle(
        &mut db,
        &get_request("/listings", ""),
        &private_user,
        &scope,
        fresh_response("{\"l\":2}"),
        &settings(),
    );
    assert!(!again.cached_marker, "non-public users are never cached");
    assert_eq!(again.body, "{\"l\":2}");
}

// Role-partitioned users with the same set of global roles share one
// entry, whatever order and multiplicity the roles arrived in: the
// partition key is the sorted, de-duplicated, comma-joined set.
#[test]
fn global_roles_share_partition() {
    let resource = CacheResource::new(CacheUsersBy::GlobalRoles);
    let mut db = test_db();
    let scope = ScopeCheckOutcome::Failed;
    let admin_one = known_user("a1", &["Super", "Admin"], true);
    let admin_two = known_user("a2", &["Admin", "Super", "Admin"], true);

    resource.handle(
        &mut db,
        &get_request("/admin", ""),
        &admin_one,
        &scope,
        fresh_response("{\"r\":1}"),
        &settings(),
    );
    let shared = resource.handle(
        &mut db,
        &get_request("/admin", ""),
        &admin_two,
        &scope,
        fresh_response("{\"r\":2}"),
        &settings(),
    );
    assert!(shared.cached_marker, "equal role sets share one partition");
    assert_eq!(shared.body, "{\"r\":1}");

    let outsider = known_user("u9", &["Support"], true);
    let separate = resource.handle(
        &mut db,
        &get_request("/admin", ""),
        &outsider,
        &scope,
        fresh_response("{\"r\":3}"),
        &settings(),
    );
    assert!(!separate.cached_marker, "different role sets are separate");
}

// Under the role policy, anonymous users and role-less users land in one
// shared (empty) partition.
#[test]
fn global_roles_anonymous_shares_roleless_partition() {
    let resource = CacheResource::new(CacheUsersBy::GlobalRoles);
    let mut db = test_db();
    let scope = ScopeCheckOutcome::Failed;
    let roleless = known_user("plain", &[], true);

    resource.handle(
        &mut db,
        &get_request("/feed", ""),
        &roleless,
        &scope,
        fresh_response("{\"f\":1}"),
        &settings(),
    );
    let anon = resource.handle(
        &mut db,
        &get_request("/feed", ""),
        &IdentityOutcome::Anonymous,
        &scope,
        fresh_response("{\"f\":2}"),
        &settings(),
    );
    assert!(anon.cached_marker, "anonymous and role-less users share one partition");
    assert_eq!(anon.body, "{\"f\":1}");
}

// Scope-presence partitioning separates holders from non-holders, and a
// failed resolution degrades to an uncached miss without headers.
#[test]
fn organization_scope_presence_partitions() {
    let resource = CacheResource::new(CacheUsersBy::OrganizationScopePresence(
        OrganizationLoad::Path,
        "org:read".to_string(),
    ));
    let mut db = test_db();
    let user = known_user("u3", &[], true);

    resource.handle(
        &mut db,
        &get_request("/organizations/1/x", ""),
        &user,
        &ScopeCheckOutcome::Holds(true),
        fresh_response("{\"s\":1}"),
        &settings(),
    );
    let non_holder = resource.handle(
        &mut db,
        &get_request("/organizations/1/x", ""),
        &user,
        &ScopeCheckOutcome::Holds(false),
        fresh_response("{\"s\":2}"),
        &settings(),
    );
    assert!(!non_holder.cached_marker, "holders and non-holders are separate");

    let holder_again = resource.handle(
        &mut db,
        &get_request("/organizations/1/x", ""),
        &user,
        &ScopeCheckOutcome::Holds(true),
        fresh_response("{\"s\":3}"),
        &settings(),
    );
    assert!(holder_again.cached_marker);
    assert_eq!(holder_again.body, "{\"s\":1}");

    let failed = resource.handle(
        &mut db,
        &get_request("/organizations/1/x", ""),
        &user,
        &ScopeCheckOutcome::Failed,
        fresh_response("{\"s\":4}"),
        &settings(),
    );
    assert!(!failed.cached_marker);
    assert!(failed.cache_control.is_none(), "resolution errors attach no caching headers");
    assert!(failed.etag.is_none());
}

// A failed identity resolution never fails the request: the fresh
// response is served, uncached, without caching headers.
#[test]
fn identity_resolution_failure_degrades_to_miss() {
    let resource = CacheResource::new(CacheUsersBy::UserId);
    let mut db = test_db();
    let served = resource.handle(
        &mut db,
        &get_request("/profile", ""),
        &IdentityOutcome::Failed,
        &ScopeCheckOutcome::Failed,
        fresh_response("{\"me\":1}"),
        &settings(),
    );
    assert_eq!(served.status, 200);
    assert_eq!(served.body, "{\"me\":1}");
    assert!(!served.cached_marker);
    assert!(served.cache_control.is_none());
    assert!(served.etag.is_none());
}

// With no cache service configured every operation is a no-op and the
// response passes through as if caching did not exist.
#[test]
fn unconfigured_cache_is_transparent() {
    let resource = CacheResource::new(CacheUsersBy::Everyone);
    let mut db = CacheDatabase { inner: None };
    let served = resource.handle(
        &mut db,
        &get_request("/anything", ""),
        &IdentityOutcome::Anonymous,
        &ScopeCheckOutcome::Failed,
        fresh_response("{\"a\":1}"),
        &settings(),
    );
    assert_eq!(served.status, 200);
    assert_eq!(served.body, "{\"a\":1}");
    assert!(!served.cached_marker);
    assert!(served.cache_control.is_none());
    assert!(served.etag.is_none());
}

// A non-JSON body still gets a cache-control header but no validation
// tag, and the response is returned to the client unmodified.
#[test]
fn non_json_body_gets_no_validation_tag() {
    let resource = CacheResource::new(CacheUsersBy::Everyone);
    let mut db = test_db();
    let served = resource.handle(
        &mut db,
        &get_request("/raw", ""),
        &IdentityOutcome::Anonymous,
        &ScopeCheckOutcome::Failed,
        fresh_response("not json at all"),
        &settings(),
    );
    assert_eq!(served.body, "not json at all");
    assert!(served.etag.is_none());
    assert_eq!(served.cache_control.as_deref(), Some("public, max-age=600"));
}

// A served hit returns the canonical rendering of the stored document:
// insignificant whitespace from the handler's body does not survive.
#[test]
fn hit_serves_canonical_json() {
    let resource = CacheResource::new(CacheUsersBy::Everyone);
    let mut db = test_db();
    let anon = IdentityOutcome::Anonymous;
    let scope = ScopeCheckOutcome::Failed;
    resource.handle(
        &mut db,
        &get_request("/spaced", ""),
        &anon,
        &scope,
        fresh_response("{ \"x\" : 1 }"),
        &settings(),
    );
    let hit = resource.handle(
        &mut db,
        &get_request("/spaced", ""),
        &anon,
        &scope,
        fresh_response("{}"),
        &settings(),
    );
    assert!(hit.cached_marker);
    assert_eq!(hit.body, "{\"x\":1}");
}

// Stored entries expire: after the time-to-live window the next GET is a
// fresh miss again.
#[test]
fn cached_entry_expires_after_ttl() {
    let resource = CacheResource::new(CacheUsersBy::Everyone);
    let mut db = test_db();
    let anon = IdentityOutcome::Anonymous;
    let scope = ScopeCheckOutcome::Failed;
    resource.handle(
        &mut db,
        &get_request("/ttl", ""),
        &anon,
        &scope,
        fresh_response("{\"t\":1}"),
        &settings(),
    );
    db.inner.as_mut().unwrap().advance_clock(10_001);
    let after = resource.handle(
        &mut db,
        &get_request("/ttl", ""),
        &anon,
        &scope,
        fresh_response("{\"t\":2}"),
        &settings(),
    );
    assert!(!after.cached_marker);
    assert_eq!(after.body, "{\"t\":2}");
}

// A lookup that times out degrades the request to the timeout decision:
// it runs fresh and nothing is stored afterward. Any other lookup
// failure degrades to a miss that may still store the fresh result.
#[test]
fn lookup_failures_degrade_and_never_fail_the_request() {
    let resource = CacheResource::new(CacheUsersBy::Everyone);
    let anon = IdentityOutcome::Anonymous;
    let scope = ScopeCheckOutcome::Failed;

    let prepared = resource.prepare(&get_request("/slow", ""), &anon, &scope);
    let decision = CacheResource::conclude(
        prepared,
        Err(CacheError::new_timeout("read deadline exceeded".to_string())),
    );
    match decision {
        Cache::Timeout(cfg) => assert!(!cfg.cache_response, "after a timeout nothing is stored"),
        _ => panic!("a timed-out lookup must yield the timeout decision"),
    }

    let prepared = resource.prepare(&get_request("/broken", ""), &anon, &scope);
    let decision = CacheResource::conclude(
        prepared,
        Err(CacheError::new("connection reset".to_string())),
    );
    match decision {
        Cache::Miss(cfg) => assert!(cfg.cache_response, "a transport failure still allows storing"),
        _ => panic!("a failed lookup must degrade to a miss"),
    }
}
