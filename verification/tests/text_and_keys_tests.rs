use bigneon_cache::caching::CacheDatabase;
use bigneon_cache::caching::get_cached_value;
use bigneon_cache::config::Config;
use bigneon_cache::errors::CacheError;
use bigneon_cache::http::compute_etag;
use bigneon_cache::keys::build_cache_data;
use bigneon_cache::keys::derive_key;
use bigneon_cache::keys::insert_name;
use bigneon_cache::keys::insert_sorted;
use bigneon_cache::keys::role_partition;
use bigneon_cache::keys::serialize_cache_data;
use bigneon_cache::pool::CachePool;
use bigneon_cache::support::AddListingItemRequest;
use bigneon_cache::support::CreateListingRequest;
use bigneon_cache::support::Json;
use bigneon_cache::support::JsonConfig;
use bigneon_cache::support::RefundResult;
use bigneon_cache::support::RequestLogData;
use bigneon_cache::text::comma_join;
use bigneon_cache::text::contains_str;
use bigneon_cache::text::str_eq;
use bigneon_cache::text::str_lt;
use bigneon_cache::text::u64_to_dec;
use bigneon_cache::text::u64_to_hex;

#[test]
fn decimal_rendering_exact_values() {
    assert_eq!(u64_to_dec(0), "0");
    assert_eq!(u64_to_dec(7), "7");
    assert_eq!(u64_to_dec(12345), "12345");
    assert_eq!(u64_to_dec(u64::MAX), "18446744073709551615");
}

#[test]
fn hex_rendering_exact_values() {
    assert_eq!(u64_to_hex(0), "0");
    assert_eq!(u64_to_hex(255), "ff");
    assert_eq!(u64_to_hex(0xcbf29ce484222325), "cbf29ce484222325");
}

#[test]
fn comma_join_exact_values() {
    assert_eq!(comma_join(&vec![]), "");
    assert_eq!(comma_join(&vec!["Admin".to_string()]), "Admin");
    assert_eq!(
        comma_join(&vec!["Admin".to_string(), "Super".to_string()]),
        "Admin,Super"
    );
}

#[test]
fn substring_search_cases() {
    assert!(contains_str("abcdef", "cde"));
    assert!(contains_str("abcdef", ""));
    assert!(contains_str("abcdef", "abcdef"));
    assert!(!contains_str("abcdef", "abcdefg"));
    assert!(!contains_str("abcdef", "ac"));
    assert!(contains_str("/events/10", "/events/1"));
}

#[test]
fn string_comparison_cases() {
    assert!(str_lt("a", "b"));
    assert!(str_lt("a", "ab"));
    assert!(!str_lt("b", "a"));
    assert!(!str_lt("a", "a"));
    assert!(str_eq("same", "same"));
    assert!(!str_eq("same", "sane"));
}

// The derived key embeds the sorted query pairs, the method and the path,
// in the documented wire shape.
#[test]
fn derived_key_exact_value() {
    let key = derive_key("GET", "/a", "b=2&a=1", &None);
    assert_eq!(key, "a=1;b=2;method=GET;path=/a;");

    let partitioned = derive_key("GET", "/a", "", &Some("Admin".to_string()));
    assert_eq!(partitioned, "method=GET;path=/a;x-user-role=Admin;");
}

// Percent-encoded query pairs are decoded before entering the key, so
// the key derivation goes through real form decoding; the serializer
// then re-escapes the characters it reserves.
#[test]
fn derived_key_decodes_query_pairs() {
    let key = derive_key("GET", "/p", "a=%25try%25&b=one+two", &None);
    assert_eq!(key, "a=%25try%25;b=one two;method=GET;path=/p;");
}

// The key encoding is injective: a single decoded value that spells out
// `name=value` separators never collides with genuinely separate pairs.
#[test]
fn key_encoding_never_collides() {
    let smuggled = derive_key("GET", "/c", "a=1%3Bb%3D2", &None);
    let separate = derive_key("GET", "/c", "a=1&b=2", &None);
    assert_eq!(smuggled, "a=1%3Bb%3D2;method=GET;path=/c;");
    assert_eq!(separate, "a=1;b=2;method=GET;path=/c;");
    assert_ne!(smuggled, separate);
}

// A later query pair with the same name overwrites the earlier one.
#[test]
fn duplicate_query_names_last_wins() {
    let key = derive_key("GET", "/d", "a=1&a=2", &None);
    assert_eq!(key, "a=2;method=GET;path=/d;");
}

#[test]
fn sorted_insertion_orders_pairs() {
    let mut data: Vec<(String, String)> = Vec::new();
    insert_sorted(&mut data, "m".to_string(), "1".to_string());
    insert_sorted(&mut data, "a".to_string(), "2".to_string());
    insert_sorted(&mut data, "z".to_string(), "3".to_string());
    insert_sorted(&mut data, "m".to_string(), "4".to_string());
    assert_eq!(serialize_cache_data(&data), "a=2;m=4;z=3;");
}

#[test]
fn build_cache_data_layout() {
    let data = build_cache_data("GET", "/x", "k=v", &None);
    let pairs: Vec<(String, String)> = data;
    assert_eq!(pairs.len(), 3);
    assert_eq!(pairs[0], ("k".to_string(), "v".to_string()));
    assert_eq!(pairs[1], ("method".to_string(), "GET".to_string()));
    assert_eq!(pairs[2], ("path".to_string(), "/x".to_string()));
}

// The validation tag is the FNV-1a digest of the canonical body in a weak
// entity tag; the digest of the empty input is the offset basis.
#[test]
fn validation_tag_exact_values() {
    assert_eq!(compute_etag(""), "W/\"cbf29ce484222325\"");
    assert_eq!(compute_etag("{\"x\":1}"), "W/\"bdd3d53c3a0b3fd6\"");
}

#[test]
fn cache_error_constructors() {
    let plain = CacheError::new("boom".to_string());
    assert_eq!(plain.message(), "boom");
    assert!(!plain.timeout);
    let late = CacheError::new_timeout("too slow".to_string());
    assert_eq!(late.message(), "too slow");
    assert!(late.timeout);
}

// A stored document that is not valid JSON reads as a miss through the
// cached-value helper, while a valid one comes back canonicalized.
#[test]
fn cached_value_requires_parseable_document() {
    let config = Config {
        database_url: "redis://127.0.0.1/".to_owned(),
        read_timeout_ms: 100,
        write_timeout_ms: 100,
        max_size: 1,
        concurrency: 1,
    };
    let mut db = CacheDatabase {
        inner: Some(CachePool::from_config(&config).unwrap()),
    };
    let data = build_cache_data("GET", "/doc", "", &None);
    let key = serialize_cache_data(&data);
    db.inner.as_mut().unwrap().add(&key, "{ \"x\" : [1, 2] }", Some(1000));
    assert_eq!(get_cached_value(&mut db, &data), Some("{\"x\":[1,2]}".to_string()));

    db.inner.as_mut().unwrap().add(&key, "not json", Some(1000));
    assert_eq!(get_cached_value(&mut db, &data), None);
}

#[test]
fn json_carrier_and_config() {
    let wrapped = Json(41_u64);
    assert_eq!(wrapped.into_inner(), 41);
    let mut config = JsonConfig::default();
    assert_eq!(config.limit, 262144);
    config.limit(1024);
    assert_eq!(config.limit, 1024);
}

#[test]
fn refund_result_raw_document() {
    let refund = RefundResult {
        id: "re_1".to_string(),
        raw_data: "{\"id\":\"re_1\"}".to_string(),
    };
    assert_eq!(refund.to_json(), "{\"id\":\"re_1\"}");
}

#[test]
fn request_plumbing_types_carry_their_fields() {
    let log = RequestLogData {
        user: Some(7),
        ip_address: None,
        method: "GET".to_string(),
        user_agent: Some("curl".to_string()),
        uri: "/status".to_string(),
    };
    assert_eq!(log.uri, "/status");
    let listing = CreateListingRequest {
        title: "two tickets".to_string(),
        items: vec![AddListingItemRequest {
            ticket_type_id: 3,
            quantity: 2,
        }],
        asking_price_in_cents: 1500,
    };
    assert_eq!(listing.items[0].quantity, 2);
}

// The role partition is the sorted, de-duplicated, comma-joined set of
// the roles; the empty set derives the empty partition.
#[test]
fn role_partition_sorts_and_deduplicates() {
    assert_eq!(role_partition(&vec![]), "");
    assert_eq!(
        role_partition(&vec!["Super".to_string(), "Admin".to_string()]),
        "Admin,Super"
    );
    assert_eq!(
        role_partition(&vec![
            "Admin".to_string(),
            "Super".to_string(),
            "Admin".to_string()
        ]),
        "Admin,Super"
    );
}

#[test]
fn name_insertion_keeps_one_copy_in_order() {
    let mut names: Vec<String> = Vec::new();
    insert_name(&mut names, "m".to_string());
    insert_name(&mut names, "a".to_string());
    insert_name(&mut names, "m".to_string());
    insert_name(&mut names, "z".to_string());
    assert_eq!(names, vec!["a".to_string(), "m".to_string(), "z".to_string()]);
}
