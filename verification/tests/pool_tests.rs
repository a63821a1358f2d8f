use bigneon_cache::config::Config;
use bigneon_cache::pool::CachePool;

fn test_config() -> Config {
    Config {
        database_url: "redis://127.0.0.1/".to_owned(),
        read_timeout_ms: 100,
        write_timeout_ms: 100,
        max_size: 1,
        concurrency: 1,
    }
}

fn test_pool() -> CachePool {
    CachePool::from_config(&test_config()).unwrap()
}

#[test]
fn test_expire() {
    let mut pool = test_pool();
    // store key for 10 milliseconds
    pool.add("key1", "value", Some(10));
    pool.advance_clock(11);
    // key should now be expired
    assert!(pool.get("key1").is_none());
}

#[test]
fn test_set_get() {
    let mut pool = test_pool();
    pool.add("key2", "value", Some(1000));
    assert_eq!(Some("value".to_string()), pool.get("key2"));
}

#[test]
fn test_publish() {
    let mut pool = test_pool();
    pool.publish("test_channel", "cache test message");
    assert_eq!(pool.published.len(), 1);
    assert_eq!(pool.published[0].0, "test_channel");
    assert_eq!(pool.published[0].1, "cache test message");
}

#[test]
fn test_delete() {
    let mut pool = test_pool();
    pool.add("uniquekey1", "value", Some(1000));
    pool.add("uniquekey2", "value", Some(1000));
    pool.delete("uniquekey1");
    assert!(
        pool.get("uniquekey1").is_none(),
        "deleted key should not be present"
    );
    assert!(
        pool.get("uniquekey2").is_some(),
        "not deleted key should be present"
    );
}

#[test]
fn test_delete_by_key_fragment() {
    let mut pool = test_pool();
    pool.add("uniquekey3", "value", Some(1000));
    pool.add("keyset:1", "value", Some(1000));
    pool.add("keyset:2", "value", Some(1000));

    pool.delete_by_key_fragment("keyset");
    assert!(
        pool.get("keyset:1").is_none(),
        "deleted key should not be present"
    );
    assert!(
        pool.get("keyset:2").is_none(),
        "deleted key should not be present"
    );
    assert!(
        pool.get("uniquekey3").is_some(),
        "not deleted key should be present"
    );
}

// With a long time-to-live a value round-trips; after its window it reads
// as absent.
#[test]
fn round_trip_with_expiry_window() {
    let mut pool = test_pool();
    pool.add("k", "v", Some(10));
    pool.advance_clock(11);
    assert_eq!(pool.get("k"), None);
    pool.add("k2", "v", Some(1000));
    assert_eq!(pool.get("k2"), Some("v".to_string()));
}

// Fragment deletion leaves exactly the keys not containing the fragment.
#[test]
fn fragment_deletion_leaves_unrelated_keys() {
    let mut pool = test_pool();
    pool.add("a:1", "one", Some(1_000_000));
    pool.add("a:2", "two", Some(1_000_000));
    pool.add("b:1", "three", Some(1_000_000));
    pool.delete_by_key_fragment("a");
    assert_eq!(pool.get("a:1"), None);
    assert_eq!(pool.get("a:2"), None);
    assert_eq!(pool.get("b:1"), Some("three".to_string()));
}

// With pool size 1 and concurrency factor 1 the second concurrent read
// finds no permit and must wait until an earlier one releases.
#[test]
fn concurrency_bound_blocks_excess_reads() {
    let mut pool = test_pool();
    assert!(pool.try_acquire_read_permit());
    assert!(!pool.try_acquire_read_permit());
    assert!(!pool.try_acquire_read_permit());
    pool.release_read_permit();
    assert!(pool.try_acquire_read_permit());
}

#[test]
fn from_config_rejects_zero_sized_pool() {
    let mut config = test_config();
    config.max_size = 0;
    let err = CachePool::from_config(&config).err().unwrap();
    assert!(!err.timeout);
    assert_eq!(err.message(), "pool size must be at least one");
}

#[test]
fn overwrite_replaces_value_wholesale() {
    let mut pool = test_pool();
    pool.add("k", "first", Some(1000));
    pool.add("k", "second", Some(1000));
    assert_eq!(pool.get("k"), Some("second".to_string()));
}

#[test]
fn round_robin_counter_advances() {
    let mut config = test_config();
    config.max_size = 3;
    let mut pool = CachePool::from_config(&config).unwrap();
    assert_eq!(pool.next_conn_index(), 0);
    assert_eq!(pool.next_conn_index(), 1);
    assert_eq!(pool.next_conn_index(), 2);
    assert_eq!(pool.next_conn_index(), 0);
}

#[test]
fn default_config_has_documented_values() {
    let config = Config::default();
    assert_eq!(config.database_url, "redis://127.0.0.1/");
    assert_eq!(config.read_timeout_ms, 100);
    assert_eq!(config.write_timeout_ms, 100);
    assert!(config.max_size >= 1);
    assert_eq!(config.concurrency, 4);
}

// An empty fragment is contained in every key, so deleting by it clears
// the whole keyspace.
#[test]
fn empty_fragment_clears_everything() {
    let mut pool = test_pool();
    pool.add("x", "1", None);
    pool.add("y", "2", None);
    pool.delete_by_key_fragment("");
    assert_eq!(pool.get("x"), None);
    assert_eq!(pool.get("y"), None);
}

// An entry stored without a time-to-live never expires.
#[test]
fn entry_without_ttl_does_not_expire() {
    let mut pool = test_pool();
    pool.add("forever", "v", None);
    pool.advance_clock(u64::MAX);
    assert_eq!(pool.get("forever"), Some("v".to_string()));
}
