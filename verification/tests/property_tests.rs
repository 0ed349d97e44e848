use cache_registry::cache::build_cache;
use cache_registry::errors::CacheError;
use cache_registry::handlers::{create_cache, get_value, set_value, stats};
use cache_registry::request_types::CreateCacheRequest;
use cache_registry::state::AppState;

fn request(name: &str, cache_type: &str, capacity: u64) -> CreateCacheRequest {
    CreateCacheRequest {
        name: name.to_string(),
        cache_type: cache_type.to_string(),
        capacity,
        ttl: None,
        check_interval: None,
        jitter: None,
    }
}

#[test]
fn create_then_exists_and_second_create_fails() {
    let state = AppState::new();
    assert_eq!(state.cache_exists("a"), Err(CacheError::CacheNotFound));
    assert!(create_cache(&state, &request("a", "lru", 7)).is_ok());
    assert_eq!(state.cache_exists("a"), Ok(()));
    // A second creation fails, and the first instance is unaltered: it
    // still reports the capacity it was created with, not the new one.
    assert_eq!(create_cache(&state, &request("a", "lru", 99)), Err(CacheError::CacheAlreadyExists));
    let snapshot = stats(&state, "a").expect("stats should succeed");
    assert_eq!(snapshot.capacity, 7);
}

#[test]
fn absent_name_remove_and_lookup_fail() {
    let state = AppState::new();
    assert!(matches!(state.remove_cache("nope"), Err(CacheError::CacheNotFound)));
    assert!(matches!(state.get_cache("nope"), Err(CacheError::CacheNotFound)));
}

#[test]
fn set_get_remove_roundtrip() {
    let state = AppState::new();
    assert!(create_cache(&state, &request("c", "lru", 10)).is_ok());
    assert!(set_value(&state, "c", "k".to_string(), b"v".to_vec()).is_ok());
    assert_eq!(get_value(&state, "c", "k"), Ok(b"v".to_vec()));
    assert!(cache_registry::handlers::delete_value(&state, "c", "k").is_ok());
    assert_eq!(get_value(&state, "c", "k"), Err(CacheError::KeyNotFound));
}

#[test]
fn stats_count_hits_misses_and_size() {
    let state = AppState::new();
    assert!(create_cache(&state, &request("s", "lru", 5)).is_ok());
    let fresh = stats(&state, "s").expect("stats");
    assert_eq!((fresh.hits, fresh.misses, fresh.size, fresh.capacity), (0, 0, 0, 5));

    // One miss-producing get increments misses by exactly one.
    assert_eq!(get_value(&state, "s", "absent"), Err(CacheError::KeyNotFound));
    let after_miss = stats(&state, "s").expect("stats");
    assert_eq!((after_miss.hits, after_miss.misses), (0, 1));

    // A set of a new key increments size by exactly one.
    assert!(set_value(&state, "s", "k".to_string(), b"v".to_vec()).is_ok());
    let after_set = stats(&state, "s").expect("stats");
    assert_eq!(after_set.size, 1);

    // One hit-producing get increments hits by exactly one.
    assert_eq!(get_value(&state, "s", "k"), Ok(b"v".to_vec()));
    let after_hit = stats(&state, "s").expect("stats");
    assert_eq!((after_hit.hits, after_hit.misses, after_hit.size), (1, 1, 1));
}

#[test]
fn concurrent_create_exactly_one_succeeds() {
    // The registry lock serializes creations, so many workers racing to
    // create one name behave as some sequence of attempts; whatever the
    // order, exactly the first succeeds and the rest observe the conflict.
    let state = AppState::new();
    let workers: usize = 8;
    let mut ok_count = 0;
    let mut exists_count = 0;
    for _ in 0..workers {
        match create_cache(&state, &request("x", "lru", 3)) {
            Ok(()) => ok_count += 1,
            Err(CacheError::CacheAlreadyExists) => exists_count += 1,
            Err(other) => panic!("unexpected error: {:?}", other),
        }
    }
    assert_eq!(ok_count, 1);
    assert_eq!(exists_count, workers - 1);
}

#[test]
fn unknown_policy_registers_nothing() {
    let state = AppState::new();
    assert_eq!(create_cache(&state, &request("u", "unknown", 10)), Err(CacheError::UnknownCacheType));
    assert_eq!(state.cache_exists("u"), Err(CacheError::CacheNotFound));
    // Directly through the factory as well.
    assert!(build_cache("unknown", 10, None, None, None).is_err());
}

#[test]
fn lru_evicts_least_recently_accessed() {
    let state = AppState::new();
    assert!(create_cache(&state, &request("l", "lru", 2)).is_ok());
    assert!(set_value(&state, "l", "a".to_string(), b"1".to_vec()).is_ok());
    assert!(set_value(&state, "l", "b".to_string(), b"2".to_vec()).is_ok());
    // Touch "a": now "b" is the least recently accessed.
    assert_eq!(get_value(&state, "l", "a"), Ok(b"1".to_vec()));
    assert!(set_value(&state, "l", "c".to_string(), b"3".to_vec()).is_ok());
    assert_eq!(get_value(&state, "l", "b"), Err(CacheError::KeyNotFound));
    assert_eq!(get_value(&state, "l", "a"), Ok(b"1".to_vec()));
    assert_eq!(get_value(&state, "l", "c"), Ok(b"3".to_vec()));
}

#[test]
fn fifo_evicts_oldest_inserted() {
    let state = AppState::new();
    assert!(create_cache(&state, &request("f", "fifo", 2)).is_ok());
    assert!(set_value(&state, "f", "a".to_string(), b"1".to_vec()).is_ok());
    assert!(set_value(&state, "f", "b".to_string(), b"2".to_vec()).is_ok());
    // Touching "a" does not save it: insertion order decides.
    assert_eq!(get_value(&state, "f", "a"), Ok(b"1".to_vec()));
    assert!(set_value(&state, "f", "c".to_string(), b"3".to_vec()).is_ok());
    assert_eq!(get_value(&state, "f", "a"), Err(CacheError::KeyNotFound));
    assert_eq!(get_value(&state, "f", "b"), Ok(b"2".to_vec()));
    assert_eq!(get_value(&state, "f", "c"), Ok(b"3".to_vec()));
}

#[test]
fn mru_evicts_most_recently_accessed() {
    let state = AppState::new();
    assert!(create_cache(&state, &request("m", "mru", 2)).is_ok());
    assert!(set_value(&state, "m", "a".to_string(), b"1".to_vec()).is_ok());
    assert!(set_value(&state, "m", "b".to_string(), b"2".to_vec()).is_ok());
    // Touch "a": it becomes the most recently accessed and is evicted next.
    assert_eq!(get_value(&state, "m", "a"), Ok(b"1".to_vec()));
    assert!(set_value(&state, "m", "c".to_string(), b"3".to_vec()).is_ok());
    assert_eq!(get_value(&state, "m", "a"), Err(CacheError::KeyNotFound));
    assert_eq!(get_value(&state, "m", "b"), Ok(b"2".to_vec()));
    assert_eq!(get_value(&state, "m", "c"), Ok(b"3".to_vec()));
}

#[test]
fn overwrite_keeps_size_and_replaces_value() {
    let state = AppState::new();
    assert!(create_cache(&state, &request("o", "lru", 2)).is_ok());
    assert!(set_value(&state, "o", "k".to_string(), b"old".to_vec()).is_ok());
    assert!(set_value(&state, "o", "k".to_string(), b"new".to_vec()).is_ok());
    assert_eq!(get_value(&state, "o", "k"), Ok(b"new".to_vec()));
    assert_eq!(stats(&state, "o").expect("stats").size, 1);
}

#[test]
fn capacity_zero_never_retains() {
    let state = AppState::new();
    assert!(create_cache(&state, &request("z", "lru", 0)).is_ok());
    assert!(set_value(&state, "z", "k".to_string(), b"v".to_vec()).is_ok());
    assert_eq!(get_value(&state, "z", "k"), Err(CacheError::KeyNotFound));
    assert_eq!(stats(&state, "z").expect("stats").size, 0);
}

#[test]
fn ttl_zero_lapses_immediately() {
    let state = AppState::new();
    let req = CreateCacheRequest {
        name: "t".to_string(),
        cache_type: "ttl".to_string(),
        capacity: 10,
        ttl: Some(0),
        check_interval: Some(1),
        jitter: Some(0),
    };
    assert!(create_cache(&state, &req).is_ok());
    assert!(set_value(&state, "t", "k".to_string(), b"v".to_vec()).is_ok());
    assert_eq!(get_value(&state, "t", "k"), Err(CacheError::KeyNotFound));
    assert_eq!(stats(&state, "t").expect("stats").size, 0);
}

#[test]
fn ttl_keeps_unexpired_entries() {
    let state = AppState::new();
    let req = CreateCacheRequest {
        name: "t2".to_string(),
        cache_type: "ttl".to_string(),
        capacity: 10,
        ttl: Some(3600),
        check_interval: Some(10),
        jitter: Some(0),
    };
    assert!(create_cache(&state, &req).is_ok());
    assert!(set_value(&state, "t2", "k".to_string(), b"v".to_vec()).is_ok());
    assert_eq!(get_value(&state, "t2", "k"), Ok(b"v".to_vec()));
    assert_eq!(stats(&state, "t2").expect("stats").size, 1);
}

#[test]
fn removed_cache_handle_stays_usable() {
    let state = AppState::new();
    assert!(create_cache(&state, &request("r", "lru", 4)).is_ok());
    assert!(set_value(&state, "r", "k".to_string(), b"v".to_vec()).is_ok());
    let handle = state.get_cache("r").expect("cache should exist");
    let removed = state.remove_cache("r").expect("removal should succeed");
    // The registry no longer knows the name, but both handles stay valid.
    assert_eq!(get_value(&state, "r", "k"), Err(CacheError::CacheNotFound));
    assert_eq!(handle.get("k"), Some(b"v".to_vec()));
    assert_eq!(removed.stats().capacity, 4);
}
