use cache_registry::errors::CacheError;
use cache_registry::handlers::{
    create_cache, delete_cache, delete_value, get_value, set_value, stats, stats_json,
};
use cache_registry::request_types::{CreateCacheRequest, DeleteCacheRequest};
use cache_registry::state::AppState;

fn lru_request(name: &str, capacity: u64) -> CreateCacheRequest {
    CreateCacheRequest {
        name: name.to_string(),
        cache_type: "lru".to_string(),
        capacity,
        ttl: None,
        check_interval: None,
        jitter: None,
    }
}

#[test]
fn test_create_cache() {
    let state = AppState::new();
    let resp = create_cache(&state, &lru_request("test", 10));
    assert!(resp.is_ok());
}

#[test]
fn test_create_cache_already_exists() {
    let state = AppState::new();
    let resp = create_cache(&state, &lru_request("test", 10));
    assert!(resp.is_ok());
    let resp = create_cache(&state, &lru_request("test", 10));
    assert_eq!(resp, Err(CacheError::CacheAlreadyExists));
    assert_eq!(CacheError::CacheAlreadyExists.status_code(), 409);
}

#[test]
fn test_delete_cache() {
    let state = AppState::new();
    let resp = create_cache(&state, &lru_request("test", 10));
    assert!(resp.is_ok());
    let resp = delete_cache(&state, &DeleteCacheRequest { name: "test".to_string() });
    assert!(resp.is_ok());
}

#[test]
fn test_delete_cache_not_found() {
    let state = AppState::new();
    let resp = delete_cache(&state, &DeleteCacheRequest { name: "test".to_string() });
    assert_eq!(resp, Err(CacheError::CacheNotFound));
    assert_eq!(CacheError::CacheNotFound.status_code(), 404);
}

#[test]
fn test_get_value() {
    let state = AppState::new();
    assert!(create_cache(&state, &lru_request("test", 10)).is_ok());
    assert!(set_value(&state, "test", "key".to_string(), b"value".to_vec()).is_ok());
    let resp = get_value(&state, "test", "key");
    assert_eq!(resp, Ok(b"value".to_vec()));
}

#[test]
fn test_get_value_not_found() {
    let state = AppState::new();
    let resp = get_value(&state, "test", "key");
    assert_eq!(resp, Err(CacheError::CacheNotFound));
    assert_eq!(CacheError::CacheNotFound.status_code(), 404);
}

#[test]
fn test_set_value() {
    let state = AppState::new();
    assert!(create_cache(&state, &lru_request("test", 10)).is_ok());
    let resp = set_value(&state, "test", "key".to_string(), b"value".to_vec());
    assert!(resp.is_ok());
}

#[test]
fn test_delete_value() {
    let state = AppState::new();
    assert!(create_cache(&state, &lru_request("test", 10)).is_ok());
    assert!(set_value(&state, "test", "key".to_string(), b"value".to_vec()).is_ok());
    let resp = delete_value(&state, "test", "key");
    assert!(resp.is_ok());
}

#[test]
fn test_stats() {
    let state = AppState::new();
    assert!(create_cache(&state, &lru_request("test", 10)).is_ok());
    let resp = stats(&state, "test");
    let snapshot = resp.expect("stats should succeed on an existing cache");
    let body = stats_json(snapshot);
    assert_eq!(body, r#"{"hits":0,"misses":0,"size":0,"capacity":10}"#);
}

#[test]
fn test_stats_not_found() {
    let state = AppState::new();
    let resp = stats(&state, "test");
    assert_eq!(resp, Err(CacheError::CacheNotFound));
}

#[test]
fn test_unknown_cache_type() {
    let state = AppState::new();
    let req = CreateCacheRequest {
        name: "test".to_string(),
        cache_type: "unknown".to_string(),
        capacity: 10,
        ttl: None,
        check_interval: None,
        jitter: None,
    };
    let resp = create_cache(&state, &req);
    assert_eq!(resp, Err(CacheError::UnknownCacheType));
    assert_eq!(CacheError::UnknownCacheType.status_code(), 400);
}

#[test]
fn test_create_ttl_cache() {
    let state = AppState::new();
    let req = CreateCacheRequest {
        name: "test".to_string(),
        cache_type: "ttl".to_string(),
        capacity: 10,
        ttl: Some(60),
        check_interval: Some(10),
        jitter: Some(0),
    };
    let resp = create_cache(&state, &req);
    assert!(resp.is_ok());
}

#[test]
fn test_create_ttl_cache_defaults() {
    let state = AppState::new();
    let req = CreateCacheRequest {
        name: "test".to_string(),
        cache_type: "ttl".to_string(),
        capacity: 10,
        ttl: None,
        check_interval: None,
        jitter: None,
    };
    let resp = create_cache(&state, &req);
    assert!(resp.is_ok());
}

#[test]
fn integration_test() {
    let state = AppState::new();

    // Create a cache named "test_cache" of type "lru".
    let resp = create_cache(&state, &lru_request("test_cache", 10));
    assert!(resp.is_ok());

    // Set key "foo" to value "bar".
    assert!(set_value(&state, "test_cache", "foo".to_string(), b"bar".to_vec()).is_ok());

    // Retrieve the value for key "foo".
    assert_eq!(get_value(&state, "test_cache", "foo"), Ok(b"bar".to_vec()));

    // Remove key "foo".
    assert!(delete_value(&state, "test_cache", "foo").is_ok());

    // Confirm key "foo" no longer exists.
    assert_eq!(get_value(&state, "test_cache", "foo"), Err(CacheError::KeyNotFound));
    assert_eq!(CacheError::KeyNotFound.status_code(), 404);

    // Check cache statistics.
    let snapshot = stats(&state, "test_cache").expect("stats should succeed");
    assert_eq!(snapshot.size, 0);
    assert_eq!(snapshot.capacity, 10);
    assert_eq!(snapshot.hits, 1);
    assert_eq!(snapshot.misses, 1);
}
