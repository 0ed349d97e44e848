use cache_registry::cache::parse_policy;
use cache_registry::errors::CacheError;
use cache_registry::handlers::stats_json;
use cache_registry::store::{CacheStats, Policy};
use cache_registry::text::{str_eq, u64_to_string};

#[test]
fn decimal_rendering_exact() {
    assert_eq!(u64_to_string(0), "0");
    assert_eq!(u64_to_string(7), "7");
    assert_eq!(u64_to_string(10), "10");
    assert_eq!(u64_to_string(1234567890), "1234567890");
    assert_eq!(u64_to_string(u64::MAX), "18446744073709551615");
}

#[test]
fn string_equality() {
    assert!(str_eq("", ""));
    assert!(str_eq("lru", "lru"));
    assert!(!str_eq("lru", "mru"));
    assert!(!str_eq("lru", "lr"));
    assert!(!str_eq("lru", "LRU"));
}

#[test]
fn stats_json_format() {
    let s = CacheStats { hits: 12, misses: 345, size: 6, capacity: 7890 };
    assert_eq!(stats_json(s), r#"{"hits":12,"misses":345,"size":6,"capacity":7890}"#);
}

#[test]
fn policy_identifiers_are_case_sensitive() {
    assert_eq!(parse_policy("lru"), Some(Policy::Lru));
    assert_eq!(parse_policy("fifo"), Some(Policy::Fifo));
    assert_eq!(parse_policy("mru"), Some(Policy::Mru));
    assert_eq!(parse_policy("ttl"), Some(Policy::Ttl));
    assert_eq!(parse_policy("LRU"), None);
    assert_eq!(parse_policy(""), None);
    assert_eq!(parse_policy("unknown"), None);
}

#[test]
fn error_messages_and_status_codes() {
    assert_eq!(CacheError::CacheNotFound.message(), "Cache not found");
    assert_eq!(CacheError::CacheAlreadyExists.message(), "Cache already exists");
    assert_eq!(CacheError::UnknownCacheType.message(), "Unknown cache type");
    assert_eq!(CacheError::KeyNotFound.message(), "Key not found");
    assert_eq!(CacheError::Internal.message(), "Internal error");
    assert_eq!(CacheError::CacheNotFound.status_code(), 404);
    assert_eq!(CacheError::CacheAlreadyExists.status_code(), 409);
    assert_eq!(CacheError::UnknownCacheType.status_code(), 400);
    assert_eq!(CacheError::KeyNotFound.status_code(), 404);
    assert_eq!(CacheError::Internal.status_code(), 500);
}
