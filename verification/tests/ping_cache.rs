//! The cache of pings.
use compas::mcp::health::{PingCache, PingResult};

/// The time at which everything happens.
const NOW_MS: u64 = 1_000;

#[test]
fn test_ping_cache_miss_returns_none() {
    let cache = PingCache::new();
    let ttl = 60_000u64;
    assert!(cache.get("agent-a", ttl, NOW_MS).is_none());
}

#[test]
fn test_ping_cache_hit_within_ttl() {
    let mut cache = PingCache::new();
    let ttl = 60_000u64;
    cache.set(
        "agent-a".to_string(),
        PingResult {
            alive: true,
            latency_ms: 42,
            detail: None,
        },
        NOW_MS,
    );
    let result = cache.get("agent-a", ttl, NOW_MS).expect("should hit cache");
    assert!(result.alive);
    assert_eq!(result.latency_ms, 42);
}

#[test]
fn test_ping_cache_expired_returns_none() {
    let mut cache = PingCache::new();
    // Use a zero TTL so the entry is immediately expired.
    let ttl = 0u64;
    cache.set(
        "agent-a".to_string(),
        PingResult {
            alive: true,
            latency_ms: 10,
            detail: None,
        },
        NOW_MS,
    );
    assert!(cache.get("agent-a", ttl, NOW_MS).is_none());
}

#[test]
fn test_ping_cache_overwrite() {
    let mut cache = PingCache::new();
    let ttl = 60_000u64;
    cache.set(
        "agent-a".to_string(),
        PingResult {
            alive: false,
            latency_ms: 100,
            detail: Some("down".to_string()),
        },
        NOW_MS,
    );
    cache.set(
        "agent-a".to_string(),
        PingResult {
            alive: true,
            latency_ms: 5,
            detail: None,
        },
        NOW_MS,
    );
    let result = cache.get("agent-a", ttl, NOW_MS).expect("should hit cache");
    assert!(result.alive);
    assert_eq!(result.latency_ms, 5);
}

#[test]
fn test_ping_cache_independent_agents() {
    let mut cache = PingCache::new();
    let ttl = 60_000u64;
    cache.set(
        "agent-a".to_string(),
        PingResult {
            alive: true,
            latency_ms: 10,
            detail: None,
        },
        NOW_MS,
    );
    cache.set(
        "agent-b".to_string(),
        PingResult {
            alive: false,
            latency_ms: 0,
            detail: Some("unreachable".to_string()),
        },
        NOW_MS,
    );
    let a = cache.get("agent-a", ttl, NOW_MS).unwrap();
    let b = cache.get("agent-b", ttl, NOW_MS).unwrap();
    assert!(a.alive);
    assert!(!b.alive);
    assert!(cache.get("agent-c", ttl, NOW_MS).is_none());
}
