//! The verdict cache: hits, misses, lifetimes, eviction, and the manager's
//! doubled lifetime for malicious verdicts. The clock is a plain number
//! here, so expiry is driven by values, not by sleeping.

use proxy_rs::dnsbl::cache::{DnsblCache, DnsblCacheManager};
use proxy_rs::dnsbl::{DnsblCheckResults, DnsblConfig, DnsblResult};

fn create_test_results(ip: &str, listed: bool) -> DnsblCheckResults {
    let mut results = DnsblCheckResults::new(ip.to_string());
    results.add_result(DnsblResult {
        list_name: "test".to_string(),
        listed,
        reason: None,
        response_time_ms: 100,
    });
    results.update_malicious_status(1);
    results
}

#[test]
fn test_cache_basic_operations() {
    let mut cache = DnsblCache::new();

    assert!(cache.get("192.168.1.1", 0).is_none());
    assert_eq!(cache.get_stats().misses, 1);

    let results = create_test_results("192.168.1.1", false);
    cache.put("192.168.1.1".to_string(), results, 0);
    assert_eq!(cache.get_stats().additions, 1);

    let cached = cache.get("192.168.1.1", 10).expect("Failed to get cached result");
    assert_eq!(cached.ip, "192.168.1.1");
    assert_eq!(cache.get_stats().hits, 1);
}

#[test]
fn test_cache_ttl() {
    let mut cache = DnsblCache::with_settings(100, 100);

    let results = create_test_results("192.168.1.1", false);
    cache.put("192.168.1.1".to_string(), results, 0);

    assert!(cache.get("192.168.1.1", 50).is_some());

    assert!(cache.get("192.168.1.1", 150).is_none());
    assert_eq!(cache.get_stats().evictions, 1);
}

#[test]
fn test_cache_max_entries() {
    let mut cache = DnsblCache::with_settings(3_600_000, 2);

    cache.put("192.168.1.1".to_string(), create_test_results("192.168.1.1", false), 0);
    cache.put("192.168.1.2".to_string(), create_test_results("192.168.1.2", false), 1);
    cache.put("192.168.1.3".to_string(), create_test_results("192.168.1.3", false), 2);

    assert_eq!(cache.get_stats().current_size, 2);
    assert_eq!(cache.get_stats().evictions, 1);
    // The oldest entry made room.
    assert!(cache.get("192.168.1.1", 3).is_none());
    assert!(cache.get("192.168.1.3", 4).is_some());
}

#[test]
fn cache_test_cache_stats() {
    let mut cache = DnsblCache::new();

    cache.put("192.168.1.1".to_string(), create_test_results("192.168.1.1", false), 0);

    cache.get("192.168.1.1", 1);
    cache.get("192.168.1.2", 2);

    assert_eq!(cache.get_stats().hits, 1);
    assert_eq!(cache.get_stats().misses, 1);
}

#[test]
fn test_cache_cleanup() {
    let mut cache = DnsblCache::with_settings(50, 100);

    cache.put("192.168.1.1".to_string(), create_test_results("192.168.1.1", false), 0);
    cache.put("192.168.1.2".to_string(), create_test_results("192.168.1.2", false), 0);

    assert_eq!(cache.get_stats().current_size, 2);

    cache.cleanup_expired(100);

    assert_eq!(cache.get_stats().current_size, 0);
}

#[test]
fn test_cache_manager() {
    let config = DnsblConfig { cache_ttl_secs: 1, ..Default::default() };
    let mut manager = DnsblCacheManager::new(config, 0);

    let results = create_test_results("192.168.1.1", false);
    manager.put("192.168.1.1".to_string(), results, 0);

    let cached = manager.get("192.168.1.1", 10).expect("Failed to get cached result from manager");
    assert_eq!(cached.ip, "192.168.1.1");

    let stats = manager.get_stats();
    assert_eq!(stats.hits, 1);
    assert_eq!(stats.additions, 1);
}

#[test]
fn test_manager_doubles_malicious_lifetime() {
    let config = DnsblConfig { cache_ttl_secs: 1, ..Default::default() };
    let mut manager = DnsblCacheManager::new(config, 0);

    manager.put("1.1.1.1".to_string(), create_test_results("1.1.1.1", false), 0);
    manager.put("6.6.6.6".to_string(), create_test_results("6.6.6.6", true), 0);

    // After the clean lifetime (one second) only the malicious entry lives.
    assert!(manager.get("1.1.1.1", 1500).is_none());
    assert!(manager.get("6.6.6.6", 1500).is_some());
    // After the doubled lifetime the malicious entry is gone too.
    assert!(manager.get("6.6.6.6", 2500).is_none());
}

#[test]
fn test_expired_entry_never_returned() {
    let mut cache = DnsblCache::with_settings(1000, 100);
    cache.put("9.9.9.9".to_string(), create_test_results("9.9.9.9", true), 0);
    // Right at the expiry boundary the entry is no longer served.
    assert!(cache.get("9.9.9.9", 999).is_some());
    assert!(cache.get("9.9.9.9", 1000).is_none());
}

#[test]
fn test_cache_reads_are_idempotent() {
    let mut cache = DnsblCache::new();
    cache.put("4.4.4.4".to_string(), create_test_results("4.4.4.4", true), 0);

    let first = cache.get("4.4.4.4", 1).unwrap();
    let hits_after_first = cache.get_stats().hits;
    let additions_after_first = cache.get_stats().additions;
    let second = cache.get("4.4.4.4", 2).unwrap();

    assert_eq!(first.ip, second.ip);
    assert_eq!(first.listed_count, second.listed_count);
    assert_eq!(first.is_malicious, second.is_malicious);
    assert_eq!(first.results.len(), second.results.len());
    assert_eq!(first.results[0].list_name, second.results[0].list_name);
    assert_eq!(cache.get_stats().hits, hits_after_first + 1);
    assert_eq!(cache.get_stats().additions, additions_after_first);
}

#[test]
fn test_cache_remove_and_clear() {
    let mut cache = DnsblCache::new();
    cache.put("1.2.3.4".to_string(), create_test_results("1.2.3.4", false), 0);
    let removed = cache.remove("1.2.3.4");
    assert!(removed.is_some());
    assert!(cache.remove("1.2.3.4").is_none());

    cache.put("5.6.7.8".to_string(), create_test_results("5.6.7.8", false), 0);
    cache.clear();
    assert_eq!(cache.get_stats().current_size, 0);
    assert!(cache.get("5.6.7.8", 1).is_none());
}

#[test]
fn test_cache_evicts_least_recently_used() {
    let mut cache = DnsblCache::with_settings(3_600_000, 2);
    cache.put("1.1.1.1".to_string(), create_test_results("1.1.1.1", false), 0);
    cache.put("2.2.2.2".to_string(), create_test_results("2.2.2.2", false), 1);
    // Reading the older entry makes the newer one the least recently used.
    assert!(cache.get("1.1.1.1", 5).is_some());
    cache.put("3.3.3.3".to_string(), create_test_results("3.3.3.3", false), 6);
    assert!(cache.get("1.1.1.1", 7).is_some());
    assert!(cache.get("2.2.2.2", 8).is_none());
    assert!(cache.get("3.3.3.3", 9).is_some());
}
