//! The connection pool over a plain stream handle, and the proxy pool's
//! admission, selection and outcome accounting.

use proxy_rs::checker::validate_candidate_port;
use proxy_rs::resolver::GeoData;
use proxy_rs::server::connection_pool::{ConnectionPool, PoolConfig, ProxyConnectionPool};
use proxy_rs::server::proxy_pool::{
    AnonymityLevel, DnsblSafety, Protocol, Proxy, ProxyPool, FAILURE_EVICTION_LIMIT,
};

fn test_proxy(host: &str, port: u16, protocols: Vec<Protocol>) -> Proxy {
    Proxy {
        host: host.to_string(),
        port,
        resolved_ip: None,
        geo: GeoData::default(),
        verified_protocols: protocols,
        anonymity: AnonymityLevel::Unknown,
        latency_samples_ms: Vec::new(),
        total_latency_ms: 0,
        request_count: 0,
        error_count: 0,
        consecutive_failures: 0,
        last_used_at: 0,
        created_at: 0,
        dnsbl_safe: DnsblSafety::Unknown,
    }
}

#[test]
fn test_pool_creation() {
    let config = PoolConfig::default();
    let pool: ConnectionPool<u32> = ConnectionPool::new(config, 0);

    let stats = pool.get_global_stats();
    assert_eq!(stats.total_pools, 0);
    assert_eq!(stats.total_connections, 0);
}

#[test]
fn test_connection_reuse() {
    // Two sequential acquisitions with a clean release in between: the
    // second is served from the pool.
    let config = PoolConfig::default();
    let mut pool: ConnectionPool<u32> = ConnectionPool::new(config, 0);

    // First acquisition: nothing pooled, so the caller dials and accounts
    // the new connection.
    assert!(pool.acquire("1.2.3.4:8080", 10).is_none());
    pool.note_created();

    // Clean release.
    pool.return_connection("1.2.3.4:8080", 41, 20);

    // Second acquisition: the pooled stream comes back, marked in use and
    // freshly used.
    let conn = pool.acquire("1.2.3.4:8080", 30).expect("expected a pooled connection");
    assert_eq!(conn.stream, 41);
    assert!(conn.in_use);
    assert_eq!(conn.last_used, 30);

    let stats = pool.get_global_stats();
    assert_eq!(stats.cache_hits, 1);
    assert_eq!(stats.connections_created, 1);
    assert_eq!(stats.connections_reused, 1);
    assert_eq!(stats.cache_misses, 1);
}

#[test]
fn test_release_respects_capacity() {
    let mut config = PoolConfig::default();
    config.max_connections_per_proxy = 2;
    let mut pool: ConnectionPool<u32> = ConnectionPool::new(config, 0);

    pool.return_connection("a:1", 1, 0);
    pool.return_connection("a:1", 2, 0);
    pool.return_connection("a:1", 3, 0);

    // Only two idle entries remain for the upstream.
    assert!(pool.acquire("a:1", 1).is_some());
    assert!(pool.acquire("a:1", 2).is_some());
    assert!(pool.acquire("a:1", 3).is_none());
}

#[test]
fn test_cleanup() {
    let mut config = PoolConfig::default();
    config.max_idle_time_ms = 100;
    config.health_check_interval_ms = 50;
    let mut pool: ConnectionPool<u32> = ConnectionPool::new(config, 0);

    pool.return_connection("b:2", 7, 0);
    // Past the idle lifetime the sweep drops the entry.
    pool.maybe_cleanup(200);
    assert!(pool.acquire("b:2", 201).is_none());

    let stats = pool.get_global_stats();
    assert_eq!(stats.connections_reused, 0);
}

#[test]
fn test_reuse_prefers_older_but_fresher() {
    let mut per_proxy: ProxyConnectionPool<u32> = ProxyConnectionPool::new("c:3".to_string());
    // One hot-spun entry, one older-but-fresher entry.
    let mut hot = proxy_rs::server::connection_pool::PooledConnection::new(1, 0);
    hot.use_count = 50;
    let cold = proxy_rs::server::connection_pool::PooledConnection::new(2, 0);
    per_proxy.return_connection(hot, 0);
    per_proxy.return_connection(cold, 0);

    let picked = per_proxy.get_connection(3_600_000, 10_000).unwrap();
    assert_eq!(picked.stream, 2);
    assert!(picked.in_use);
    assert_eq!(picked.last_used, 10_000);
}

#[test]
fn test_pool_admission_requires_protocols() {
    let mut pool = ProxyPool::new();
    // A record with no verified protocol never enters the pool.
    assert!(!pool.put(test_proxy("1.1.1.1", 80, vec![])));
    assert_eq!(pool.len(), 0);
    assert!(pool.put(test_proxy("1.1.1.1", 80, vec![Protocol::Http])));
    assert_eq!(pool.len(), 1);
    assert!(!pool.proxy_at(0).verified_protocols.is_empty());
}

#[test]
fn test_screening_enforcement_on_admission() {
    let mut pool = ProxyPool::new();
    pool.enforce_screening();
    let mut unscreened = test_proxy("2.2.2.2", 80, vec![Protocol::Http]);
    unscreened.dnsbl_safe = DnsblSafety::Unknown;
    assert!(!pool.put(unscreened));
    let mut safe = test_proxy("3.3.3.3", 80, vec![Protocol::Http]);
    safe.dnsbl_safe = DnsblSafety::Safe;
    assert!(pool.put(safe));
}

#[test]
fn test_add_then_select_sole_protocol() {
    // Adding a candidate and selecting under its sole supported protocol
    // returns the record that was added.
    let mut pool = ProxyPool::new();
    pool.put(test_proxy("9.9.9.9", 1080, vec![Protocol::Socks5]));
    pool.put(test_proxy("8.8.8.8", 80, vec![Protocol::Http]));

    let i = pool.select(Protocol::Socks5).expect("expected a candidate");
    let picked = pool.proxy_at(i);
    assert_eq!(picked.host, "9.9.9.9");
    assert_eq!(picked.port, 1080);

    assert!(pool.select(Protocol::Connect25).is_none());
}

#[test]
fn test_selection_prefers_better_record() {
    let mut pool = ProxyPool::new();
    let mut bad = test_proxy("5.5.5.5", 80, vec![Protocol::Http]);
    bad.request_count = 10;
    bad.error_count = 5;
    let mut good = test_proxy("6.6.6.6", 80, vec![Protocol::Http]);
    good.request_count = 10;
    good.error_count = 0;
    pool.put(bad);
    pool.put(good);
    let i = pool.select(Protocol::Http).unwrap();
    assert_eq!(pool.proxy_at(i).host, "6.6.6.6");
}

#[test]
fn test_chronic_failer_is_evicted() {
    let mut pool = ProxyPool::new();
    pool.put(test_proxy("7.7.7.7", 80, vec![Protocol::Http]));
    let mut rounds: u64 = 0;
    while pool.len() > 0 {
        let i = pool.select(Protocol::Http).expect("still selectable");
        pool.record_outcome(i, false, None, rounds);
        rounds += 1;
        assert!(rounds <= FAILURE_EVICTION_LIMIT);
    }
    assert_eq!(rounds, FAILURE_EVICTION_LIMIT);
}

#[test]
fn test_outcome_accounting() {
    let mut pool = ProxyPool::new();
    pool.put(test_proxy("4.4.4.4", 80, vec![Protocol::Http]));
    pool.record_outcome(0, true, Some(120), 99);
    let p = pool.proxy_at(0);
    assert_eq!(p.request_count, 1);
    assert_eq!(p.error_count, 0);
    assert_eq!(p.consecutive_failures, 0);
    assert_eq!(p.last_used_at, 99);
    assert_eq!(p.avg_response_ms(), 120);
}

#[test]
fn test_candidate_port_bounds() {
    // Out-of-range ports are rejected before any network work.
    assert!(validate_candidate_port(0).is_err());
    assert!(validate_candidate_port(65536).is_err());
    assert!(validate_candidate_port(70000).is_err());
    assert_eq!(validate_candidate_port(1).unwrap(), 1);
    assert_eq!(validate_candidate_port(65535).unwrap(), 65535);
    assert_eq!(validate_candidate_port(8080).unwrap(), 8080);
}

#[test]
fn test_proxy_as_text() {
    let p = test_proxy("10.0.0.1", 8080, vec![Protocol::Http]);
    assert_eq!(p.as_text(), "10.0.0.1:8080");
}

#[test]
fn test_acquire_requires_an_idle_entry() {
    // A miss is only permitted when nothing usable is pooled; after a
    // release, the acquisition must succeed and hand back the same stream.
    let mut pool: ConnectionPool<u32> = ConnectionPool::new(PoolConfig::default(), 0);
    assert!(pool.acquire("x:1", 5).is_none());
    pool.return_connection("x:1", 77, 10);
    let got = pool.acquire("x:1", 20).expect("an idle live entry must be served");
    assert_eq!(got.stream, 77);
    assert_eq!(got.use_count, 1);
}
