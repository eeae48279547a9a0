//! The validation engine's decisions, address parsing, judges, resolver
//! tables, configuration merging, the task registry, and the slow cache
//! tier.

use proxy_rs::checker::{
    classify_anonymity, derive_support, parse_protocols, probe_schedule, CandidateGate, Checker,
    ProbeOutcome,
};
use proxy_rs::config::{
    merge_dnsbl_config, merge_server_config, update_dynamic_config, ConfigSection, DynamicConfig,
    SectionValue, TomlConfig, TomlDnsblConfig, TomlServerConfig,
};
use proxy_rs::ip::parse_ipv4;
use proxy_rs::judge::{JudgeInfo, JudgeManager};
use proxy_rs::multi_cache::{CacheEntry, L3Cache};
use proxy_rs::resolver::{GeoData, Resolver};
use proxy_rs::resource::{ConnectionPoolManager, ResourceManager};
use proxy_rs::server::proxy_pool::{AnonymityLevel, DnsblSafety, Protocol};
use proxy_rs::shutdown::{should_force_shutdown, ShutdownConfig, TaskRegistry};

#[test]
fn test_parse_ipv4_literals() {
    assert_eq!(parse_ipv4("192.168.1.1"), Some([192, 168, 1, 1]));
    assert_eq!(parse_ipv4("0.0.0.0"), Some([0, 0, 0, 0]));
    assert_eq!(parse_ipv4("255.255.255.255"), Some([255, 255, 255, 255]));
    assert_eq!(parse_ipv4("256.1.1.1"), None);
    assert_eq!(parse_ipv4("01.2.3.4"), None);
    assert_eq!(parse_ipv4("1.2.3"), None);
    assert_eq!(parse_ipv4("a.b.c.d"), None);
    assert_eq!(parse_ipv4(""), None);
}

#[test]
fn test_probe_schedule_counts() {
    let protos = vec![Protocol::Http, Protocol::Socks5];
    // One permitted try: exactly one probe per (candidate, protocol) pair.
    let single = probe_schedule(&protos, 1);
    assert_eq!(single, vec![(Protocol::Http, 0), (Protocol::Socks5, 0)]);

    let triple = probe_schedule(&protos, 3);
    assert_eq!(triple.len(), 6);
    assert_eq!(triple.iter().filter(|(p, _)| *p == Protocol::Http).count(), 3);
    assert_eq!(triple.iter().filter(|(p, _)| *p == Protocol::Socks5).count(), 3);
}

#[test]
fn test_protocol_names_round_trip() {
    for name in ["HTTP", "HTTPS", "SOCKS4", "SOCKS5", "CONNECT:80", "CONNECT:25"] {
        let p = Protocol::from_name(name).unwrap();
        assert_eq!(p.name(), name);
    }
    assert!(Protocol::from_name("GOPHER").is_none());
    let parsed = parse_protocols(&vec!["HTTP".to_string(), "bogus".to_string(), "SOCKS4".to_string()]);
    assert_eq!(parsed, vec![Protocol::Http, Protocol::Socks4]);
}

#[test]
fn test_anonymity_classification() {
    // The judge saw the client's real address: transparent.
    assert_eq!(
        classify_anonymity("X-Real-IP: 198.51.100.3", "198.51.100.3"),
        AnonymityLevel::Transparent
    );
    // Proxy markers without the real address: anonymous; the echo is
    // folded, so an upper-case marker still counts.
    assert_eq!(classify_anonymity("VIA: squid", "198.51.100.3"), AnonymityLevel::Anonymous);
    assert_eq!(
        classify_anonymity("X-Forwarded-For: 10.0.0.1", "198.51.100.3"),
        AnonymityLevel::Anonymous
    );
    // Neither: high.
    assert_eq!(classify_anonymity("hello", "198.51.100.3"), AnonymityLevel::High);
}

#[test]
fn test_assemble_proxy_requires_success() {
    let checker = Checker::new();
    let outcomes = vec![ProbeOutcome {
        protocol: Protocol::Http,
        success: false,
        latency_ms: 100,
        anonymity: AnonymityLevel::Unknown,
    }];
    let none = checker.assemble_proxy(
        "1.2.3.4".to_string(),
        80,
        GeoData::default(),
        &outcomes,
        AnonymityLevel::Unknown,
        false,
        false,
        DnsblSafety::Unknown,
        0,
    );
    assert!(none.is_none());

    let outcomes = vec![
        ProbeOutcome {
            protocol: Protocol::Http,
            success: true,
            latency_ms: 100,
            anonymity: AnonymityLevel::High,
        },
        ProbeOutcome {
            protocol: Protocol::Http,
            success: true,
            latency_ms: 140,
            anonymity: AnonymityLevel::High,
        },
        ProbeOutcome {
            protocol: Protocol::Socks5,
            success: true,
            latency_ms: 90,
            anonymity: AnonymityLevel::Unknown,
        },
    ];
    let some = checker
        .assemble_proxy(
            "1.2.3.4".to_string(),
            80,
            GeoData::default(),
            &outcomes,
            AnonymityLevel::High,
            false,
            false,
            DnsblSafety::Safe,
            7,
        )
        .unwrap();
    assert_eq!(some.verified_protocols, vec![Protocol::Http, Protocol::Socks5]);
    assert_eq!(some.created_at, 7);
}

#[test]
fn test_assemble_respects_expected_levels() {
    let mut checker = Checker::new();
    checker.expected_levels = vec!["High".to_string()];
    let outcomes = vec![ProbeOutcome {
        protocol: Protocol::Http,
        success: true,
        latency_ms: 50,
        anonymity: AnonymityLevel::Transparent,
    }];
    let rejected = checker.assemble_proxy(
        "1.2.3.4".to_string(),
        80,
        GeoData::default(),
        &outcomes,
        AnonymityLevel::Transparent,
        false,
        false,
        DnsblSafety::Unknown,
        0,
    );
    assert!(rejected.is_none());
}

#[test]
fn test_assemble_respects_expected_types() {
    // The policy probes SOCKS5 only; a stray HTTP success does not qualify
    // the record for HTTP.
    let mut checker = Checker::new();
    checker.expected_types = vec!["SOCKS5".to_string()];
    let outcomes = vec![
        ProbeOutcome {
            protocol: Protocol::Http,
            success: true,
            latency_ms: 40,
            anonymity: AnonymityLevel::High,
        },
        ProbeOutcome {
            protocol: Protocol::Socks5,
            success: true,
            latency_ms: 60,
            anonymity: AnonymityLevel::Unknown,
        },
    ];
    let record = checker
        .assemble_proxy(
            "1.2.3.4".to_string(),
            1080,
            GeoData::default(),
            &outcomes,
            AnonymityLevel::High,
            false,
            false,
            DnsblSafety::Unknown,
            0,
        )
        .unwrap();
    assert_eq!(record.verified_protocols, vec![Protocol::Socks5]);
}

#[test]
fn test_assemble_enforces_cookie_and_referer_support() {
    let mut checker = Checker::new();
    checker.support_cookie = true;
    let outcomes = vec![ProbeOutcome {
        protocol: Protocol::Http,
        success: true,
        latency_ms: 40,
        anonymity: AnonymityLevel::High,
    }];
    let without = checker.assemble_proxy(
        "1.2.3.4".to_string(),
        80,
        GeoData::default(),
        &outcomes,
        AnonymityLevel::High,
        false,
        false,
        DnsblSafety::Unknown,
        0,
    );
    assert!(without.is_none());
    let with = checker.assemble_proxy(
        "1.2.3.4".to_string(),
        80,
        GeoData::default(),
        &outcomes,
        AnonymityLevel::High,
        true,
        false,
        DnsblSafety::Unknown,
        0,
    );
    assert!(with.is_some());
}

#[test]
fn test_candidate_gate() {
    let mut checker = Checker::new();
    checker.expected_countries = vec!["US".to_string()];
    assert_eq!(checker.gate_candidate(8080, "US"), CandidateGate::Probe(8080));
    assert_eq!(checker.gate_candidate(8080, "DE"), CandidateGate::RejectedCountry);
    assert!(matches!(checker.gate_candidate(0, "US"), CandidateGate::RejectedPort(_)));
    assert!(matches!(checker.gate_candidate(90000, "US"), CandidateGate::RejectedPort(_)));
    let open = Checker::new();
    assert_eq!(open.gate_candidate(8080, "--"), CandidateGate::Probe(8080));
}

#[test]
fn test_support_derivation() {
    let (cookies, referer) = derive_support("HTTP_COOKIE = abc\nHTTP_REFERER = x");
    assert!(cookies);
    assert!(referer);
    let (cookies, referer) = derive_support("nothing here");
    assert!(!cookies);
    assert!(!referer);
}

#[test]
fn test_judge_health_and_ranking() {
    let mut fast = JudgeInfo::from_url("http://ident.me").unwrap();
    fast.is_working = true;
    fast.response_time_ms = 100;
    fast.success_rate_permille = 1000;
    // 1000 / 0.1 s capped at 10, times a perfect rate: ten thousand millis.
    assert_eq!(fast.health_score_millis(), 10_000);

    let mut slow = JudgeInfo::from_url("http://httpbin.org/ip").unwrap();
    slow.is_working = true;
    slow.response_time_ms = 2000;
    slow.success_rate_permille = 1000;
    assert_eq!(slow.health_score_millis(), 500);

    let broken = JudgeInfo::from_url("http://azenv.net/").unwrap();
    assert_eq!(broken.health_score_millis(), 0);

    let mut manager = JudgeManager::new(vec![slow, broken, fast], vec![]);
    manager.rank();
    assert_eq!(manager.http_judges[0].host, "ident.me");

    let best = manager.get_best_judge("HTTP").unwrap();
    assert!(best.is_working);
    assert_eq!(best.host, "ident.me");
    assert!(manager.get_best_judge("SMTP").is_none());

    let working = manager.get_working_judges("HTTPS", 5);
    assert_eq!(working.len(), 2);
    // Rank order: healthiest first, truncation respects the bound.
    assert_eq!(working[0].host, "ident.me");
    let only_one = manager.get_working_judges("HTTP", 1);
    assert_eq!(only_one.len(), 1);
    assert_eq!(only_one[0].host, "ident.me");
    assert!(manager.get_working_judges("GOPHER", 5).is_empty());

    let stats = manager.get_stats();
    assert_eq!(stats.http_total, 3);
    assert_eq!(stats.http_working, 2);
    assert_eq!(stats.avg_response_time_ms, 1050);
}

#[test]
fn test_judge_from_url_parts() {
    let j = JudgeInfo::from_url("https://httpbin.org/get?show_env").unwrap();
    assert_eq!(j.scheme, "HTTPS");
    assert_eq!(j.host, "httpbin.org");
    assert!(!j.is_working);
    assert!(JudgeInfo::from_url("not a url").is_none());
}

#[test]
fn test_judge_echo_conclusions() {
    assert!(JudgeInfo::body_indicates_working("93.184.216.34", true, ""));
    assert!(!JudgeInfo::body_indicates_working("1.2.3.4", true, ""));
    assert!(!JudgeInfo::body_indicates_working("no dots here", true, ""));
    // Surrounding whitespace does not make a short answer look long.
    assert!(!JudgeInfo::body_indicates_working("   1.2.3.4   \n", true, ""));
    assert!(JudgeInfo::body_indicates_working("  93.184.216.34  \n", true, ""));
    assert!(JudgeInfo::body_indicates_working("REMOTE_ADDR = 1.2.3.4", false, "1.2.3.4"));
    assert!(!JudgeInfo::body_indicates_working("REMOTE_ADDR = 5.6.7.8", false, "1.2.3.4"));
    assert_eq!(JudgeInfo::count_marks("via proxy via", "via"), 2);
}

#[test]
fn test_resolver_tables() {
    let resolver = Resolver::new();
    assert!(resolver.host_is_ip("8.8.8.8"));
    assert!(!resolver.host_is_ip("example.com"));
    assert_eq!(resolver.detect_country_from_ip("8.8.8.8"), "US");
    assert_eq!(resolver.detect_country_from_ip("208.67.222.222"), "CA");
    assert_eq!(resolver.detect_country_from_ip("203.0.113.9"), "--");
    assert_eq!(resolver.get_country_name("DE"), "Germany");
    assert_eq!(resolver.get_country_name("--"), "Unknown");
    assert_eq!(resolver.get_country_name("ZZ"), "ZZ");
    let geo = resolver.get_ip_info("1.1.1.1");
    assert_eq!(geo.iso_code, "US");
    assert_eq!(geo.name, "United States");
}

#[test]
fn test_resolver_cache() {
    let mut resolver = Resolver::new();
    assert!(resolver.resolve_cached("example.com").is_none());
    resolver.note_resolved("example.com".to_string(), "93.184.216.34".to_string());
    assert_eq!(resolver.resolve_cached("example.com").as_deref(), Some("93.184.216.34"));
}

#[test]
fn test_config_merging() {
    let mut config = DynamicConfig::new();
    assert_eq!(config.server.port, 8080);
    assert_eq!(config.dnsbl.malicious_threshold, 2);

    merge_server_config(
        &mut config.server,
        &TomlServerConfig { max_clients: None, port: Some(9000), timeout: None },
    );
    assert_eq!(config.server.port, 9000);
    assert_eq!(config.server.max_clients, 1000);

    merge_dnsbl_config(
        &mut config.dnsbl,
        &TomlDnsblConfig {
            enabled: Some(false),
            timeout_secs: None,
            max_concurrent: None,
            cache_ttl_secs: None,
            malicious_threshold: Some(4),
        },
    );
    assert!(!config.dnsbl.enabled);
    assert_eq!(config.dnsbl.malicious_threshold, 4);
    assert_eq!(config.dnsbl.timeout_secs, 5);
}

#[test]
fn test_update_dynamic_config_snapshots() {
    let mut config = DynamicConfig::new();
    let update = TomlConfig {
        general: None,
        dnsbl: Some(TomlDnsblConfig {
            enabled: None,
            timeout_secs: None,
            max_concurrent: None,
            cache_ttl_secs: None,
            malicious_threshold: Some(9),
        }),
        server: None,
        protocols: None,
    };
    let changes = update_dynamic_config(&mut config, &update);
    assert_eq!(changes.len(), 1);
    match (&changes[0].old_value, &changes[0].new_value) {
        (SectionValue::Dnsbl(before), SectionValue::Dnsbl(after)) => {
            assert_eq!(before.malicious_threshold, 2);
            assert_eq!(after.malicious_threshold, 9);
            assert_eq!(before.timeout_secs, after.timeout_secs);
        }
        _ => panic!("expected dnsbl snapshots"),
    }
}

#[test]
fn test_update_dynamic_config_reports_sections() {
    let mut config = DynamicConfig::new();
    let update = TomlConfig {
        general: None,
        dnsbl: Some(TomlDnsblConfig {
            enabled: None,
            timeout_secs: Some(9),
            max_concurrent: None,
            cache_ttl_secs: None,
            malicious_threshold: None,
        }),
        server: Some(TomlServerConfig { max_clients: Some(5), port: None, timeout: None }),
        protocols: None,
    };
    let changes = update_dynamic_config(&mut config, &update);
    assert_eq!(changes.len(), 2);
    assert_eq!(changes[0].section, ConfigSection::Dnsbl);
    assert_eq!(changes[1].section, ConfigSection::Server);
    assert_eq!(config.dnsbl.timeout_secs, 9);
    assert_eq!(config.server.max_clients, 5);
    assert_eq!(config.server.port, 8080);
    assert_eq!(ConfigSection::Server.section_name(), "server");
}

#[test]
fn test_task_stats() {
    let mut registry = TaskRegistry::new();

    let stats = registry.get_task_stats(0);
    assert_eq!(stats.active_tasks, 0);
    assert!(stats.oldest_task_uptime_ms.is_none());

    registry.register_task("test_task".to_string(), 100);

    let stats = registry.get_task_stats(250);
    assert_eq!(stats.active_tasks, 1);
    assert_eq!(stats.oldest_task_uptime_ms, Some(150));

    assert!(registry.remove_task("test_task"));
    assert!(!registry.remove_task("test_task"));
    assert_eq!(registry.get_task_stats(300).active_tasks, 0);
}

#[test]
fn test_shutdown_policy() {
    let config = ShutdownConfig::default();
    assert_eq!(config.timeout_secs, 30);
    assert_eq!(config.max_retries, 3);
    assert!(!should_force_shutdown(&config, 2, 5));
    assert!(should_force_shutdown(&config, 3, 5));
    assert!(!should_force_shutdown(&config, 3, 0));
}

#[test]
fn test_slow_tier_cache() {
    let mut cache: L3Cache<u64> = L3Cache::new(2, 1000);
    cache.put("a".to_string(), 1, None, 0);
    assert_eq!(cache.get("a", 500), Some(1));
    // Past the lifetime the value is no longer served.
    assert_eq!(cache.get("a", 1500), None);

    cache.put("b".to_string(), 2, Some(10_000), 0);
    cache.put("c".to_string(), 3, None, 100);
    // The tier holds two entries; storing a third evicts the oldest.
    cache.put("d".to_string(), 4, None, 200);
    let stats = cache.get_stats();
    assert_eq!(stats.size, 2);
    assert_eq!(stats.max_size, 2);
    assert_eq!(cache.get("a", 250), None);
    assert_eq!(cache.get("d", 250), Some(4));

    let dropped = cache.cleanup_expired(100_000);
    assert_eq!(dropped, 2);
}

#[test]
fn test_cache_entry_accounting() {
    let mut entry = CacheEntry::new(7u64, 100, 50);
    assert!(!entry.is_expired(150));
    assert!(entry.is_expired(151));
    entry.mark_accessed(60);
    entry.mark_accessed(70);
    assert_eq!(entry.access_count, 2);
    assert_eq!(entry.last_accessed, 70);
    assert_eq!(entry.value, 7);
}

#[test]
fn test_find_args_policy() {
    let args = proxy_rs::argument::FindArgs {
        types: vec!["HTTP".to_string()],
        files: vec![],
        levels: vec![],
        max_tries: 1,
        support_cookies: false,
        support_referer: false,
        dnsbl_check: true,
        dnsbl_timeout_secs: 5,
        dnsbl_max_concurrent: 10,
        dnsbl_cache_ttl_secs: 3600,
        dnsbl_malicious_threshold: 2,
        dnsbl_specific_lists: vec!["zen".to_string()],
        dnsbl_excluded_lists: vec![],
        countries: vec![],
        limit: 0,
        format: "default".to_string(),
        outfile: None,
    };
    let policy = args.to_dnsbl_config();
    assert!(policy.enabled);
    assert_eq!(policy.malicious_threshold, 2);
    assert_eq!(policy.specific_lists, vec!["zen".to_string()]);
}

#[test]
fn test_resource_manager() {
    let mut manager: ResourceManager<u32> = ResourceManager::new(10);

    manager.add_resource("test".to_string(), 42, 0);
    assert_eq!(manager.get_resource("test", 1), Some(42));

    let stats = manager.get_stats(5);
    assert_eq!(stats.total_resources, 1);
    assert_eq!(stats.total_accesses, 1);
    assert_eq!(stats.oldest_resource_age_ms, Some(5));

    assert_eq!(manager.remove_resource("test"), Some(42));
    assert_eq!(manager.get_resource("test", 2), None);
}

#[test]
fn test_connection_manager() {
    let mut manager = ConnectionPoolManager::new(5, 100);

    manager.register_connection("conn1".to_string(), 0);
    manager.update_connection_usage("conn1", 10);

    let stats = manager.get_connection_stats();
    assert_eq!(stats.active_connections, 1);
    assert_eq!(stats.total_usage, 1);

    manager.remove_connection("conn1");
    let stats = manager.get_connection_stats();
    assert_eq!(stats.active_connections, 0);
}

#[test]
fn test_connection_manager_expiry() {
    let mut manager = ConnectionPoolManager::new(5, 100);
    manager.register_connection("old".to_string(), 0);
    manager.register_connection("fresh".to_string(), 400);
    manager.cleanup_expired_connections(400);
    assert_eq!(manager.get_connection_stats().active_connections, 1);
}
