//! The screening orchestration: validation, recommended policies, the full
//! check driven with simulated query outcomes, early termination, caching,
//! and the interpretation of query answers.

use proxy_rs::dnsbl::checker::{BeginCheck, DnsblChecker, DnsblSummary, DnsblUseCase};
use proxy_rs::dnsbl::client::{
    check_ip_response, check_simple_response, check_text_response, interpret_ip_response,
    invalid_ip_result, query_domain, DnsLookupOutcome,
};
use proxy_rs::dnsbl::lists::{ip_to_dnsbl_format, DnsblLists};
use proxy_rs::dnsbl::{DnsblCheckResults, DnsblConfig, DnsblResult};

#[test]
fn test_dnsbl_checker_creation() {
    let checker = DnsblChecker::new(0);
    assert_eq!(checker.get_config().malicious_threshold, 2);
}

#[test]
fn test_dnsbl_checker_with_config() {
    let config = DnsblConfig {
        enabled: true,
        timeout_secs: 3,
        max_concurrent: 5,
        cache_ttl_secs: 1800,
        malicious_threshold: 2,
        specific_lists: vec![],
        excluded_lists: vec![],
    };

    let checker = DnsblChecker::with_config(config, 0);
    assert_eq!(checker.get_config().timeout_secs, 3);
    assert_eq!(checker.get_config().max_concurrent, 5);
}

#[test]
fn test_ip_validation() {
    assert!(DnsblChecker::validate_ip_format("192.168.1.1"));
    assert!(DnsblChecker::validate_ip_format("8.8.8.8"));
    assert!(!DnsblChecker::validate_ip_format("invalid"));
    assert!(!DnsblChecker::validate_ip_format("2001:db8::1"));
}

#[test]
fn test_recommended_configs() {
    let strict_config = DnsblChecker::get_recommended_config(DnsblUseCase::Strict);
    assert_eq!(strict_config.malicious_threshold, 1);
    assert!(strict_config.specific_lists.contains(&"zen".to_string()));

    let performance_config = DnsblChecker::get_recommended_config(DnsblUseCase::Performance);
    assert_eq!(performance_config.malicious_threshold, 3);
    assert_eq!(performance_config.max_concurrent, 20);

    let testing_config = DnsblChecker::get_recommended_config(DnsblUseCase::Testing);
    assert_eq!(testing_config.cache_ttl_secs, 60);
    assert_eq!(testing_config.specific_lists.len(), 1);
}

#[test]
fn test_summary_generation() {
    let mut results = Vec::new();

    let mut result1 = DnsblCheckResults::new("192.168.1.1".to_string());
    result1.listed_count = 0;
    result1.total_checked = 5;
    result1.total_time_ms = 1000;
    result1.is_malicious = false;

    let mut result2 = DnsblCheckResults::new("192.168.1.2".to_string());
    result2.listed_count = 2;
    result2.total_checked = 5;
    result2.total_time_ms = 1500;
    result2.is_malicious = true;

    results.push(result1);
    results.push(result2);

    let summary: DnsblSummary = DnsblChecker::generate_summary(&results, 750);

    assert_eq!(summary.total_ips, 2);
    assert_eq!(summary.listed_ips, 1);
    assert_eq!(summary.malicious_ips, 1);
    assert_eq!(summary.total_lists_checked, 10);
    assert_eq!(summary.avg_response_time_ms, 1250);
    assert_eq!(summary.cache_hit_permille, 750);
}

#[test]
fn test_lists_stats() {
    let checker = DnsblChecker::new(0);
    let stats = checker.get_lists_stats();
    assert!(stats.total_lists > 0);
    assert!(stats.default_enabled > 0);
}

#[test]
fn test_enabled_lists() {
    let mut config = DnsblConfig::default();
    config.specific_lists = vec!["zen".to_string(), "spamcop".to_string()];

    let checker = DnsblChecker::with_config(config, 0);
    let enabled_lists = checker.get_enabled_lists();

    assert_eq!(enabled_lists.len(), 2);
    assert!(enabled_lists.iter().any(|l| l.id == "zen"));
    assert!(enabled_lists.iter().any(|l| l.id == "spamcop"));
}

fn clean_result(list_id: &str) -> DnsblResult {
    DnsblResult {
        list_name: list_id.to_string(),
        listed: false,
        reason: None,
        response_time_ms: 40,
    }
}

fn listed_result(list_id: &str) -> DnsblResult {
    DnsblResult {
        list_name: list_id.to_string(),
        listed: true,
        reason: Some("Listed in DNSBL".to_string()),
        response_time_ms: 40,
    }
}

#[test]
fn test_clean_check_path() {
    // A clean address under the default policy: every effective list
    // answers negative, so the verdict is clean and lands in the cache.
    let mut checker = DnsblChecker::new(0);
    let begin = checker.begin_check("8.8.8.8", 0);
    let (reversed, lists) = match begin {
        BeginCheck::Query { reversed, lists } => (reversed, lists),
        _ => panic!("expected a query"),
    };
    assert_eq!(reversed, "8.8.8.8");
    assert!(!lists.is_empty());

    let mut acc = DnsblCheckResults::new("8.8.8.8".to_string());
    for list in &lists {
        let stop = checker.absorb_result(&mut acc, clean_result(&list.id));
        assert!(!stop);
    }
    let verdict = checker.finish_check(acc, 5);

    assert_eq!(verdict.ip, "8.8.8.8");
    assert!(!verdict.is_malicious);
    assert_eq!(verdict.listed_count, 0);
    assert_eq!(verdict.total_checked, lists.len());

    // A second check within the lifetime is answered from the cache with
    // the identical verdict, and only the hit counter moves.
    let misses_before = checker.get_cache_stats().misses;
    let hits_before = checker.get_cache_stats().hits;
    match checker.begin_check("8.8.8.8", 10) {
        BeginCheck::Cached(v) => {
            assert_eq!(v.ip, verdict.ip);
            assert_eq!(v.listed_count, verdict.listed_count);
            assert_eq!(v.total_checked, verdict.total_checked);
            assert_eq!(v.is_malicious, verdict.is_malicious);
            assert_eq!(v.results.len(), verdict.results.len());
            for (a, b) in v.results.iter().zip(verdict.results.iter()) {
                assert_eq!(a.list_name, b.list_name);
                assert_eq!(a.listed, b.listed);
                assert_eq!(a.reason, b.reason);
                assert_eq!(a.response_time_ms, b.response_time_ms);
            }
        },
        _ => panic!("expected the cached verdict"),
    }
    assert_eq!(checker.get_cache_stats().hits, hits_before + 1);
    assert_eq!(checker.get_cache_stats().misses, misses_before);
}

#[test]
fn test_early_termination_at_threshold() {
    // Threshold two: the fan-out may stop as soon as two lists report a
    // listing, and the verdict is malicious.
    let mut config = DnsblConfig::default();
    config.malicious_threshold = 2;
    let mut checker = DnsblChecker::with_config(config, 0);

    let mut acc = DnsblCheckResults::new("203.0.113.7".to_string());
    assert!(!checker.absorb_result(&mut acc, listed_result("zen")));
    assert!(checker.absorb_result(&mut acc, listed_result("dronebl")));

    let verdict = checker.finish_check(acc, 1);
    assert!(verdict.listed_count >= 2);
    assert!(verdict.is_malicious);
    assert_eq!(verdict.total_checked, 2);
}

#[test]
fn test_empty_effective_set_verdict() {
    // Excluding every default list leaves nothing to query; the verdict
    // checks zero lists and is not malicious.
    let mut config = DnsblConfig::default();
    config.excluded_lists = vec!["zen".to_string(), "barracuda".to_string(), "dronebl".to_string()];
    let mut checker = DnsblChecker::with_config(config, 0);

    let lists = match checker.begin_check("8.8.8.8", 0) {
        BeginCheck::Query { lists, .. } => lists,
        _ => panic!("expected a query"),
    };
    assert!(lists.is_empty());

    let acc = DnsblCheckResults::new("8.8.8.8".to_string());
    let verdict = checker.finish_check(acc, 0);
    assert_eq!(verdict.total_checked, 0);
    assert!(!verdict.is_malicious);
}

#[test]
fn test_invalid_address_fails_check() {
    let mut checker = DnsblChecker::new(0);
    assert!(matches!(checker.begin_check("invalid", 0), BeginCheck::Invalid));
    assert!(matches!(checker.begin_check("2001:db8::1", 0), BeginCheck::Invalid));
    // Four labels alone are not enough: each must be a real octet.
    assert!(matches!(checker.begin_check("...", 0), BeginCheck::Invalid));
    assert!(matches!(checker.begin_check("1.2.3.999", 0), BeginCheck::Invalid));
    assert!(matches!(checker.begin_check("a.b.c.d", 0), BeginCheck::Invalid));
}

#[test]
fn test_ip_validation_requires_real_octets() {
    assert!(!DnsblChecker::validate_ip_format("..."));
    assert!(!DnsblChecker::validate_ip_format("256.1.1.1"));
    assert!(!DnsblChecker::validate_ip_format("01.2.3.4"));
    assert!(DnsblChecker::validate_ip_format("127.0.0.1"));
}

#[test]
fn test_results_sorted_by_list_in_verdict() {
    let mut checker = DnsblChecker::new(0);
    let mut acc = DnsblCheckResults::new("8.8.4.4".to_string());
    checker.absorb_result(&mut acc, clean_result("zen"));
    checker.absorb_result(&mut acc, clean_result("barracuda"));
    checker.absorb_result(&mut acc, clean_result("dronebl"));
    let verdict = checker.finish_check(acc, 0);
    let names: Vec<&str> = verdict.results.iter().map(|r| r.list_name.as_str()).collect();
    assert_eq!(names, vec!["barracuda", "dronebl", "zen"]);
}

#[test]
fn test_invalid_ip_format() {
    let lists = DnsblLists::new();
    let list = lists.get_by_id("zen").unwrap();
    let err = ip_to_dnsbl_format("invalid").unwrap_err();
    let result = invalid_ip_result(list, &err, 0);
    assert!(!result.listed);
    assert!(result.reason.is_some());
    assert!(result.reason.unwrap().contains("Invalid IP format"));
}

#[test]
fn test_query_domain_layout() {
    assert_eq!(query_domain("4.3.2.1", "zen.spamhaus.org"), "4.3.2.1.zen.spamhaus.org");
}

#[test]
fn test_simple_response_mapping() {
    let lists = DnsblLists::new();
    let list = lists.get_by_id("zen").unwrap();

    let hit = check_simple_response(list, &DnsLookupOutcome::Answer(vec!["127.0.0.2".to_string()]), 12);
    assert!(hit.listed);
    assert_eq!(hit.list_name, "zen");
    assert_eq!(hit.reason.as_deref(), Some("Listed in DNSBL"));
    assert_eq!(hit.response_time_ms, 12);

    let clean = check_simple_response(list, &DnsLookupOutcome::Answer(vec![]), 7);
    assert!(!clean.listed);
    assert!(clean.reason.is_none());

    let failed = check_simple_response(list, &DnsLookupOutcome::Failure("refused".to_string()), 3);
    assert!(!failed.listed);
    assert_eq!(failed.reason.as_deref(), Some("DNS lookup failed: refused"));

    let late = check_simple_response(list, &DnsLookupOutcome::Timeout, 5000);
    assert!(!late.listed);
    assert_eq!(late.reason.as_deref(), Some("DNS lookup timeout"));
}

#[test]
fn test_text_response_mapping() {
    let lists = DnsblLists::new();
    let list = lists.get_by_id("zen").unwrap();
    let hit = check_text_response(
        list,
        &DnsLookupOutcome::Answer(vec!["spam source".to_string()]),
        9,
    );
    assert!(hit.listed);
    assert_eq!(hit.reason.as_deref(), Some("Listed: spam source"));
}

#[test]
fn test_ip_response_interpretation() {
    let lists = DnsblLists::new();
    let zen = lists.get_by_id("zen").unwrap();
    assert_eq!(
        interpret_ip_response("127.0.0.2", zen),
        "Spamhaus SBL - Verified spam source"
    );
    assert_eq!(
        interpret_ip_response("127.0.0.4", zen),
        "Spamhaus XBL - Exploit bot net C&C"
    );
    assert_eq!(
        interpret_ip_response("127.0.0.99", zen),
        "Spamhaus listed with response: 127.0.0.99"
    );

    let dronebl = lists.get_by_id("dronebl").unwrap();
    assert_eq!(interpret_ip_response("127.0.0.8", dronebl), "DroneBL - Open SOCKS proxy");

    let honeypot = lists.get_by_id("projecthoneypot").unwrap();
    assert_eq!(
        interpret_ip_response("127.0.0.3", honeypot),
        "Project Honeypot - Harvester"
    );

    let unknown = lists.get_by_id("barracuda").unwrap();
    assert_eq!(
        interpret_ip_response("127.0.0.2", unknown),
        "Listed with response: 127.0.0.2"
    );

    let mapped = check_ip_response(
        zen,
        &DnsLookupOutcome::Answer(vec!["127.0.0.10".to_string()]),
        2,
    );
    assert!(mapped.listed);
    assert_eq!(mapped.reason.as_deref(), Some("Spamhaus PBL - ISP dynamic IP range"));
}
