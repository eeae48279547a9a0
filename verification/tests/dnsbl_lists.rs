//! Blocklist descriptors, selection, ordering, and the reversed query label.

use proxy_rs::dnsbl::lists::{ip_to_dnsbl_format, DnsblCategory, DnsblLists};

#[test]
fn test_ip_to_dnsbl_format() {
    assert_eq!(ip_to_dnsbl_format("192.168.1.1").expect("Invalid IP format"), "1.1.168.192");
    assert_eq!(ip_to_dnsbl_format("8.8.8.8").expect("Invalid IP format"), "8.8.8.8");
    assert!(ip_to_dnsbl_format("invalid").is_err());
    assert!(ip_to_dnsbl_format("2001:db8::1").is_err());
}

#[test]
fn test_dnsbl_lists_creation() {
    let lists = DnsblLists::new();
    let default_enabled = lists.get_default_enabled();
    assert!(!default_enabled.is_empty());

    let sbl = lists.get_by_id("sbl");
    assert!(sbl.is_some());
    assert_eq!(sbl.expect("Invalid DNSBL list").zone, "sbl.spamhaus.org");
}

#[test]
fn test_filter_lists() {
    let lists = DnsblLists::new();

    let included = lists.filter_lists(&["sbl".to_string(), "xbl".to_string()], &[]);
    assert_eq!(included.len(), 2);

    let excluded = lists.filter_lists(&[], &["pbl".to_string()]);
    let pbl_found = excluded.iter().any(|l| l.id == "pbl");
    assert!(!pbl_found);
}

#[test]
fn test_reversed_label_error_messages() {
    let e = ip_to_dnsbl_format("2001:db8::1").unwrap_err();
    assert_eq!(e, "IPv6 not supported for DNSBL queries");
    let e = ip_to_dnsbl_format("only.three.labels").unwrap_err();
    assert_eq!(e, "Invalid IPv4 address format");
}

#[test]
fn test_reversal_is_an_involution() {
    let once = ip_to_dnsbl_format("10.20.30.40").unwrap();
    assert_eq!(once, "40.30.20.10");
    let twice = ip_to_dnsbl_format(&once).unwrap();
    assert_eq!(twice, "10.20.30.40");
}

#[test]
fn test_priority_ordering() {
    let lists = DnsblLists::new();
    let ordered = lists.get_lists_by_priority(&[], &[]);
    for pair in ordered.windows(2) {
        assert!(pair[0].priority <= pair[1].priority);
        if pair[0].priority == pair[1].priority {
            assert!(pair[0].avg_response_time_ms <= pair[1].avg_response_time_ms);
        }
    }
    assert_eq!(ordered[0].id, "zen");
}

#[test]
fn test_fast_lists_priority_bound() {
    let lists = DnsblLists::new();
    let fast = lists.get_fast_lists(&[], &[]);
    assert!(!fast.is_empty());
    for l in &fast {
        assert!(l.priority <= 3);
    }
}

#[test]
fn test_get_by_category() {
    let lists = DnsblLists::new();
    let botnet = lists.get_by_category(&DnsblCategory::Botnet);
    assert_eq!(botnet.len(), 1);
    assert_eq!(botnet[0].id, "dronebl");
}

#[test]
fn test_get_stats_counts() {
    let lists = DnsblLists::new();
    let stats = lists.get_stats();
    assert_eq!(stats.total_lists, 10);
    assert_eq!(stats.default_enabled, 3);
    let spam = stats
        .by_category
        .iter()
        .find(|(c, _)| *c == DnsblCategory::Spam)
        .map(|(_, n)| *n)
        .unwrap();
    assert_eq!(spam, 5);
}

#[test]
fn test_unknown_id_selection_skipped() {
    let lists = DnsblLists::new();
    let chosen = lists.filter_lists(&["zen".to_string(), "nosuchlist".to_string()], &[]);
    assert_eq!(chosen.len(), 1);
    assert_eq!(chosen[0].id, "zen");
}
