//! Interpretation of blocklist query answers. The DNS queries themselves
//! are network work and happen outside the library; what comes back is
//! handed in as a plain outcome and mapped to a per-list result here.

use vstd::prelude::*;

use crate::dnsbl::lists::DnsblList;
use crate::dnsbl::DnsblResult;
use crate::strutil::str_eq;
use vstd::string::StringExecFns;

verus! {

/// What a single DNS query produced: the answer's records rendered as
/// strings, a resolver error rendered as a string, or no answer in time.
#[derive(Debug)]
pub enum DnsLookupOutcome {
    /// The query was answered; an empty answer means the IP is not listed.
    Answer(Vec<String>),
    /// The resolver reported an error.
    Failure(String),
    /// The query's deadline passed.
    Timeout,
}

/// The reason text of a result derived from an answer-or-not outcome.
pub open spec fn spec_outcome_reason(records: Seq<Seq<char>>, listed_reason: Seq<char>) -> Option<
    Seq<char>,
> {
    if records.len() > 0 {
        Some(listed_reason)
    } else {
        None
    }
}

/// The full domain a blocklist is queried under: the reversed address
/// followed by a dot and the list's zone.
pub fn query_domain(reversed: &str, zone: &str) -> (r: String)
    ensures
        r@ == reversed@ + "."@ + zone@,
{
    let mut r = reversed.to_owned();
    r.append(".");
    r.append(zone);
    r
}

/// Result of an A-record query where any answer means listed.
pub fn check_simple_response(list: &DnsblList, outcome: &DnsLookupOutcome, response_time_ms: u64)
    -> (r: DnsblResult)
    ensures
        r.list_name@ == list.id@,
        r.response_time_ms == response_time_ms,
        match outcome {
            DnsLookupOutcome::Answer(recs) => {
                &&& r.listed == (recs@.len() > 0)
                &&& r@.reason == if recs@.len() > 0 {
                    Some("Listed in DNSBL"@)
                } else {
                    Option::<Seq<char>>::None
                }
            },
            DnsLookupOutcome::Failure(e) => !r.listed && r@.reason == Some(
                "DNS lookup failed: "@ + e@,
            ),
            DnsLookupOutcome::Timeout => !r.listed && r@.reason == Some("DNS lookup timeout"@),
        },
{
    match outcome {
        DnsLookupOutcome::Answer(recs) => {
            let listed = recs.len() > 0;
            DnsblResult {
                list_name: list.id.clone(),
                listed,
                reason: if listed {
                    Some("Listed in DNSBL".to_owned())
                } else {
                    None
                },
                response_time_ms,
            }
        },
        DnsLookupOutcome::Failure(e) => DnsblResult {
            list_name: list.id.clone(),
            listed: false,
            reason: Some("DNS lookup failed: ".to_owned().concat(e.as_str())),
            response_time_ms,
        },
        DnsLookupOutcome::Timeout => DnsblResult {
            list_name: list.id.clone(),
            listed: false,
            reason: Some("DNS lookup timeout".to_owned()),
            response_time_ms,
        },
    }
}

/// Result of a TXT-record query: any record means listed, and the first
/// record's text becomes the reason.
pub fn check_text_response(list: &DnsblList, outcome: &DnsLookupOutcome, response_time_ms: u64)
    -> (r: DnsblResult)
    ensures
        r.list_name@ == list.id@,
        r.response_time_ms == response_time_ms,
        match outcome {
            DnsLookupOutcome::Answer(recs) => {
                &&& r.listed == (recs@.len() > 0)
                &&& r@.reason == if recs@.len() > 0 {
                    Some("Listed: "@ + recs@[0]@)
                } else {
                    Option::<Seq<char>>::None
                }
            },
            DnsLookupOutcome::Failure(e) => !r.listed && r@.reason == Some(
                "DNS lookup failed: "@ + e@,
            ),
            DnsLookupOutcome::Timeout => !r.listed && r@.reason == Some("DNS lookup timeout"@),
        },
{
    match outcome {
        DnsLookupOutcome::Answer(recs) => {
            if recs.len() > 0 {
                DnsblResult {
                    list_name: list.id.clone(),
                    listed: true,
                    reason: Some("Listed: ".to_owned().concat(recs[0].as_str())),
                    response_time_ms,
                }
            } else {
                DnsblResult {
                    list_name: list.id.clone(),
                    listed: false,
                    reason: None,
                    response_time_ms,
                }
            }
        },
        DnsLookupOutcome::Failure(e) => DnsblResult {
            list_name: list.id.clone(),
            listed: false,
            reason: Some("DNS lookup failed: ".to_owned().concat(e.as_str())),
            response_time_ms,
        },
        DnsLookupOutcome::Timeout => DnsblResult {
            list_name: list.id.clone(),
            listed: false,
            reason: Some("DNS lookup timeout".to_owned()),
            response_time_ms,
        },
    }
}

/// Result of an A-record query whose answer codes are interpreted per zone.
pub fn check_ip_response(list: &DnsblList, outcome: &DnsLookupOutcome, response_time_ms: u64)
    -> (r: DnsblResult)
    ensures
        r.list_name@ == list.id@,
        r.response_time_ms == response_time_ms,
        match outcome {
            DnsLookupOutcome::Answer(recs) => {
                &&& r.listed == (recs@.len() > 0)
                &&& r@.reason == if recs@.len() > 0 {
                    Some(spec_interpret_ip_response(recs@[0]@, list.id@))
                } else {
                    Option::<Seq<char>>::None
                }
            },
            DnsLookupOutcome::Failure(e) => !r.listed && r@.reason == Some(
                "DNS lookup failed: "@ + e@,
            ),
            DnsLookupOutcome::Timeout => !r.listed && r@.reason == Some("DNS lookup timeout"@),
        },
{
    match outcome {
        DnsLookupOutcome::Answer(recs) => {
            if recs.len() > 0 {
                let reason = interpret_ip_response(recs[0].as_str(), list);
                DnsblResult {
                    list_name: list.id.clone(),
                    listed: true,
                    reason: Some(reason),
                    response_time_ms,
                }
            } else {
                DnsblResult { list_name: list.id.clone(), listed: false, reason: None, response_time_ms }
            }
        },
        DnsLookupOutcome::Failure(e) => DnsblResult {
            list_name: list.id.clone(),
            listed: false,
            reason: Some("DNS lookup failed: ".to_owned().concat(e.as_str())),
            response_time_ms,
        },
        DnsLookupOutcome::Timeout => DnsblResult {
            list_name: list.id.clone(),
            listed: false,
            reason: Some("DNS lookup timeout".to_owned()),
            response_time_ms,
        },
    }
}

/// What the interpretation table says for a Spamhaus-style answer code.
pub open spec fn spec_spamhaus_reason(ip: Seq<char>) -> Seq<char> {
    if ip == "127.0.0.2"@ || ip == "127.0.0.3"@ {
        "Spamhaus SBL - Verified spam source"@
    } else if ip == "127.0.0.4"@ || ip == "127.0.0.5"@ {
        "Spamhaus XBL - Exploit bot net C&C"@
    } else if ip == "127.0.0.6"@ || ip == "127.0.0.7"@ {
        "Spamhaus XBL - Illegal 3rd party exploits"@
    } else if ip == "127.0.0.10"@ || ip == "127.0.0.11"@ {
        "Spamhaus PBL - ISP dynamic IP range"@
    } else {
        "Spamhaus listed with response: "@ + ip
    }
}

/// What the interpretation table says for a Project Honeypot answer code.
pub open spec fn spec_honeypot_reason(ip: Seq<char>) -> Seq<char> {
    if ip == "127.0.0.2"@ {
        "Project Honeypot - Suspicious commenter"@
    } else if ip == "127.0.0.3"@ {
        "Project Honeypot - Harvester"@
    } else if ip == "127.0.0.4"@ {
        "Project Honeypot - Suspicious commenter + Harvester"@
    } else if ip == "127.0.0.5"@ {
        "Project Honeypot - Comment spammer"@
    } else if ip == "127.0.0.6"@ {
        "Project Honeypot - Suspicious commenter + Comment spammer"@
    } else if ip == "127.0.0.7"@ {
        "Project Honeypot - Harvester + Comment spammer"@
    } else {
        "Project Honeypot listed with response: "@ + ip
    }
}

/// What the interpretation table says for a DroneBL answer code.
pub open spec fn spec_dronebl_reason(ip: Seq<char>) -> Seq<char> {
    if ip == "127.0.0.2"@ {
        "DroneBL - Sampled IP"@
    } else if ip == "127.0.0.3"@ {
        "DroneBL - IRC Drone"@
    } else if ip == "127.0.0.5"@ {
        "DroneBL - Bottler"@
    } else if ip == "127.0.0.6"@ {
        "DroneBL - Unknown spambot or drone"@
    } else if ip == "127.0.0.7"@ {
        "DroneBL - DDOS Drone"@
    } else if ip == "127.0.0.8"@ {
        "DroneBL - Open SOCKS proxy"@
    } else if ip == "127.0.0.9"@ {
        "DroneBL - Open HTTP proxy"@
    } else if ip == "127.0.0.10"@ {
        "DroneBL - ProxyChain"@
    } else if ip == "127.0.0.11"@ {
        "DroneBL - Web Page Proxy"@
    } else if ip == "127.0.0.12"@ {
        "DroneBL - Open HTTP proxy (transparent)"@
    } else if ip == "127.0.0.13"@ {
        "DroneBL - Open HTTP proxy (anonymous)"@
    } else {
        "DroneBL listed with response: "@ + ip
    }
}

/// The human-readable meaning of an A-record answer: per-zone code tables
/// for the well-known zones, the literal answer for unknown ones.
pub open spec fn spec_interpret_ip_response(ip: Seq<char>, id: Seq<char>) -> Seq<char> {
    if id == "sbl"@ || id == "xbl"@ || id == "zen"@ {
        spec_spamhaus_reason(ip)
    } else if id == "projecthoneypot"@ {
        spec_honeypot_reason(ip)
    } else if id == "dronebl"@ {
        spec_dronebl_reason(ip)
    } else {
        "Listed with response: "@ + ip
    }
}

/// Maps an A-record answer to its human-readable meaning.
pub fn interpret_ip_response(ip_str: &str, list: &DnsblList) -> (r: String)
    ensures
        r@ == spec_interpret_ip_response(ip_str@, list.id@),
{
    let id = list.id.as_str();
    if str_eq(id, "sbl") || str_eq(id, "xbl") || str_eq(id, "zen") {
        if str_eq(ip_str, "127.0.0.2") || str_eq(ip_str, "127.0.0.3") {
            "Spamhaus SBL - Verified spam source".to_owned()
        } else if str_eq(ip_str, "127.0.0.4") || str_eq(ip_str, "127.0.0.5") {
            "Spamhaus XBL - Exploit bot net C&C".to_owned()
        } else if str_eq(ip_str, "127.0.0.6") || str_eq(ip_str, "127.0.0.7") {
            "Spamhaus XBL - Illegal 3rd party exploits".to_owned()
        } else if str_eq(ip_str, "127.0.0.10") || str_eq(ip_str, "127.0.0.11") {
            "Spamhaus PBL - ISP dynamic IP range".to_owned()
        } else {
            "Spamhaus listed with response: ".to_owned().concat(ip_str)
        }
    } else if str_eq(id, "projecthoneypot") {
        if str_eq(ip_str, "127.0.0.2") {
            "Project Honeypot - Suspicious commenter".to_owned()
        } else if str_eq(ip_str, "127.0.0.3") {
            "Project Honeypot - Harvester".to_owned()
        } else if str_eq(ip_str, "127.0.0.4") {
            "Project Honeypot - Suspicious commenter + Harvester".to_owned()
        } else if str_eq(ip_str, "127.0.0.5") {
            "Project Honeypot - Comment spammer".to_owned()
        } else if str_eq(ip_str, "127.0.0.6") {
            "Project Honeypot - Suspicious commenter + Comment spammer".to_owned()
        } else if str_eq(ip_str, "127.0.0.7") {
            "Project Honeypot - Harvester + Comment spammer".to_owned()
        } else {
            "Project Honeypot listed with response: ".to_owned().concat(ip_str)
        }
    } else if str_eq(id, "dronebl") {
        if str_eq(ip_str, "127.0.0.2") {
            "DroneBL - Sampled IP".to_owned()
        } else if str_eq(ip_str, "127.0.0.3") {
            "DroneBL - IRC Drone".to_owned()
        } else if str_eq(ip_str, "127.0.0.5") {
            "DroneBL - Bottler".to_owned()
        } else if str_eq(ip_str, "127.0.0.6") {
            "DroneBL - Unknown spambot or drone".to_owned()
        } else if str_eq(ip_str, "127.0.0.7") {
            "DroneBL - DDOS Drone".to_owned()
        } else if str_eq(ip_str, "127.0.0.8") {
            "DroneBL - Open SOCKS proxy".to_owned()
        } else if str_eq(ip_str, "127.0.0.9") {
            "DroneBL - Open HTTP proxy".to_owned()
        } else if str_eq(ip_str, "127.0.0.10") {
            "DroneBL - ProxyChain".to_owned()
        } else if str_eq(ip_str, "127.0.0.11") {
            "DroneBL - Web Page Proxy".to_owned()
        } else if str_eq(ip_str, "127.0.0.12") {
            "DroneBL - Open HTTP proxy (transparent)".to_owned()
        } else if str_eq(ip_str, "127.0.0.13") {
            "DroneBL - Open HTTP proxy (anonymous)".to_owned()
        } else {
            "DroneBL listed with response: ".to_owned().concat(ip_str)
        }
    } else {
        "Listed with response: ".to_owned().concat(ip_str)
    }
}

/// A result standing in for a query that never ran because the address was
/// not a usable IPv4 address.
pub fn invalid_ip_result(list: &DnsblList, err: &String, response_time_ms: u64) -> (r: DnsblResult)
    ensures
        r.list_name@ == list.id@,
        !r.listed,
        r@.reason == Some("Invalid IP format: "@ + err@),
        r.response_time_ms == response_time_ms,
{
    DnsblResult {
        list_name: list.id.clone(),
        listed: false,
        reason: Some("Invalid IP format: ".to_owned().concat(err.as_str())),
        response_time_ms,
    }
}

} // verus!
