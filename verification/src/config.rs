//! Runtime configuration: the in-memory sections, and the merge of an
//! optional-field update into them. Reading the file and parsing its text
//! happen outside the library; the parsed optional fields are handed in.

use vstd::prelude::*;

verus! {

/// General limits and timing.
#[derive(Debug)]
pub struct GeneralConfig {
    /// Concurrent validation probes allowed.
    pub max_connections: usize,
    /// Default per-operation timeout, in seconds.
    pub default_timeout: u64,
    /// Delay between provider cycles, in milliseconds.
    pub rate_limit_delay_ms: u64,
    /// Logging verbosity.
    pub log_level: String,
}

impl Clone for GeneralConfig {
    fn clone(&self) -> (res: Self)
        ensures
            res.max_connections == self.max_connections,
            res.default_timeout == self.default_timeout,
            res.rate_limit_delay_ms == self.rate_limit_delay_ms,
            res.log_level@ == self.log_level@,
    {
        GeneralConfig {
            max_connections: self.max_connections,
            default_timeout: self.default_timeout,
            rate_limit_delay_ms: self.rate_limit_delay_ms,
            log_level: self.log_level.clone(),
        }
    }
}

/// Blocklist screening policy.
#[derive(Debug, Clone, Copy)]
pub struct DnsblConfig {
    /// Whether screening runs at all.
    pub enabled: bool,
    /// Per-query deadline, in seconds.
    pub timeout_secs: u64,
    /// Concurrent list queries allowed.
    pub max_concurrent: usize,
    /// Verdict cache lifetime, in seconds.
    pub cache_ttl_secs: u64,
    /// Listings needed before an address counts as malicious.
    pub malicious_threshold: u32,
}

/// Forwarding server limits.
#[derive(Debug, Clone, Copy)]
pub struct ServerConfig {
    /// Concurrent clients allowed.
    pub max_clients: usize,
    /// Port the server listens on.
    pub port: u16,
    /// Per-request timeout, in seconds.
    pub timeout: u64,
}

/// Which protocols validation probes.
#[derive(Debug, Clone, Copy)]
pub struct ProtocolConfig {
    /// Probe plain HTTP.
    pub http: bool,
    /// Probe HTTPS.
    pub https: bool,
    /// Probe SOCKS version 4.
    pub socks4: bool,
    /// Probe SOCKS version 5.
    pub socks5: bool,
    /// Probe CONNECT to port 25.
    pub connect_25: bool,
    /// Probe CONNECT to port 80.
    pub connect_80: bool,
}

/// The whole runtime configuration.
#[derive(Debug)]
pub struct DynamicConfig {
    /// General limits and timing.
    pub general: GeneralConfig,
    /// Blocklist screening policy.
    pub dnsbl: DnsblConfig,
    /// Forwarding server limits.
    pub server: ServerConfig,
    /// Which protocols validation probes.
    pub protocols: ProtocolConfig,
}

impl DynamicConfig {
    /// The built-in defaults.
    pub fn new() -> (r: Self)
        ensures
            r.general.max_connections == 5000,
            r.general.default_timeout == 8,
            r.general.rate_limit_delay_ms == 500,
            r.general.log_level@ == "info"@,
            r.dnsbl.enabled,
            r.dnsbl.timeout_secs == 5,
            r.dnsbl.max_concurrent == 10,
            r.dnsbl.cache_ttl_secs == 3600,
            r.dnsbl.malicious_threshold == 2,
            r.server.max_clients == 1000,
            r.server.port == 8080,
            r.server.timeout == 30,
            r.protocols.http && r.protocols.https && r.protocols.socks4 && r.protocols.socks5
                && r.protocols.connect_25 && r.protocols.connect_80,
    {
        DynamicConfig {
            general: GeneralConfig {
                max_connections: 5000,
                default_timeout: 8,
                rate_limit_delay_ms: 500,
                log_level: "info".to_owned(),
            },
            dnsbl: DnsblConfig {
                enabled: true,
                timeout_secs: 5,
                max_concurrent: 10,
                cache_ttl_secs: 3600,
                malicious_threshold: 2,
            },
            server: ServerConfig { max_clients: 1000, port: 8080, timeout: 30 },
            protocols: ProtocolConfig {
                http: true,
                https: true,
                socks4: true,
                socks5: true,
                connect_25: true,
                connect_80: true,
            },
        }
    }
}

/// The sections of the configuration.
#[derive(Debug, Clone, Copy, PartialEq, Eq, Structural)]
pub enum ConfigSection {
    /// General limits and timing.
    General,
    /// Blocklist screening policy.
    Dnsbl,
    /// Forwarding server limits.
    Server,
    /// Which protocols validation probes.
    Protocols,
}

impl ConfigSection {
    /// The section's name in the configuration file.
    pub fn section_name(&self) -> (r: &'static str)
        ensures
            r@ == match *self {
                ConfigSection::General => "general"@,
                ConfigSection::Dnsbl => "dnsbl"@,
                ConfigSection::Server => "server"@,
                ConfigSection::Protocols => "protocols"@,
            },
    {
        match self {
            ConfigSection::General => "general",
            ConfigSection::Dnsbl => "dnsbl",
            ConfigSection::Server => "server",
            ConfigSection::Protocols => "protocols",
        }
    }
}

/// A parsed `[general]` section: absent fields change nothing.
#[derive(Debug)]
pub struct TomlGeneralConfig {
    /// Concurrent validation probes allowed.
    pub max_connections: Option<usize>,
    /// Default per-operation timeout, in seconds.
    pub default_timeout: Option<u64>,
    /// Delay between provider cycles, in milliseconds.
    pub rate_limit_delay_ms: Option<u64>,
    /// Logging verbosity.
    pub log_level: Option<String>,
}

/// A parsed `[dnsbl]` section.
#[derive(Debug, Clone, Copy)]
pub struct TomlDnsblConfig {
    /// Whether screening runs at all.
    pub enabled: Option<bool>,
    /// Per-query deadline, in seconds.
    pub timeout_secs: Option<u64>,
    /// Concurrent list queries allowed.
    pub max_concurrent: Option<usize>,
    /// Verdict cache lifetime, in seconds.
    pub cache_ttl_secs: Option<u64>,
    /// Listings needed before an address counts as malicious.
    pub malicious_threshold: Option<u32>,
}

/// A parsed `[server]` section.
#[derive(Debug, Clone, Copy)]
pub struct TomlServerConfig {
    /// Concurrent clients allowed.
    pub max_clients: Option<usize>,
    /// Port the server listens on.
    pub port: Option<u16>,
    /// Per-request timeout, in seconds.
    pub timeout: Option<u64>,
}

/// A parsed `[protocols]` section.
#[derive(Debug, Clone, Copy)]
pub struct TomlProtocolConfig {
    /// Probe plain HTTP.
    pub http: Option<bool>,
    /// Probe HTTPS.
    pub https: Option<bool>,
    /// Probe SOCKS version 4.
    pub socks4: Option<bool>,
    /// Probe SOCKS version 5.
    pub socks5: Option<bool>,
    /// Probe CONNECT to port 25.
    pub connect_25: Option<bool>,
    /// Probe CONNECT to port 80.
    pub connect_80: Option<bool>,
}

/// A whole parsed configuration file; absent sections change nothing.
#[derive(Debug)]
pub struct TomlConfig {
    /// The `[general]` section, when present.
    pub general: Option<TomlGeneralConfig>,
    /// The `[dnsbl]` section, when present.
    pub dnsbl: Option<TomlDnsblConfig>,
    /// The `[server]` section, when present.
    pub server: Option<TomlServerConfig>,
    /// The `[protocols]` section, when present.
    pub protocols: Option<TomlProtocolConfig>,
}

/// Merges a `[general]` update: each present field replaces the current
/// value, each absent field leaves it.
pub fn merge_general_config(existing: &mut GeneralConfig, update: &TomlGeneralConfig)
    ensures
        final(existing).max_connections == match update.max_connections {
            Some(v) => v,
            None => old(existing).max_connections,
        },
        final(existing).default_timeout == match update.default_timeout {
            Some(v) => v,
            None => old(existing).default_timeout,
        },
        final(existing).rate_limit_delay_ms == match update.rate_limit_delay_ms {
            Some(v) => v,
            None => old(existing).rate_limit_delay_ms,
        },
        final(existing).log_level@ == match update.log_level {
            Some(ref v) => v@,
            None => old(existing).log_level@,
        },
{
    match update.max_connections {
        Some(v) => {
            existing.max_connections = v;
        },
        None => {},
    }
    match update.default_timeout {
        Some(v) => {
            existing.default_timeout = v;
        },
        None => {},
    }
    match update.rate_limit_delay_ms {
        Some(v) => {
            existing.rate_limit_delay_ms = v;
        },
        None => {},
    }
    match &update.log_level {
        Some(v) => {
            existing.log_level = v.clone();
        },
        None => {},
    }
}

/// Merges a `[dnsbl]` update.
pub fn merge_dnsbl_config(existing: &mut DnsblConfig, update: &TomlDnsblConfig)
    ensures
        final(existing).enabled == match update.enabled {
            Some(v) => v,
            None => old(existing).enabled,
        },
        final(existing).timeout_secs == match update.timeout_secs {
            Some(v) => v,
            None => old(existing).timeout_secs,
        },
        final(existing).max_concurrent == match update.max_concurrent {
            Some(v) => v,
            None => old(existing).max_concurrent,
        },
        final(existing).cache_ttl_secs == match update.cache_ttl_secs {
            Some(v) => v,
            None => old(existing).cache_ttl_secs,
        },
        final(existing).malicious_threshold == match update.malicious_threshold {
            Some(v) => v,
            None => old(existing).malicious_threshold,
        },
{
    match update.enabled {
        Some(v) => {
            existing.enabled = v;
        },
        None => {},
    }
    match update.timeout_secs {
        Some(v) => {
            existing.timeout_secs = v;
        },
        None => {},
    }
    match update.max_concurrent {
        Some(v) => {
            existing.max_concurrent = v;
        },
        None => {},
    }
    match update.cache_ttl_secs {
        Some(v) => {
            existing.cache_ttl_secs = v;
        },
        None => {},
    }
    match update.malicious_threshold {
        Some(v) => {
            existing.malicious_threshold = v;
        },
        None => {},
    }
}

/// Merges a `[server]` update.
pub fn merge_server_config(existing: &mut ServerConfig, update: &TomlServerConfig)
    ensures
        final(existing).max_clients == match update.max_clients {
            Some(v) => v,
            None => old(existing).max_clients,
        },
        final(existing).port == match update.port {
            Some(v) => v,
            None => old(existing).port,
        },
        final(existing).timeout == match update.timeout {
            Some(v) => v,
            None => old(existing).timeout,
        },
{
    match update.max_clients {
        Some(v) => {
            existing.max_clients = v;
        },
        None => {},
    }
    match update.port {
        Some(v) => {
            existing.port = v;
        },
        None => {},
    }
    match update.timeout {
        Some(v) => {
            existing.timeout = v;
        },
        None => {},
    }
}

/// Merges a `[protocols]` update.
pub fn merge_protocols_config(existing: &mut ProtocolConfig, update: &TomlProtocolConfig)
    ensures
        final(existing).http == match update.http {
            Some(v) => v,
            None => old(existing).http,
        },
        final(existing).https == match update.https {
            Some(v) => v,
            None => old(existing).https,
        },
        final(existing).socks4 == match update.socks4 {
            Some(v) => v,
            None => old(existing).socks4,
        },
        final(existing).socks5 == match update.socks5 {
            Some(v) => v,
            None => old(existing).socks5,
        },
        final(existing).connect_25 == match update.connect_25 {
            Some(v) => v,
            None => old(existing).connect_25,
        },
        final(existing).connect_80 == match update.connect_80 {
            Some(v) => v,
            None => old(existing).connect_80,
        },
{
    match update.http {
        Some(v) => {
            existing.http = v;
        },
        None => {},
    }
    match update.https {
        Some(v) => {
            existing.https = v;
        },
        None => {},
    }
    match update.socks4 {
        Some(v) => {
            existing.socks4 = v;
        },
        None => {},
    }
    match update.socks5 {
        Some(v) => {
            existing.socks5 = v;
        },
        None => {},
    }
    match update.connect_25 {
        Some(v) => {
            existing.connect_25 = v;
        },
        None => {},
    }
    match update.connect_80 {
        Some(v) => {
            existing.connect_80 = v;
        },
        None => {},
    }
}

/// A typed snapshot of one section's values.
#[derive(Debug)]
pub enum SectionValue {
    /// A `[general]` snapshot.
    General(GeneralConfig),
    /// A `[dnsbl]` snapshot.
    Dnsbl(DnsblConfig),
    /// A `[server]` snapshot.
    Server(ServerConfig),
    /// A `[protocols]` snapshot.
    Protocols(ProtocolConfig),
}

/// One section an update touched, with its values before and after.
#[derive(Debug)]
pub struct ConfigChange {
    /// The section that changed.
    pub section: ConfigSection,
    /// The section's values before the merge.
    pub old_value: SectionValue,
    /// The section's values after the merge.
    pub new_value: SectionValue,
}

/// Applies a parsed file to the configuration, section by section: exactly
/// the sections present in the file are merged, each field-by-field under
/// the optional-field rule, and each merged section is reported once, in
/// section order, with its values before and after the merge.
pub fn update_dynamic_config(dynamic_config: &mut DynamicConfig, toml_config: &TomlConfig) -> (r:
    Vec<ConfigChange>)
    ensures
        toml_config.general is None ==> final(dynamic_config).general == old(
            dynamic_config,
        ).general,
        toml_config.general matches Some(g) ==> {
            &&& final(dynamic_config).general.max_connections == (match g.max_connections {
                Some(v) => v,
                None => old(dynamic_config).general.max_connections,
            })
            &&& final(dynamic_config).general.default_timeout == (match g.default_timeout {
                Some(v) => v,
                None => old(dynamic_config).general.default_timeout,
            })
            &&& final(dynamic_config).general.rate_limit_delay_ms == (match g.rate_limit_delay_ms {
                Some(v) => v,
                None => old(dynamic_config).general.rate_limit_delay_ms,
            })
            &&& final(dynamic_config).general.log_level@ == (match g.log_level {
                Some(ref v) => v@,
                None => old(dynamic_config).general.log_level@,
            })
        },
        toml_config.dnsbl is None ==> final(dynamic_config).dnsbl == old(dynamic_config).dnsbl,
        toml_config.dnsbl matches Some(u) ==> {
            &&& final(dynamic_config).dnsbl.enabled == (match u.enabled {
                Some(v) => v,
                None => old(dynamic_config).dnsbl.enabled,
            })
            &&& final(dynamic_config).dnsbl.timeout_secs == (match u.timeout_secs {
                Some(v) => v,
                None => old(dynamic_config).dnsbl.timeout_secs,
            })
            &&& final(dynamic_config).dnsbl.max_concurrent == (match u.max_concurrent {
                Some(v) => v,
                None => old(dynamic_config).dnsbl.max_concurrent,
            })
            &&& final(dynamic_config).dnsbl.cache_ttl_secs == (match u.cache_ttl_secs {
                Some(v) => v,
                None => old(dynamic_config).dnsbl.cache_ttl_secs,
            })
            &&& final(dynamic_config).dnsbl.malicious_threshold == (match u.malicious_threshold {
                Some(v) => v,
                None => old(dynamic_config).dnsbl.malicious_threshold,
            })
        },
        toml_config.server is None ==> final(dynamic_config).server == old(dynamic_config).server,
        toml_config.server matches Some(u) ==> {
            &&& final(dynamic_config).server.max_clients == (match u.max_clients {
                Some(v) => v,
                None => old(dynamic_config).server.max_clients,
            })
            &&& final(dynamic_config).server.port == (match u.port {
                Some(v) => v,
                None => old(dynamic_config).server.port,
            })
            &&& final(dynamic_config).server.timeout == (match u.timeout {
                Some(v) => v,
                None => old(dynamic_config).server.timeout,
            })
        },
        toml_config.protocols is None ==> final(dynamic_config).protocols == old(
            dynamic_config,
        ).protocols,
        toml_config.protocols matches Some(u) ==> {
            &&& final(dynamic_config).protocols.http == (match u.http {
                Some(v) => v,
                None => old(dynamic_config).protocols.http,
            })
            &&& final(dynamic_config).protocols.https == (match u.https {
                Some(v) => v,
                None => old(dynamic_config).protocols.https,
            })
            &&& final(dynamic_config).protocols.socks4 == (match u.socks4 {
                Some(v) => v,
                None => old(dynamic_config).protocols.socks4,
            })
            &&& final(dynamic_config).protocols.socks5 == (match u.socks5 {
                Some(v) => v,
                None => old(dynamic_config).protocols.socks5,
            })
            &&& final(dynamic_config).protocols.connect_25 == (match u.connect_25 {
                Some(v) => v,
                None => old(dynamic_config).protocols.connect_25,
            })
            &&& final(dynamic_config).protocols.connect_80 == (match u.connect_80 {
                Some(v) => v,
                None => old(dynamic_config).protocols.connect_80,
            })
        },
        r@.len() == (if toml_config.general is Some {
            1int
        } else {
            0int
        }) + (if toml_config.dnsbl is Some {
            1int
        } else {
            0int
        }) + (if toml_config.server is Some {
            1int
        } else {
            0int
        }) + (if toml_config.protocols is Some {
            1int
        } else {
            0int
        }),
        forall|k: int|
            0 <= k < r@.len() ==> (#[trigger] r@[k]).section is General ==> (r@[k].old_value
                matches SectionValue::General(g0) && g0.max_connections == old(
                dynamic_config,
            ).general.max_connections && g0.default_timeout == old(
                dynamic_config,
            ).general.default_timeout && g0.rate_limit_delay_ms == old(
                dynamic_config,
            ).general.rate_limit_delay_ms && g0.log_level@ == old(
                dynamic_config,
            ).general.log_level@) && (r@[k].new_value matches SectionValue::General(g1)
                && g1.max_connections == final(dynamic_config).general.max_connections
                && g1.default_timeout == final(dynamic_config).general.default_timeout
                && g1.rate_limit_delay_ms == final(dynamic_config).general.rate_limit_delay_ms
                && g1.log_level@ == final(dynamic_config).general.log_level@),
        forall|k: int|
            0 <= k < r@.len() ==> (#[trigger] r@[k]).section is Dnsbl ==> r@[k].old_value
                == SectionValue::Dnsbl(old(dynamic_config).dnsbl) && r@[k].new_value
                == SectionValue::Dnsbl(final(dynamic_config).dnsbl),
        forall|k: int|
            0 <= k < r@.len() ==> (#[trigger] r@[k]).section is Server ==> r@[k].old_value
                == SectionValue::Server(old(dynamic_config).server) && r@[k].new_value
                == SectionValue::Server(final(dynamic_config).server),
        forall|k: int|
            0 <= k < r@.len() ==> (#[trigger] r@[k]).section is Protocols ==> r@[k].old_value
                == SectionValue::Protocols(old(dynamic_config).protocols) && r@[k].new_value
                == SectionValue::Protocols(final(dynamic_config).protocols),
{
    let mut changes: Vec<ConfigChange> = Vec::new();
    match &toml_config.general {
        Some(update) => {
            let before = dynamic_config.general.clone();
            merge_general_config(&mut dynamic_config.general, update);
            let after = dynamic_config.general.clone();
            changes.push(
                ConfigChange {
                    section: ConfigSection::General,
                    old_value: SectionValue::General(before),
                    new_value: SectionValue::General(after),
                },
            );
        },
        None => {},
    }
    match &toml_config.dnsbl {
        Some(update) => {
            let before = dynamic_config.dnsbl;
            merge_dnsbl_config(&mut dynamic_config.dnsbl, update);
            changes.push(
                ConfigChange {
                    section: ConfigSection::Dnsbl,
                    old_value: SectionValue::Dnsbl(before),
                    new_value: SectionValue::Dnsbl(dynamic_config.dnsbl),
                },
            );
        },
        None => {},
    }
    match &toml_config.server {
        Some(update) => {
            let before = dynamic_config.server;
            merge_server_config(&mut dynamic_config.server, update);
            changes.push(
                ConfigChange {
                    section: ConfigSection::Server,
                    old_value: SectionValue::Server(before),
                    new_value: SectionValue::Server(dynamic_config.server),
                },
            );
        },
        None => {},
    }
    match &toml_config.protocols {
        Some(update) => {
            let before = dynamic_config.protocols;
            merge_protocols_config(&mut dynamic_config.protocols, update);
            changes.push(
                ConfigChange {
                    section: ConfigSection::Protocols,
                    old_value: SectionValue::Protocols(before),
                    new_value: SectionValue::Protocols(dynamic_config.protocols),
                },
            );
        },
        None => {},
    }
    changes
}

/// A port change in the `[server]` section cannot be applied to a running
/// listener; it requires a restart.
pub fn port_change_requires_restart(current_port: u16, new_port: u16) -> (r: bool)
    ensures
        r == (current_port != new_port),
{
    current_port != new_port
}

} // verus!
