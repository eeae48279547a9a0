//! Proxy pool manager: validates candidate proxies against protocol probes,
//! screens them against DNS blocklists, scores the survivors, and serves them
//! through a local forwarding proxy with pooled upstream connections.

pub mod argument;
pub mod checker;
pub mod config;
pub mod dnsbl;
pub mod ip;
pub mod judge;
pub mod multi_cache;
pub mod negotiators;
pub mod resolver;
pub mod resource;
pub mod server;
pub mod shutdown;
pub mod strutil;
