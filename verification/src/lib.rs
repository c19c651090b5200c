//! A caching DNS-to-HTTPS forwarding proxy, with its request-processing
//! pipeline verified: query fingerprinting into cache keys, the three-tier
//! lookup (local zone, response cache, upstream resolver), TTL clamping and
//! decrement, the cache's LRU and expiry discipline, the upstream admission
//! gate, and the TCP length framing.
//!
//! Wire encoding and decoding of DNS messages is done by the `trust-dns-proto`
//! crate behind the trusted boundary in [`dns`]; the asynchronous listeners and
//! the HTTPS client live outside this library and drive it through the staged
//! pipeline in [`proxy`].

pub mod cache;
pub mod client;
pub mod config;
pub mod dns;
pub mod localdomain;
pub mod metrics;
pub mod proxy;
pub mod request_key;
pub mod tcpserver;
