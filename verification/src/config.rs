//! Configuration of the proxy, as plain values.
//!
//! Loading the JSON document and binding a listen address happen outside the
//! library; what arrives here is already split into these plain structs. Names
//! and addresses that the library itself parses or fingerprints are byte
//! strings.

use vstd::prelude::*;

verus! {

/// Listener settings.
#[derive(Clone, Debug)]
pub struct ServerConfiguration {
    pub listen_address: String,
    pub udp_response_channel_capacity: usize,
    pub udp_receive_buffer_size: usize,
}

impl ServerConfiguration {
    pub fn new(listen_address: String, udp_response_channel_capacity: usize, udp_receive_buffer_size: usize) -> (r: ServerConfiguration)
        ensures
            r.listen_address@ == listen_address@,
            r.udp_response_channel_capacity == udp_response_channel_capacity,
            r.udp_receive_buffer_size == udp_receive_buffer_size,
    {
        ServerConfiguration { listen_address, udp_response_channel_capacity, udp_receive_buffer_size }
    }

    pub fn listen_address(&self) -> (r: &String)
        ensures
            r@ == self.listen_address@,
    {
        &self.listen_address
    }

    pub fn udp_response_channel_capacity(&self) -> (r: usize)
        ensures
            r == self.udp_response_channel_capacity,
    {
        self.udp_response_channel_capacity
    }

    pub fn udp_receive_buffer_size(&self) -> (r: usize)
        ensures
            r == self.udp_receive_buffer_size,
    {
        self.udp_receive_buffer_size
    }
}

/// A statically answered forward entry: `name` resolves to the IPv4 address
/// written in dotted-quad form in `ip_address`.
#[derive(Clone, Debug)]
pub struct ForwardDomainConfiguration {
    pub name: Vec<u8>,
    pub ip_address: Vec<u8>,
    pub ttl_seconds: u32,
}

impl ForwardDomainConfiguration {
    pub fn new(name: Vec<u8>, ip_address: Vec<u8>, ttl_seconds: u32) -> (r: ForwardDomainConfiguration)
        ensures
            r.name@ == name@,
            r.ip_address@ == ip_address@,
            r.ttl_seconds == ttl_seconds,
    {
        ForwardDomainConfiguration { name, ip_address, ttl_seconds }
    }

    pub fn name(&self) -> (r: &Vec<u8>)
        ensures
            r@ == self.name@,
    {
        &self.name
    }

    pub fn ip_address(&self) -> (r: &Vec<u8>)
        ensures
            r@ == self.ip_address@,
    {
        &self.ip_address
    }

    pub fn ttl_seconds(&self) -> (r: u32)
        ensures
            r == self.ttl_seconds,
    {
        self.ttl_seconds
    }
}

/// A statically answered reverse entry: the `in-addr.arpa` style name in
/// `reverse_address` points back at `name`.
#[derive(Clone, Debug)]
pub struct ReverseDomainConfiguration {
    pub reverse_address: Vec<u8>,
    pub name: Vec<u8>,
    pub ttl_seconds: u32,
}

impl ReverseDomainConfiguration {
    pub fn new(reverse_address: Vec<u8>, name: Vec<u8>, ttl_seconds: u32) -> (r: ReverseDomainConfiguration)
        ensures
            r.reverse_address@ == reverse_address@,
            r.name@ == name@,
            r.ttl_seconds == ttl_seconds,
    {
        ReverseDomainConfiguration { reverse_address, name, ttl_seconds }
    }

    pub fn reverse_address(&self) -> (r: &Vec<u8>)
        ensures
            r@ == self.reverse_address@,
    {
        &self.reverse_address
    }

    pub fn name(&self) -> (r: &Vec<u8>)
        ensures
            r@ == self.name@,
    {
        &self.name
    }

    pub fn ttl_seconds(&self) -> (r: u32)
        ensures
            r == self.ttl_seconds,
    {
        self.ttl_seconds
    }
}

/// Response-cache settings.
#[derive(Clone, Copy, Debug)]
pub struct CacheConfiguration {
    pub max_size: usize,
    pub max_purges_per_timer_pop: usize,
}

impl CacheConfiguration {
    /// A usable cache holds at least one entry.
    pub open spec fn wf(&self) -> bool {
        self.max_size > 0
    }

    pub fn new(max_size: usize, max_purges_per_timer_pop: usize) -> (r: CacheConfiguration)
        ensures
            r.max_size == max_size,
            r.max_purges_per_timer_pop == max_purges_per_timer_pop,
    {
        CacheConfiguration { max_size, max_purges_per_timer_pop }
    }

    pub fn max_size(&self) -> (r: usize)
        ensures
            r == self.max_size,
    {
        self.max_size
    }

    pub fn max_purges_per_timer_pop(&self) -> (r: usize)
        ensures
            r == self.max_purges_per_timer_pop,
    {
        self.max_purges_per_timer_pop
    }
}

/// Upstream resolver settings.
#[derive(Clone, Debug)]
pub struct ClientConfiguration {
    pub remote_url: String,
    pub request_timeout_seconds: u64,
    pub max_outstanding_requests: usize,
}

impl ClientConfiguration {
    /// The admission gate must let at least one request through.
    pub open spec fn wf(&self) -> bool {
        self.max_outstanding_requests > 0
    }

    pub fn new(remote_url: String, request_timeout_seconds: u64, max_outstanding_requests: usize) -> (r: ClientConfiguration)
        ensures
            r.remote_url@ == remote_url@,
            r.request_timeout_seconds == request_timeout_seconds,
            r.max_outstanding_requests == max_outstanding_requests,
    {
        ClientConfiguration { remote_url, request_timeout_seconds, max_outstanding_requests }
    }

    pub fn remote_url(&self) -> (r: &String)
        ensures
            r@ == self.remote_url@,
    {
        &self.remote_url
    }

    pub fn request_timeout_seconds(&self) -> (r: u64)
        ensures
            r == self.request_timeout_seconds,
    {
        self.request_timeout_seconds
    }

    pub fn max_outstanding_requests(&self) -> (r: usize)
        ensures
            r == self.max_outstanding_requests,
    {
        self.max_outstanding_requests
    }
}

/// TTL clamping bounds.
#[derive(Clone, Copy, Debug)]
pub struct ProxyConfiguration {
    pub clamp_min_ttl_seconds: u32,
    pub clamp_max_ttl_seconds: u32,
}

impl ProxyConfiguration {
    /// The clamp window is non-empty and starts above zero.
    pub open spec fn wf(&self) -> bool {
        0 < self.clamp_min_ttl_seconds <= self.clamp_max_ttl_seconds
    }

    pub fn new(clamp_min_ttl_seconds: u32, clamp_max_ttl_seconds: u32) -> (r: ProxyConfiguration)
        ensures
            r.clamp_min_ttl_seconds == clamp_min_ttl_seconds,
            r.clamp_max_ttl_seconds == clamp_max_ttl_seconds,
    {
        ProxyConfiguration { clamp_min_ttl_seconds, clamp_max_ttl_seconds }
    }

    pub fn clamp_min_ttl_seconds(&self) -> (r: u32)
        ensures
            r == self.clamp_min_ttl_seconds,
    {
        self.clamp_min_ttl_seconds
    }

    pub fn clamp_max_ttl_seconds(&self) -> (r: u32)
        ensures
            r == self.clamp_max_ttl_seconds,
    {
        self.clamp_max_ttl_seconds
    }
}

/// The whole configuration document.
#[derive(Clone, Debug)]
pub struct Configuration {
    pub server_configuration: ServerConfiguration,
    pub forward_domain_configurations: Vec<ForwardDomainConfiguration>,
    pub reverse_domain_configurations: Vec<ReverseDomainConfiguration>,
    pub cache_configuration: CacheConfiguration,
    pub client_configuration: ClientConfiguration,
    pub proxy_configuration: ProxyConfiguration,
    pub timer_interval_seconds: u64,
}

impl Configuration {
    /// The invariants the document must satisfy before the proxy is built.
    pub open spec fn wf(&self) -> bool {
        self.cache_configuration.wf() && self.client_configuration.wf()
            && self.proxy_configuration.wf()
    }

    /// Checks the document's invariants: positive cache size and gate width,
    /// and a clamp window with `0 < min <= max`.
    pub fn validate(&self) -> (r: bool)
        ensures
            r == self.wf(),
    {
        self.cache_configuration.max_size > 0 && self.client_configuration.max_outstanding_requests
            > 0 && self.proxy_configuration.clamp_min_ttl_seconds > 0
            && self.proxy_configuration.clamp_min_ttl_seconds
            <= self.proxy_configuration.clamp_max_ttl_seconds
    }

    pub fn server_configuration(&self) -> (r: &ServerConfiguration)
        ensures
            r == self.server_configuration,
    {
        &self.server_configuration
    }

    pub fn forward_domain_configurations(&self) -> (r: &Vec<ForwardDomainConfiguration>)
        ensures
            r == self.forward_domain_configurations,
    {
        &self.forward_domain_configurations
    }

    pub fn reverse_domain_configurations(&self) -> (r: &Vec<ReverseDomainConfiguration>)
        ensures
            r == self.reverse_domain_configurations,
    {
        &self.reverse_domain_configurations
    }

    pub fn cache_configuration(&self) -> (r: &CacheConfiguration)
        ensures
            r == self.cache_configuration,
    {
        &self.cache_configuration
    }

    pub fn client_configuration(&self) -> (r: &ClientConfiguration)
        ensures
            r == self.client_configuration,
    {
        &self.client_configuration
    }

    pub fn proxy_configuration(&self) -> (r: &ProxyConfiguration)
        ensures
            r == self.proxy_configuration,
    {
        &self.proxy_configuration
    }

    pub fn timer_interval_seconds(&self) -> (r: u64)
        ensures
            r == self.timer_interval_seconds,
    {
        self.timer_interval_seconds
    }
}

} // verus!
