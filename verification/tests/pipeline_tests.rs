use std::str::FromStr;

use trust_dns_proto::op::{Message, MessageType, Query, ResponseCode};
use trust_dns_proto::rr::rdata::A;
use trust_dns_proto::rr::{Name, RData, Record, RecordType};

use doh_proxy::client::UpstreamError;
use doh_proxy::config::{
    CacheConfiguration, ClientConfiguration, Configuration, ForwardDomainConfiguration,
    ProxyConfiguration, ServerConfiguration,
};
use doh_proxy::metrics::CounterMetricType;
use doh_proxy::proxy::{DOHProxy, PacketOutcome, ProxyError};

fn configuration(
    forward: Vec<ForwardDomainConfiguration>,
    clamp_min: u32,
    clamp_max: u32,
    max_outstanding: usize,
) -> Configuration {
    Configuration {
        server_configuration: ServerConfiguration::new("127.0.0.1:5353".to_string(), 16, 2048),
        forward_domain_configurations: forward,
        reverse_domain_configurations: Vec::new(),
        cache_configuration: CacheConfiguration::new(16, 10),
        client_configuration: ClientConfiguration::new(
            "https://doh.test/dns-query".to_string(),
            5,
            max_outstanding,
        ),
        proxy_configuration: ProxyConfiguration::new(clamp_min, clamp_max),
        timer_interval_seconds: 60,
    }
}

fn query_bytes(id: u16, name: &str, record_type: RecordType) -> Vec<u8> {
    let mut message = Message::new();
    message.set_id(id);
    message.add_query(Query::query(Name::from_str(name).unwrap(), record_type));
    message.to_vec().unwrap()
}

fn upstream_answer(name: &str, octets: [u8; 4], ttl: u32) -> Vec<u8> {
    let parsed = Name::from_str(name).unwrap();
    let mut message = Message::new();
    message.set_id(0);
    message.set_message_type(MessageType::Response);
    message.set_response_code(ResponseCode::NoError);
    message.add_query(Query::query(parsed.clone(), RecordType::A));
    message.add_answer(Record::from_rdata(
        parsed,
        ttl,
        RData::A(A::new(octets[0], octets[1], octets[2], octets[3])),
    ));
    message.to_vec().unwrap()
}

fn counter(proxy: &DOHProxy, t: CounterMetricType) -> u64 {
    proxy.metrics_snapshot().counter_metric(t).value()
}

#[test]
fn local_zone_hit_answers_with_the_live_id() {
    let forward = vec![ForwardDomainConfiguration::new(
        b"example.local.".to_vec(),
        b"10.0.0.1".to_vec(),
        60,
    )];
    let mut proxy = DOHProxy::new(configuration(forward, 10, 60, 4)).unwrap();
    let request = query_bytes(0x1234, "EXAMPLE.local.", RecordType::A);
    match proxy.process_request_packet_buffer(&request, 100) {
        PacketOutcome::Reply(buffer) => {
            let reply = Message::from_vec(&buffer).unwrap();
            assert_eq!(reply.id(), 0x1234);
            assert_eq!(reply.message_type(), MessageType::Response);
            assert!(reply.authoritative());
            assert_eq!(reply.response_code(), ResponseCode::NoError);
            assert_eq!(reply.answers().len(), 1);
            assert_eq!(reply.answers()[0].ttl(), 60);
            assert_eq!(
                reply.answers()[0].data(),
                Some(&RData::A(A::new(10, 0, 0, 1)))
            );
        }
        _ => panic!("expected a reply from the local zone"),
    }
    assert_eq!(counter(&proxy, CounterMetricType::LocalRequests), 1);
    assert_eq!(counter(&proxy, CounterMetricType::CacheMisses), 0);
}

#[test]
fn cache_miss_then_hit_decrements_the_ttl() {
    let mut proxy = DOHProxy::new(configuration(Vec::new(), 10, 60, 4)).unwrap();

    // first query: a miss that goes upstream
    let first = query_bytes(0x1111, "foo.test.", RecordType::A);
    let (request, request_key, upstream_body) =
        match proxy.process_request_packet_buffer(&first, 100) {
            PacketOutcome::AskUpstream { request, request_key, upstream_body } => {
                (request, request_key, upstream_body)
            }
            _ => panic!("expected an upstream question"),
        };
    assert_eq!(counter(&proxy, CounterMetricType::CacheMisses), 1);

    // the upstream question carries id zero
    let upstream_question = Message::from_vec(&upstream_body).unwrap();
    assert_eq!(upstream_question.id(), 0);

    // the upstream answers with TTL 300; the clamp cap is 60
    let upstream = upstream_answer("foo.test.", [1, 2, 3, 4], 300);
    let buffer = proxy
        .complete_request_packet_buffer(&request, request_key, Ok(upstream), 100)
        .unwrap();
    let reply = Message::from_vec(&buffer).unwrap();
    assert_eq!(reply.id(), 0x1111);
    assert_eq!(reply.answers()[0].ttl(), 60);

    // second query one second later, different id: served from cache
    let second = query_bytes(0x2222, "foo.test.", RecordType::A);
    match proxy.process_request_packet_buffer(&second, 101) {
        PacketOutcome::Reply(buffer) => {
            let reply = Message::from_vec(&buffer).unwrap();
            assert_eq!(reply.id(), 0x2222);
            assert_eq!(reply.answers()[0].ttl(), 59);
        }
        _ => panic!("expected a cache hit, not another upstream call"),
    }
    assert_eq!(counter(&proxy, CounterMetricType::CacheHits), 1);
    assert_eq!(counter(&proxy, CounterMetricType::CacheMisses), 1);
}

#[test]
fn upstream_http_error_becomes_servfail() {
    let mut proxy = DOHProxy::new(configuration(Vec::new(), 10, 60, 4)).unwrap();
    let request_bytes = query_bytes(0x4242, "bar.test.", RecordType::A);
    let (request, request_key, _) =
        match proxy.process_request_packet_buffer(&request_bytes, 100) {
            PacketOutcome::AskUpstream { request, request_key, upstream_body } => {
                (request, request_key, upstream_body)
            }
            _ => panic!("expected an upstream question"),
        };
    let buffer = proxy
        .complete_request_packet_buffer(
            &request,
            request_key,
            Err(UpstreamError::HttpError(502)),
            100,
        )
        .unwrap();
    let reply = Message::from_vec(&buffer).unwrap();
    assert_eq!(reply.response_code(), ResponseCode::ServFail);
    assert_eq!(reply.message_type(), MessageType::Response);
    assert_eq!(reply.id(), 0x4242);
    assert_eq!(reply.queries().len(), 1);
    assert_eq!(reply.queries()[0].name().to_string(), "bar.test.");
    assert_eq!(counter(&proxy, CounterMetricType::DOHRequestErrors), 1);
    assert_eq!(proxy.cache_len(), 0);
}

#[test]
fn shed_request_gets_servfail_without_counting_as_error() {
    let mut proxy = DOHProxy::new(configuration(Vec::new(), 10, 60, 1)).unwrap();

    // one slot: the first caller holds it, the second is shed
    assert!(proxy.try_acquire_upstream_slot());
    assert!(!proxy.try_acquire_upstream_slot());

    let request_bytes = query_bytes(0x7777, "shed.test.", RecordType::A);
    let (request, request_key, _) =
        match proxy.process_request_packet_buffer(&request_bytes, 100) {
            PacketOutcome::AskUpstream { request, request_key, upstream_body } => {
                (request, request_key, upstream_body)
            }
            _ => panic!("expected an upstream question"),
        };
    let buffer = proxy
        .complete_request_packet_buffer(
            &request,
            request_key,
            Err(UpstreamError::TooManyOutstanding),
            100,
        )
        .unwrap();
    let reply = Message::from_vec(&buffer).unwrap();
    assert_eq!(reply.response_code(), ResponseCode::ServFail);
    assert_eq!(reply.id(), 0x7777);
    assert_eq!(counter(&proxy, CounterMetricType::DOHRequestErrors), 0);

    proxy.release_upstream_slot();
    assert!(proxy.try_acquire_upstream_slot());
}

#[test]
fn undecodable_request_is_dropped_silently() {
    let mut proxy = DOHProxy::new(configuration(Vec::new(), 10, 60, 4)).unwrap();
    let garbage = vec![0xFFu8, 0x00, 0x13];
    match proxy.process_request_packet_buffer(&garbage, 100) {
        PacketOutcome::NoReply => {}
        _ => panic!("garbage must be dropped"),
    }
    assert_eq!(counter(&proxy, CounterMetricType::CacheMisses), 0);
}

#[test]
fn request_without_queries_gets_servfail() {
    let mut proxy = DOHProxy::new(configuration(Vec::new(), 10, 60, 4)).unwrap();
    let mut message = Message::new();
    message.set_id(0x0A0A);
    let request = message.to_vec().unwrap();
    match proxy.process_request_packet_buffer(&request, 100) {
        PacketOutcome::Reply(buffer) => {
            let reply = Message::from_vec(&buffer).unwrap();
            assert_eq!(reply.response_code(), ResponseCode::ServFail);
            assert_eq!(reply.id(), 0x0A0A);
        }
        _ => panic!("an empty question set deserves ServFail"),
    }
}

#[test]
fn library_produced_replies_round_trip_through_the_codec() {
    let forward = vec![ForwardDomainConfiguration::new(
        b"example.local.".to_vec(),
        b"10.0.0.1".to_vec(),
        60,
    )];
    let mut proxy = DOHProxy::new(configuration(forward, 10, 60, 4)).unwrap();
    let request = query_bytes(0x1234, "example.local.", RecordType::A);
    let buffer = match proxy.process_request_packet_buffer(&request, 100) {
        PacketOutcome::Reply(buffer) => buffer,
        _ => panic!("expected a reply"),
    };
    let decoded = Message::from_vec(&buffer).unwrap();
    let re_encoded = decoded.to_vec().unwrap();
    assert_eq!(re_encoded, buffer);
}

#[test]
fn expired_entry_is_a_miss() {
    let mut proxy = DOHProxy::new(configuration(Vec::new(), 10, 60, 4)).unwrap();
    let first = query_bytes(1, "stale.test.", RecordType::A);
    let (request, request_key, _) = match proxy.process_request_packet_buffer(&first, 100) {
        PacketOutcome::AskUpstream { request, request_key, upstream_body } => {
            (request, request_key, upstream_body)
        }
        _ => panic!("expected an upstream question"),
    };
    // cached with TTL clamped into [10, 60]: stored for 10 seconds
    let upstream = upstream_answer("stale.test.", [9, 9, 9, 9], 1);
    proxy
        .complete_request_packet_buffer(&request, request_key, Ok(upstream), 100)
        .unwrap();
    assert_eq!(proxy.cache_len(), 1);

    // eleven seconds later the entry has expired: the lookup misses
    let second = query_bytes(2, "stale.test.", RecordType::A);
    match proxy.process_request_packet_buffer(&second, 111) {
        PacketOutcome::AskUpstream { .. } => {}
        _ => panic!("an expired entry must fall through to upstream"),
    }
    assert_eq!(counter(&proxy, CounterMetricType::CacheMisses), 2);
    assert_eq!(counter(&proxy, CounterMetricType::CacheHits), 0);
}

#[test]
fn non_cacheable_rcode_is_not_stored() {
    let mut proxy = DOHProxy::new(configuration(Vec::new(), 10, 60, 4)).unwrap();
    let first = query_bytes(5, "refused.test.", RecordType::A);
    let (request, request_key, _) = match proxy.process_request_packet_buffer(&first, 100) {
        PacketOutcome::AskUpstream { request, request_key, upstream_body } => {
            (request, request_key, upstream_body)
        }
        _ => panic!("expected an upstream question"),
    };
    let parsed = Name::from_str("refused.test.").unwrap();
    let mut message = Message::new();
    message.set_id(0);
    message.set_message_type(MessageType::Response);
    message.set_response_code(ResponseCode::Refused);
    message.add_query(Query::query(parsed, RecordType::A));
    let buffer = proxy
        .complete_request_packet_buffer(
            &request,
            request_key,
            Ok(message.to_vec().unwrap()),
            100,
        )
        .unwrap();
    let reply = Message::from_vec(&buffer).unwrap();
    assert_eq!(reply.response_code(), ResponseCode::Refused);
    assert_eq!(reply.id(), 5);
    assert_eq!(proxy.cache_len(), 0);
}

#[test]
fn invalid_configuration_is_refused() {
    // clamp window starting at zero breaks the invariant
    let bad = configuration(Vec::new(), 0, 60, 4);
    assert!(matches!(
        DOHProxy::new(bad),
        Err(ProxyError::InvalidConfiguration)
    ));
    // clamp window upside down
    let bad = configuration(Vec::new(), 60, 10, 4);
    assert!(matches!(
        DOHProxy::new(bad),
        Err(ProxyError::InvalidConfiguration)
    ));
}

#[test]
fn bad_local_entry_is_refused() {
    let forward = vec![ForwardDomainConfiguration::new(
        b"example.local.".to_vec(),
        b"not-an-address".to_vec(),
        60,
    )];
    assert!(matches!(
        DOHProxy::new(configuration(forward, 10, 60, 4)),
        Err(ProxyError::InvalidLocalEntry)
    ));
}

#[test]
fn metrics_dump_reflects_pipeline_traffic() {
    let mut proxy = DOHProxy::new(configuration(Vec::new(), 10, 60, 4)).unwrap();
    proxy.record_udp_request();
    proxy.record_udp_request();
    proxy.record_tcp_request();
    assert_eq!(
        proxy.all_metrics_string(),
        "tcp_requests=1 udp_requests=2 local_requests=0 cache_hits=0 cache_misses=0 doh_request_errors=0"
    );
}

#[test]
fn proxy_purge_drops_expired_lru_entries() {
    let mut proxy = DOHProxy::new(configuration(Vec::new(), 10, 60, 4)).unwrap();
    for (i, name) in ["p1.test.", "p2.test."].iter().enumerate() {
        let request_bytes = query_bytes(i as u16, name, RecordType::A);
        let (request, request_key, _) =
            match proxy.process_request_packet_buffer(&request_bytes, 100) {
                PacketOutcome::AskUpstream { request, request_key, upstream_body } => {
                    (request, request_key, upstream_body)
                }
                _ => panic!("expected an upstream question"),
            };
        // TTL 1 clamps up to the floor of 10: both entries expire at 110
        let upstream = upstream_answer(name, [1, 1, 1, 1], 1);
        proxy
            .complete_request_packet_buffer(&request, request_key, Ok(upstream), 100)
            .unwrap();
    }
    assert_eq!(proxy.cache_len(), 2);
    // not yet expired at 110, expired at 111
    let (size_after, purged) = proxy.periodic_purge(110);
    assert_eq!((size_after, purged), (2, 0));
    let (size_after, purged) = proxy.periodic_purge(111);
    assert_eq!((size_after, purged), (0, 2));
}
