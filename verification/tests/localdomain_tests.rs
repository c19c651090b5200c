use doh_proxy::config::{ForwardDomainConfiguration, ReverseDomainConfiguration};
use doh_proxy::localdomain::{parse_ipv4, LocalDomainCache, LocalZoneError};
use doh_proxy::request_key::RequestKey;

#[test]
fn dotted_quad_parses_to_its_octets() {
    assert_eq!(parse_ipv4(&b"10.0.0.1".to_vec()), Some((10, 0, 0, 1)));
    assert_eq!(parse_ipv4(&b"0.0.0.0".to_vec()), Some((0, 0, 0, 0)));
    assert_eq!(parse_ipv4(&b"255.255.255.255".to_vec()), Some((255, 255, 255, 255)));
    assert_eq!(parse_ipv4(&b"192.168.1.42".to_vec()), Some((192, 168, 1, 42)));
}

#[test]
fn malformed_addresses_are_refused() {
    assert_eq!(parse_ipv4(&b"256.0.0.1".to_vec()), None);
    assert_eq!(parse_ipv4(&b"01.2.3.4".to_vec()), None);
    assert_eq!(parse_ipv4(&b"1.2.3".to_vec()), None);
    assert_eq!(parse_ipv4(&b"1.2.3.4.5".to_vec()), None);
    assert_eq!(parse_ipv4(&b"a.b.c.d".to_vec()), None);
    assert_eq!(parse_ipv4(&b"1..2.3".to_vec()), None);
    assert_eq!(parse_ipv4(&b"".to_vec()), None);
    assert_eq!(parse_ipv4(&b"1.2.3.".to_vec()), None);
}

fn forward(name: &str, ip: &str, ttl: u32) -> ForwardDomainConfiguration {
    ForwardDomainConfiguration::new(name.as_bytes().to_vec(), ip.as_bytes().to_vec(), ttl)
}

fn reverse(addr: &str, name: &str, ttl: u32) -> ReverseDomainConfiguration {
    ReverseDomainConfiguration::new(addr.as_bytes().to_vec(), name.as_bytes().to_vec(), ttl)
}

#[test]
fn zone_answers_its_forward_entry() {
    let zone = LocalDomainCache::new(
        &vec![forward("example.local.", "10.0.0.1", 60)],
        &Vec::new(),
    )
    .unwrap();
    assert_eq!(zone.len(), 1);
    let key =
        RequestKey::from_queries(&vec![(b"example.local.".to_vec(), 1u16, 1u16)]).unwrap();
    let message = zone.get_response_message(&key).unwrap();
    assert_eq!(message.answers().len(), 1);
    assert_eq!(message.answers()[0].ttl(), 60);
}

#[test]
fn zone_answers_its_reverse_entry() {
    let zone = LocalDomainCache::new(
        &Vec::new(),
        &vec![reverse("1.0.0.10.in-addr.arpa.", "example.local.", 90)],
    )
    .unwrap();
    let key = RequestKey::from_queries(&vec![(
        b"1.0.0.10.in-addr.arpa.".to_vec(),
        12u16,
        1u16,
    )])
    .unwrap();
    let message = zone.get_response_message(&key).unwrap();
    assert_eq!(message.answers().len(), 1);
    assert_eq!(message.answers()[0].ttl(), 90);
}

#[test]
fn unknown_key_gets_no_answer() {
    let zone = LocalDomainCache::new(
        &vec![forward("example.local.", "10.0.0.1", 60)],
        &Vec::new(),
    )
    .unwrap();
    let key = RequestKey::from_queries(&vec![(b"other.local.".to_vec(), 1u16, 1u16)]).unwrap();
    assert!(zone.get_response_message(&key).is_none());
}

#[test]
fn bad_forward_address_fails_construction() {
    let outcome = LocalDomainCache::new(
        &vec![forward("example.local.", "10.0.0.300", 60)],
        &Vec::new(),
    );
    assert_eq!(outcome.err(), Some(LocalZoneError::InvalidLocalEntry));
}

#[test]
fn bad_name_fails_construction() {
    // a label over 63 octets is not a DNS name
    let long_label = format!("{}.local.", "x".repeat(64));
    let outcome = LocalDomainCache::new(
        &vec![forward(&long_label, "10.0.0.1", 60)],
        &Vec::new(),
    );
    assert_eq!(outcome.err(), Some(LocalZoneError::InvalidLocalEntry));
}
