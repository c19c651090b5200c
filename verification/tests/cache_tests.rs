use std::str::FromStr;

use trust_dns_proto::op::{Message, MessageType, Query, ResponseCode};
use trust_dns_proto::rr::{Name, RecordType};

use doh_proxy::cache::{Cache, CacheObject};
use doh_proxy::config::CacheConfiguration;
use doh_proxy::request_key::RequestKey;

fn key(name: &str) -> RequestKey {
    RequestKey::from_queries(&vec![(name.as_bytes().to_vec(), 1u16, 1u16)]).unwrap()
}

fn message(id: u16) -> Message {
    let mut m = Message::new();
    m.set_id(id);
    m.set_message_type(MessageType::Response);
    m.set_response_code(ResponseCode::NoError);
    m.add_query(Query::query(Name::from_str("a.test.").unwrap(), RecordType::A));
    m
}

#[test]
fn put_then_get_returns_the_entry() {
    let mut cache = Cache::new(CacheConfiguration::new(4, 10));
    cache.put(key("a.test."), CacheObject::new(message(7), 100, 30));
    let got = cache.get(&key("a.test.")).unwrap();
    assert_eq!(got.message().id(), 7);
    assert_eq!(cache.len(), 1);
}

#[test]
fn get_of_absent_key_is_none() {
    let mut cache = Cache::new(CacheConfiguration::new(4, 10));
    cache.put(key("a.test."), CacheObject::new(message(1), 100, 30));
    assert!(cache.get(&key("b.test.")).is_none());
}

#[test]
fn put_over_capacity_evicts_least_recently_used() {
    let mut cache = Cache::new(CacheConfiguration::new(2, 10));
    cache.put(key("a.test."), CacheObject::new(message(1), 100, 30));
    cache.put(key("b.test."), CacheObject::new(message(2), 100, 30));
    cache.put(key("c.test."), CacheObject::new(message(3), 100, 30));
    assert_eq!(cache.len(), 2);
    assert!(cache.get(&key("a.test.")).is_none());
    assert!(cache.get(&key("b.test.")).is_some());
    assert!(cache.get(&key("c.test.")).is_some());
}

#[test]
fn get_promotes_the_entry_out_of_eviction_order() {
    let mut cache = Cache::new(CacheConfiguration::new(2, 10));
    cache.put(key("a.test."), CacheObject::new(message(1), 100, 30));
    cache.put(key("b.test."), CacheObject::new(message(2), 100, 30));
    // touch a; now b is the least recently used
    assert!(cache.get(&key("a.test.")).is_some());
    cache.put(key("c.test."), CacheObject::new(message(3), 100, 30));
    assert!(cache.get(&key("a.test.")).is_some());
    assert!(cache.get(&key("b.test.")).is_none());
}

#[test]
fn put_same_key_replaces_without_growing() {
    let mut cache = Cache::new(CacheConfiguration::new(2, 10));
    cache.put(key("a.test."), CacheObject::new(message(1), 100, 30));
    cache.put(key("a.test."), CacheObject::new(message(9), 200, 30));
    assert_eq!(cache.len(), 1);
    let got = cache.get(&key("a.test.")).unwrap();
    assert_eq!(got.cache_time_value(), 200);
    assert_eq!(got.message().id(), 9);
}

#[test]
fn size_never_exceeds_max_size() {
    let mut cache = Cache::new(CacheConfiguration::new(3, 10));
    for i in 0..20u16 {
        let name = format!("n{}.test.", i);
        cache.put(key(&name), CacheObject::new(message(i), 100, 30));
        assert!(cache.len() <= 3);
    }
}

#[test]
fn expired_is_strict() {
    let object = CacheObject::new(message(1), 100, 30);
    assert!(!object.expired(100));
    assert!(!object.expired(130));
    assert!(object.expired(131));
    assert_eq!(object.duration_in_cache(130), 30);
    assert_eq!(object.expiration_time_value(), 130);
}

#[test]
fn three_records_purged_up_to_first_fresh() {
    // entries expiring at t+1, t+5, t+10, inserted in that LRU order
    let mut cache = Cache::new(CacheConfiguration::new(10, 10));
    cache.put(key("one.test."), CacheObject::new(message(1), 0, 1));
    cache.put(key("five.test."), CacheObject::new(message(2), 0, 5));
    cache.put(key("ten.test."), CacheObject::new(message(3), 0, 10));
    // at t+6 the two LRU-end entries are expired, the third is not
    let (size_after, purged) = cache.periodic_purge(6);
    assert_eq!(purged, 2);
    assert_eq!(size_after, 1);
    assert!(cache.get(&key("ten.test.")).is_some());
}

#[test]
fn purge_stops_at_first_fresh_lru_entry() {
    // the fresh entry sits at the LRU end, shielding an expired one
    let mut cache = Cache::new(CacheConfiguration::new(10, 10));
    cache.put(key("fresh.test."), CacheObject::new(message(1), 0, 100));
    cache.put(key("stale.test."), CacheObject::new(message(2), 0, 1));
    let (size_after, purged) = cache.periodic_purge(6);
    assert_eq!(purged, 0);
    assert_eq!(size_after, 2);
}

#[test]
fn purge_respects_the_per_tick_cap() {
    let mut cache = Cache::new(CacheConfiguration::new(10, 2));
    cache.put(key("a.test."), CacheObject::new(message(1), 0, 1));
    cache.put(key("b.test."), CacheObject::new(message(2), 0, 1));
    cache.put(key("c.test."), CacheObject::new(message(3), 0, 1));
    let (size_after, purged) = cache.periodic_purge(10);
    assert_eq!(purged, 2);
    assert_eq!(size_after, 1);
}
