use doh_proxy::metrics::{
    all_counter_metric_types, u64_to_string, CounterMetric, CounterMetricType, Metrics,
};

#[test]
fn u64_rendering_is_plain_decimal() {
    assert_eq!(u64_to_string(0), "0");
    assert_eq!(u64_to_string(7), "7");
    assert_eq!(u64_to_string(10), "10");
    assert_eq!(u64_to_string(12345), "12345");
    assert_eq!(u64_to_string(u64::MAX), "18446744073709551615");
}

#[test]
fn fresh_dump_lists_all_counters_at_zero() {
    let metrics = Metrics::new();
    assert_eq!(
        metrics.all_metrics_string(),
        "tcp_requests=0 udp_requests=0 local_requests=0 cache_hits=0 cache_misses=0 doh_request_errors=0"
    );
}

#[test]
fn increments_show_up_in_the_dump() {
    let mut metrics = Metrics::new();
    metrics.increment(CounterMetricType::UDPRequests);
    metrics.increment(CounterMetricType::UDPRequests);
    metrics.increment(CounterMetricType::CacheHits);
    assert_eq!(
        metrics.all_metrics_string(),
        "tcp_requests=0 udp_requests=2 local_requests=0 cache_hits=1 cache_misses=0 doh_request_errors=0"
    );
}

#[test]
fn increment_touches_only_its_counter() {
    let mut metrics = Metrics::new();
    metrics.increment(CounterMetricType::DOHRequestErrors);
    assert_eq!(
        metrics.counter_metric(CounterMetricType::DOHRequestErrors).value(),
        1
    );
    assert_eq!(metrics.counter_metric(CounterMetricType::TCPRequests).value(), 0);
    assert_eq!(metrics.counter_metric(CounterMetricType::CacheMisses).value(), 0);
}

#[test]
fn counter_names_match_the_dump_order() {
    let types = all_counter_metric_types();
    let names: Vec<&str> = types.iter().map(|t| CounterMetric::new(*t).name()).collect();
    assert_eq!(
        names,
        vec![
            "tcp_requests",
            "udp_requests",
            "local_requests",
            "cache_hits",
            "cache_misses",
            "doh_request_errors"
        ]
    );
}

#[test]
fn all_metrics_reports_values_in_order() {
    let mut metrics = Metrics::new();
    metrics.increment(CounterMetricType::LocalRequests);
    let all = metrics.all_metrics();
    assert_eq!(all.len(), 6);
    assert_eq!(all[2], (CounterMetricType::LocalRequests, 1));
    assert_eq!(all[0], (CounterMetricType::TCPRequests, 0));
}

#[test]
fn increment_wraps_at_the_limit() {
    let mut counter = CounterMetric::new(CounterMetricType::CacheHits);
    counter.value = u64::MAX;
    counter.increment_value();
    assert_eq!(counter.value(), 0);
}
