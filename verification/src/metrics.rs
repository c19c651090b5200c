//! The proxy's counters: a closed set of monotonic `u64` counters and their
//! textual dump, `name=value` pairs joined by single spaces in a fixed order.

use vstd::prelude::*;

use vstd::string::StringExecFns;

verus! {

/// The closed set of counters, in dump order.
#[derive(Clone, Copy, Debug, PartialEq, Eq, Hash, Structural)]
pub enum CounterMetricType {
    TCPRequests,
    UDPRequests,
    LocalRequests,
    CacheHits,
    CacheMisses,
    DOHRequestErrors,
}

/// Every counter type, in dump order.
pub fn all_counter_metric_types() -> (r: Vec<CounterMetricType>)
    ensures
        r@ =~= seq![
            CounterMetricType::TCPRequests,
            CounterMetricType::UDPRequests,
            CounterMetricType::LocalRequests,
            CounterMetricType::CacheHits,
            CounterMetricType::CacheMisses,
            CounterMetricType::DOHRequestErrors,
        ],
{
    let mut out: Vec<CounterMetricType> = Vec::new();
    out.push(CounterMetricType::TCPRequests);
    out.push(CounterMetricType::UDPRequests);
    out.push(CounterMetricType::LocalRequests);
    out.push(CounterMetricType::CacheHits);
    out.push(CounterMetricType::CacheMisses);
    out.push(CounterMetricType::DOHRequestErrors);
    out
}

/// The dump name of a counter type.
pub open spec fn metric_name_spec(t: CounterMetricType) -> Seq<char> {
    match t {
        CounterMetricType::TCPRequests => "tcp_requests"@,
        CounterMetricType::UDPRequests => "udp_requests"@,
        CounterMetricType::LocalRequests => "local_requests"@,
        CounterMetricType::CacheHits => "cache_hits"@,
        CounterMetricType::CacheMisses => "cache_misses"@,
        CounterMetricType::DOHRequestErrors => "doh_request_errors"@,
    }
}

/// One counter: its type and its value. The value wraps at the `u64` limit,
/// as a fetch-and-add would.
#[derive(Clone, Copy, Debug)]
pub struct CounterMetric {
    pub counter_metric_type: CounterMetricType,
    pub value: u64,
}

impl CounterMetric {
    pub fn new(counter_metric_type: CounterMetricType) -> (r: CounterMetric)
        ensures
            r.counter_metric_type == counter_metric_type,
            r.value == 0,
    {
        CounterMetric { counter_metric_type, value: 0 }
    }

    pub fn increment_value(&mut self)
        ensures
            final(self).counter_metric_type == old(self).counter_metric_type,
            final(self).value == (if old(self).value == u64::MAX {
                0u64
            } else {
                (old(self).value + 1) as u64
            }),
    {
        self.value = self.value.wrapping_add(1);
    }

    pub fn value(&self) -> (r: u64)
        ensures
            r == self.value,
    {
        self.value
    }

    /// The dump name of this counter.
    pub fn name(&self) -> (r: &'static str)
        ensures
            r@ == metric_name_spec(self.counter_metric_type),
    {
        match self.counter_metric_type {
            CounterMetricType::TCPRequests => "tcp_requests",
            CounterMetricType::UDPRequests => "udp_requests",
            CounterMetricType::LocalRequests => "local_requests",
            CounterMetricType::CacheHits => "cache_hits",
            CounterMetricType::CacheMisses => "cache_misses",
            CounterMetricType::DOHRequestErrors => "doh_request_errors",
        }
    }
}

/// The decimal digit characters.
pub open spec fn dec_digit(d: int) -> char {
    if d == 0 {
        '0'
    } else if d == 1 {
        '1'
    } else if d == 2 {
        '2'
    } else if d == 3 {
        '3'
    } else if d == 4 {
        '4'
    } else if d == 5 {
        '5'
    } else if d == 6 {
        '6'
    } else if d == 7 {
        '7'
    } else if d == 8 {
        '8'
    } else {
        '9'
    }
}

/// The decimal rendering of a number, most significant digit first, without
/// leading zeros.
pub open spec fn dec_str(n: nat) -> Seq<char>
    decreases n,
{
    if n < 10 {
        seq![dec_digit(n as int)]
    } else {
        dec_str(n / 10).push(dec_digit((n % 10) as int))
    }
}

fn digit_str(d: u64) -> (r: &'static str)
    requires
        d < 10,
    ensures
        r@ == seq![dec_digit(d as int)],
{
    proof {
        reveal_strlit("0");
        reveal_strlit("1");
        reveal_strlit("2");
        reveal_strlit("3");
        reveal_strlit("4");
        reveal_strlit("5");
        reveal_strlit("6");
        reveal_strlit("7");
        reveal_strlit("8");
        reveal_strlit("9");
    }
    match d {
        0 => "0",
        1 => "1",
        2 => "2",
        3 => "3",
        4 => "4",
        5 => "5",
        6 => "6",
        7 => "7",
        8 => "8",
        _ => "9",
    }
}

/// Renders a number in decimal.
pub fn u64_to_string(n: u64) -> (r: String)
    ensures
        r@ == dec_str(n as nat),
    decreases n,
{
    if n < 10 {
        digit_str(n).to_owned()
    } else {
        let mut s = u64_to_string(n / 10);
        s.append(digit_str(n % 10));
        proof {
            assert(dec_str((n / 10) as nat) + seq![dec_digit((n % 10) as int)] =~= dec_str(
                n as nat,
            ));
        }
        s
    }
}

/// One dump fragment: `name=value`.
pub open spec fn metric_fragment_spec(t: CounterMetricType, value: u64) -> Seq<char> {
    metric_name_spec(t) + seq!['='] + dec_str(value as nat)
}

/// The whole dump: the six fragments in order, joined by single spaces.
pub open spec fn metrics_dump_spec(m: Metrics) -> Seq<char> {
    metric_fragment_spec(CounterMetricType::TCPRequests, m.tcp_requests.value) + seq![' ']
        + metric_fragment_spec(CounterMetricType::UDPRequests, m.udp_requests.value) + seq![' ']
        + metric_fragment_spec(CounterMetricType::LocalRequests, m.local_requests.value) + seq![' ']
        + metric_fragment_spec(CounterMetricType::CacheHits, m.cache_hits.value) + seq![' ']
        + metric_fragment_spec(CounterMetricType::CacheMisses, m.cache_misses.value) + seq![' ']
        + metric_fragment_spec(CounterMetricType::DOHRequestErrors, m.doh_request_errors.value)
}

/// The six counters of the proxy.
#[derive(Clone, Copy, Debug)]
pub struct Metrics {
    pub tcp_requests: CounterMetric,
    pub udp_requests: CounterMetric,
    pub local_requests: CounterMetric,
    pub cache_hits: CounterMetric,
    pub cache_misses: CounterMetric,
    pub doh_request_errors: CounterMetric,
}

impl Metrics {
    /// Each counter carries its own type tag.
    pub open spec fn wf(&self) -> bool {
        &&& self.tcp_requests.counter_metric_type == CounterMetricType::TCPRequests
        &&& self.udp_requests.counter_metric_type == CounterMetricType::UDPRequests
        &&& self.local_requests.counter_metric_type == CounterMetricType::LocalRequests
        &&& self.cache_hits.counter_metric_type == CounterMetricType::CacheHits
        &&& self.cache_misses.counter_metric_type == CounterMetricType::CacheMisses
        &&& self.doh_request_errors.counter_metric_type == CounterMetricType::DOHRequestErrors
    }

    /// The value a counter type holds.
    pub open spec fn spec_value(&self, t: CounterMetricType) -> u64 {
        match t {
            CounterMetricType::TCPRequests => self.tcp_requests.value,
            CounterMetricType::UDPRequests => self.udp_requests.value,
            CounterMetricType::LocalRequests => self.local_requests.value,
            CounterMetricType::CacheHits => self.cache_hits.value,
            CounterMetricType::CacheMisses => self.cache_misses.value,
            CounterMetricType::DOHRequestErrors => self.doh_request_errors.value,
        }
    }

    pub fn new() -> (r: Metrics)
        ensures
            r.wf(),
            forall|t: CounterMetricType| r.spec_value(t) == 0,
    {
        Metrics {
            tcp_requests: CounterMetric::new(CounterMetricType::TCPRequests),
            udp_requests: CounterMetric::new(CounterMetricType::UDPRequests),
            local_requests: CounterMetric::new(CounterMetricType::LocalRequests),
            cache_hits: CounterMetric::new(CounterMetricType::CacheHits),
            cache_misses: CounterMetric::new(CounterMetricType::CacheMisses),
            doh_request_errors: CounterMetric::new(CounterMetricType::DOHRequestErrors),
        }
    }

    /// The counter a type names.
    pub fn counter_metric(&self, counter_metric_type: CounterMetricType) -> (r: &CounterMetric)
        ensures
            r.value == self.spec_value(counter_metric_type),
            self.wf() ==> r.counter_metric_type == counter_metric_type,
    {
        match counter_metric_type {
            CounterMetricType::TCPRequests => &self.tcp_requests,
            CounterMetricType::UDPRequests => &self.udp_requests,
            CounterMetricType::LocalRequests => &self.local_requests,
            CounterMetricType::CacheHits => &self.cache_hits,
            CounterMetricType::CacheMisses => &self.cache_misses,
            CounterMetricType::DOHRequestErrors => &self.doh_request_errors,
        }
    }

    /// Bumps one counter; every other counter keeps its value.
    pub fn increment(&mut self, t: CounterMetricType)
        requires
            old(self).wf(),
        ensures
            final(self).wf(),
            final(self).spec_value(t) == (if old(self).spec_value(t) == u64::MAX {
                0u64
            } else {
                (old(self).spec_value(t) + 1) as u64
            }),
            forall|u: CounterMetricType| u != t ==> final(self).spec_value(u) == old(
                self,
            ).spec_value(u),
    {
        match t {
            CounterMetricType::TCPRequests => self.tcp_requests.increment_value(),
            CounterMetricType::UDPRequests => self.udp_requests.increment_value(),
            CounterMetricType::LocalRequests => self.local_requests.increment_value(),
            CounterMetricType::CacheHits => self.cache_hits.increment_value(),
            CounterMetricType::CacheMisses => self.cache_misses.increment_value(),
            CounterMetricType::DOHRequestErrors => self.doh_request_errors.increment_value(),
        }
    }

    /// All counters with their values, in dump order.
    pub fn all_metrics(&self) -> (r: Vec<(CounterMetricType, u64)>)
        ensures
            r@ =~= seq![
                (CounterMetricType::TCPRequests, self.spec_value(CounterMetricType::TCPRequests)),
                (CounterMetricType::UDPRequests, self.spec_value(CounterMetricType::UDPRequests)),
                (
                    CounterMetricType::LocalRequests,
                    self.spec_value(CounterMetricType::LocalRequests),
                ),
                (CounterMetricType::CacheHits, self.spec_value(CounterMetricType::CacheHits)),
                (CounterMetricType::CacheMisses, self.spec_value(CounterMetricType::CacheMisses)),
                (
                    CounterMetricType::DOHRequestErrors,
                    self.spec_value(CounterMetricType::DOHRequestErrors),
                ),
            ],
    {
        let mut out: Vec<(CounterMetricType, u64)> = Vec::new();
        out.push((CounterMetricType::TCPRequests, self.tcp_requests.value));
        out.push((CounterMetricType::UDPRequests, self.udp_requests.value));
        out.push((CounterMetricType::LocalRequests, self.local_requests.value));
        out.push((CounterMetricType::CacheHits, self.cache_hits.value));
        out.push((CounterMetricType::CacheMisses, self.cache_misses.value));
        out.push((CounterMetricType::DOHRequestErrors, self.doh_request_errors.value));
        out
    }

    /// The dump: `name=value` pairs, space separated, in dump order.
    pub fn all_metrics_string(&self) -> (r: String)
        requires
            self.wf(),
        ensures
            r@ == metrics_dump_spec(*self),
    {
        proof {
            reveal_strlit("=");
            reveal_strlit(" ");
        }
        let mut out: String = self.tcp_requests.name().to_owned();
        out.append("=");
        out.append(u64_to_string(self.tcp_requests.value).as_str());
        out.append(" ");
        out.append(self.udp_requests.name());
        out.append("=");
        out.append(u64_to_string(self.udp_requests.value).as_str());
        out.append(" ");
        out.append(self.local_requests.name());
        out.append("=");
        out.append(u64_to_string(self.local_requests.value).as_str());
        out.append(" ");
        out.append(self.cache_hits.name());
        out.append("=");
        out.append(u64_to_string(self.cache_hits.value).as_str());
        out.append(" ");
        out.append(self.cache_misses.name());
        out.append("=");
        out.append(u64_to_string(self.cache_misses.value).as_str());
        out.append(" ");
        out.append(self.doh_request_errors.name());
        out.append("=");
        out.append(u64_to_string(self.doh_request_errors.value).as_str());
        proof {
            assert("="@ =~= seq!['=']);
            assert(" "@ =~= seq![' ']);
            assert(out@ =~= metrics_dump_spec(*self));
        }
        out
    }
}

} // verus!
