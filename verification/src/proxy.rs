//! The request-processing pipeline.
//!
//! A request travels: decode, fingerprint into a key, local zone, response
//! cache (with TTL decrement), and only then the upstream resolver. Because
//! the upstream exchange is asynchronous I/O and the proxy's lock must not be
//! held across it, the pipeline is split in two verified stages: the first
//! answers from the zone or the cache, or hands back what to POST; the second
//! takes the upstream outcome and clamps, caches and rewrites the reply. The
//! loop around the two stages, and the POST itself, live outside the library.
//!
//! Times are seconds on one monotonic clock, passed in by the caller.

use vstd::prelude::*;

use trust_dns_proto::op::Message;

use crate::cache::{
    has_key, key_index, spec_get, spec_promote, spec_put, Cache, CacheEntry, CacheObject,
    CacheObjectModel,
};
use crate::client::{UpstreamError, UpstreamGate};
use crate::config::Configuration;
use crate::dns::{
    decode_dns_message_vec, encode_dns_message, msg_answer_ttls, msg_additional_ttls, msg_clone,
    msg_id, msg_model, msg_name_server_ttls, msg_queries, msg_response_code,
    msg_set_additional_ttls, msg_set_answer_ttls, msg_set_id, msg_set_message_type_response,
    msg_set_name_server_ttls, msg_set_response_code_servfail, msg_wire_of, wire_ok,
    decoded_model_of, MsgModel, QueryTuple,
};
use crate::localdomain::{LocalDomainCache, LocalZoneError};
use crate::metrics::{CounterMetricType, Metrics};
use crate::request_key::{request_key_spec, RequestKey};

verus! {

/// Headroom so that `now + any u32 TTL` stays inside `u64`.
pub open spec fn now_in_range(now: u64) -> bool {
    now + 0xFFFF_FFFF <= u64::MAX
}

/// A failed request's reply: the request itself, turned into a `ServFail`
/// response; everything else — id, question, records — is kept.
pub open spec fn servfail_model(m: MsgModel) -> MsgModel {
    MsgModel { response: true, rcode: 2u16, ..m }
}

/// The same message under another transaction id.
pub open spec fn with_id(m: MsgModel, id: u16) -> MsgModel {
    MsgModel { id, ..m }
}

/// One TTL clamped into `[lo, hi]`, the larger bound winning when they cross.
pub open spec fn spec_clamp(ttl: u32, lo: u32, hi: u32) -> u32 {
    let raised = if ttl > lo {
        ttl
    } else {
        lo
    };
    if raised < hi {
        raised
    } else {
        hi
    }
}

/// A whole section's TTLs clamped.
pub open spec fn clamp_seq(ttls: Seq<u32>, lo: u32, hi: u32) -> Seq<u32> {
    ttls.map_values(|t: u32| spec_clamp(t, lo, hi))
}

/// The running minimum of a section, threaded through an accumulator.
pub open spec fn min_acc(s: Seq<u32>, acc: Option<u32>) -> Option<u32>
    decreases s.len(),
{
    if s.len() == 0 {
        acc
    } else {
        let acc2 = match acc {
            None => Some(s[0]),
            Some(v) => if s[0] < v {
                Some(s[0])
            } else {
                Some(v)
            },
        };
        min_acc(s.drop_first(), acc2)
    }
}

/// All record TTLs of a message, answers first, then authority, then
/// additionals.
pub open spec fn all_ttls(m: MsgModel) -> Seq<u32> {
    m.answer_ttls + m.name_server_ttls + m.additional_ttls
}

/// The message with every section clamped.
pub open spec fn clamped_model(m: MsgModel, lo: u32, hi: u32) -> MsgModel {
    MsgModel {
        answer_ttls: clamp_seq(m.answer_ttls, lo, hi),
        name_server_ttls: clamp_seq(m.name_server_ttls, lo, hi),
        additional_ttls: clamp_seq(m.additional_ttls, lo, hi),
        ..m
    }
}

/// The smallest clamped TTL of the message, or `lo` when it has no records.
pub open spec fn min_clamped_ttl(m: MsgModel, lo: u32, hi: u32) -> u32 {
    match min_acc(clamp_seq(all_ttls(m), lo, hi), None) {
        None => lo,
        Some(v) => v,
    }
}

/// A response with rcode `NoError` (0) or `NXDomain` (3) may be cached.
pub open spec fn cacheable_rcode(m: MsgModel) -> bool {
    m.rcode == 0 || m.rcode == 3
}

/// Every TTL outlives the entry's age.
pub open spec fn dec_ok(s: Seq<u32>, age: u64) -> bool {
    forall|i: int| 0 <= i < s.len() ==> age <= #[trigger] s[i]
}

/// A section's TTLs with the entry's age subtracted.
pub open spec fn dec_seq(s: Seq<u32>, age: u64) -> Seq<u32> {
    s.map_values(|t: u32| (t - age) as u32)
}

/// A cache entry answers a request at `now` when it is present, not yet
/// expired, not from the future, and every record TTL covers its age.
pub open spec fn fresh_hit(c: Seq<CacheEntry>, k: Seq<QueryTuple>, now: u64) -> bool {
    spec_get(c, k) matches Some(o) && o.cache_time <= now <= o.expiration_time && dec_ok(
        all_ttls(o.message),
        (now - o.cache_time) as u64,
    )
}

/// What a cache hit replies: the stored message, every TTL decremented by the
/// entry's age, under the live request's id.
pub open spec fn hit_model(c: Seq<CacheEntry>, k: Seq<QueryTuple>, now: u64, id: u16) -> MsgModel {
    let o = spec_get(c, k)->Some_0;
    let age = (now - o.cache_time) as u64;
    MsgModel {
        id,
        answer_ttls: dec_seq(o.message.answer_ttls, age),
        name_server_ttls: dec_seq(o.message.name_server_ttls, age),
        additional_ttls: dec_seq(o.message.additional_ttls, age),
        ..o.message
    }
}

/// Clamped TTLs stay inside the clamp window.
pub proof fn lemma_clamped_ttls_in_range(ttls: Seq<u32>, lo: u32, hi: u32)
    requires
        lo <= hi,
    ensures
        forall|i: int| 0 <= i < ttls.len() ==> lo <= #[trigger] clamp_seq(ttls, lo, hi)[i] <= hi,
{
}

/// Decrementing a section by the entry's age never raises a TTL and never
/// drives one below zero.
pub proof fn lemma_decremented_ttls_bounded(s: Seq<u32>, age: u64)
    requires
        dec_ok(s, age),
    ensures
        forall|i: int| 0 <= i < s.len() ==> #[trigger] dec_seq(s, age)[i] <= s[i],
        forall|i: int| 0 <= i < s.len() ==> 0 <= #[trigger] dec_seq(s, age)[i],
{
}

/// The minimum accumulator over a concatenation runs left to right.
proof fn lemma_min_acc_concat(x: Seq<u32>, y: Seq<u32>, acc: Option<u32>)
    ensures
        min_acc(x + y, acc) == min_acc(y, min_acc(x, acc)),
    decreases x.len(),
{
    if x.len() == 0 {
        assert(x + y =~= y);
    } else {
        let acc2 = match acc {
            None => Some(x[0]),
            Some(v) => if x[0] < v {
                Some(x[0])
            } else {
                Some(v)
            },
        };
        assert((x + y).drop_first() =~= x.drop_first() + y);
        lemma_min_acc_concat(x.drop_first(), y, acc2);
    }
}

/// Clamping distributes over concatenation.
proof fn lemma_clamp_seq_concat(x: Seq<u32>, y: Seq<u32>, lo: u32, hi: u32)
    ensures
        clamp_seq(x + y, lo, hi) =~= clamp_seq(x, lo, hi) + clamp_seq(y, lo, hi),
{
}

/// Every cached message stays within the encoder's section bounds, so a
/// cache hit's reply can always be handed to the encoder.
pub open spec fn cache_models_bounded(c: Seq<CacheEntry>) -> bool {
    forall|i: int| 0 <= i < c.len() ==> (#[trigger] c[i]).1.message.sections_bounded
}

proof fn lemma_promote_models_bounded(c: Seq<CacheEntry>, k: Seq<QueryTuple>)
    requires
        cache_models_bounded(c),
    ensures
        cache_models_bounded(spec_promote(c, k)),
{
    if has_key(c, k) {
        let idx = key_index(c, k);
        let t = spec_promote(c, k);
        assert forall|i: int| 0 <= i < t.len() implies (#[trigger] t[i]).1.message.sections_bounded by {
            if i < t.len() - 1 {
                let j = if i < idx {
                    i
                } else {
                    i + 1
                };
                assert(t[i] == c[j]);
            } else {
                assert(t[i] == c[idx]);
            }
        }
    }
}

proof fn lemma_put_models_bounded(c: Seq<CacheEntry>, k: Seq<QueryTuple>, o: CacheObjectModel, max: int)
    requires
        cache_models_bounded(c),
        o.message.sections_bounded,
        c.len() <= max,
        0 < max,
    ensures
        cache_models_bounded(spec_put(c, k, o, max)),
{
    let t = spec_put(c, k, o, max);
    if has_key(c, k) {
        let idx = key_index(c, k);
        assert forall|i: int| 0 <= i < t.len() implies (#[trigger] t[i]).1.message.sections_bounded by {
            if i < t.len() - 1 {
                let j = if i < idx {
                    i
                } else {
                    i + 1
                };
                assert(t[i] == c[j]);
            }
        }
    } else if c.len() < max {
        assert forall|i: int| 0 <= i < t.len() implies (#[trigger] t[i]).1.message.sections_bounded by {
            if i < t.len() - 1 {
                assert(t[i] == c[i]);
            }
        }
    } else {
        assert forall|i: int| 0 <= i < t.len() implies (#[trigger] t[i]).1.message.sections_bounded by {
            if i < t.len() - 1 {
                assert(t[i] == c[i + 1]);
            }
        }
    }
}

proof fn lemma_skip_models_bounded(c: Seq<CacheEntry>, n: int)
    requires
        cache_models_bounded(c),
        0 <= n <= c.len(),
    ensures
        cache_models_bounded(c.skip(n)),
{
    assert forall|i: int| 0 <= i < c.skip(n).len() implies (#[trigger] c.skip(
        n,
    )[i]).1.message.sections_bounded by {
        assert(c.skip(n)[i] == c[i + n]);
    }
}

/// Clamps one TTL.
fn clamp_ttl(ttl: u32, lo: u32, hi: u32) -> (r: u32)
    ensures
        r == spec_clamp(ttl, lo, hi),
{
    let raised = if ttl > lo {
        ttl
    } else {
        lo
    };
    if raised < hi {
        raised
    } else {
        hi
    }
}

/// Clamps a section.
#[verifier::loop_isolation(false)]
fn clamp_ttls(ttls: &Vec<u32>, lo: u32, hi: u32) -> (r: Vec<u32>)
    ensures
        r@ == clamp_seq(ttls@, lo, hi),
{
    let mut out: Vec<u32> = Vec::new();
    let mut i: usize = 0;
    while i < ttls.len()
        invariant
            i <= ttls@.len(),
            out@ =~= clamp_seq(ttls@, lo, hi).take(i as int),
        decreases ttls@.len() - i,
    {
        out.push(clamp_ttl(ttls[i], lo, hi));
        i = i + 1;
    }
    proof {
        assert(clamp_seq(ttls@, lo, hi).take(ttls@.len() as int) =~= clamp_seq(ttls@, lo, hi));
        assert(out@ =~= clamp_seq(ttls@, lo, hi));
    }
    out
}

/// Threads the running minimum through a section.
#[verifier::loop_isolation(false)]
fn min_acc_exec(ttls: &Vec<u32>, acc: Option<u32>) -> (r: Option<u32>)
    ensures
        r == min_acc(ttls@, acc),
{
    let mut current = acc;
    let mut i: usize = 0;
    proof {
        assert(ttls@.skip(0) =~= ttls@);
    }
    while i < ttls.len()
        invariant
            i <= ttls@.len(),
            min_acc(ttls@, acc) == min_acc(ttls@.skip(i as int), current),
        decreases ttls@.len() - i,
    {
        let ghost before = ttls@.skip(i as int);
        let t = ttls[i];
        current = match current {
            None => Some(t),
            Some(v) => if t < v {
                Some(t)
            } else {
                Some(v)
            },
        };
        proof {
            assert(before[0] == ttls@[i as int]);
            assert(before.drop_first() =~= ttls@.skip(i as int + 1));
        }
        i = i + 1;
    }
    proof {
        assert(ttls@.skip(ttls@.len() as int) =~= Seq::<u32>::empty());
    }
    current
}

/// Subtracts the age from a section; refuses when any TTL is younger than the
/// age.
#[verifier::loop_isolation(false)]
fn decrement_ttls(ttls: &Vec<u32>, age: u64) -> (r: Option<Vec<u32>>)
    ensures
        r is Some <==> dec_ok(ttls@, age),
        r matches Some(v) ==> v@ == dec_seq(ttls@, age),
{
    let mut out: Vec<u32> = Vec::new();
    let mut i: usize = 0;
    while i < ttls.len()
        invariant
            i <= ttls@.len(),
            forall|j: int| 0 <= j < i ==> age <= #[trigger] ttls@[j],
            out@ =~= dec_seq(ttls@, age).take(i as int),
        decreases ttls@.len() - i,
    {
        let t = ttls[i];
        if age > t as u64 {
            return None;
        }
        out.push(t - age as u32);
        proof {
            assert(out@ =~= dec_seq(ttls@, age).take(i as int + 1));
        }
        i = i + 1;
    }
    proof {
        assert(dec_seq(ttls@, age).take(ttls@.len() as int) =~= dec_seq(ttls@, age));
    }
    Some(out)
}

/// What the first stage decides: a finished reply, or what to ask upstream.
pub enum MessageStage {
    Respond(Message),
    AskUpstream { request_key: RequestKey, upstream_body: Vec<u8> },
}

/// What the first stage decides, at the wire level. `NoReply` drops the
/// request silently.
pub enum PacketOutcome {
    NoReply,
    Reply(Vec<u8>),
    AskUpstream { request: Message, request_key: RequestKey, upstream_body: Vec<u8> },
}

/// Why the proxy could not be built.
#[derive(Clone, Copy, Debug, PartialEq, Eq)]
pub enum ProxyError {
    /// The configuration breaks an invariant: a zero cache size or gate
    /// width, or a clamp window that is empty or starts at zero.
    InvalidConfiguration,
    /// A local zone entry's name or address does not parse.
    InvalidLocalEntry,
}

/// The proxy: the local zone, the response cache, the upstream admission
/// gate and the counters, all behind one owner.
pub struct DOHProxy {
    configuration: Configuration,
    local_domain_cache: LocalDomainCache,
    cache: Cache,
    gate: UpstreamGate,
    metrics: Metrics,
}

impl DOHProxy {
    /// Every component's invariant, and the configured bounds tied to the
    /// cache's capacity and the admission bound.
    pub closed spec fn wf(&self) -> bool {
        &&& self.configuration.wf()
        &&& self.local_domain_cache.wf()
        &&& self.cache.wf()
        &&& self.gate.wf()
        &&& self.metrics.wf()
        &&& self.cache.spec_max_size() == self.configuration.cache_configuration.max_size
        &&& self.cache.spec_max_purges_per_tick()
            == self.configuration.cache_configuration.max_purges_per_timer_pop
        &&& self.gate.spec_max_outstanding()
            == self.configuration.client_configuration.max_outstanding_requests
        &&& crate::localdomain::zone_models_wire_safe(self.spec_zone())
        &&& cache_models_bounded(self.spec_cache())
    }

    pub closed spec fn spec_configuration(&self) -> Configuration {
        self.configuration
    }

    pub closed spec fn spec_cache(&self) -> Seq<CacheEntry> {
        self.cache@
    }

    pub closed spec fn spec_zone(&self) -> Seq<(Seq<QueryTuple>, MsgModel)> {
        self.local_domain_cache@
    }

    pub closed spec fn spec_metrics(&self) -> Metrics {
        self.metrics
    }

    pub closed spec fn spec_gate_outstanding(&self) -> int {
        self.gate.spec_outstanding()
    }

    pub closed spec fn spec_clamp_min(&self) -> u32 {
        self.configuration.proxy_configuration.clamp_min_ttl_seconds
    }

    pub closed spec fn spec_clamp_max(&self) -> u32 {
        self.configuration.proxy_configuration.clamp_max_ttl_seconds
    }

    /// Builds the proxy from a configuration document: checks the document's
    /// invariants, synthesizes the local zone, and starts with an empty cache,
    /// an idle gate and zeroed counters.
    pub fn new(configuration: Configuration) -> (r: Result<DOHProxy, ProxyError>)
        ensures
            r matches Ok(p) ==> p.spec_configuration() == configuration,
            r matches Ok(p) ==> p.wf() && p.spec_cache() =~= Seq::<CacheEntry>::empty()
                && p.spec_gate_outstanding() == 0 && (forall|t: CounterMetricType|
                p.spec_metrics().spec_value(t) == 0) && p.spec_zone()
                == crate::localdomain::full_zone(
                configuration.forward_domain_configurations@,
                configuration.reverse_domain_configurations@,
                configuration.reverse_domain_configurations@.len() as int,
            ),
            r is Ok <==> configuration.wf() && (forall|i: int|
                0 <= i < configuration.forward_domain_configurations@.len()
                    ==> crate::localdomain::forward_entry_ok(
                    #[trigger] configuration.forward_domain_configurations@[i],
                )) && (forall|j: int|
                0 <= j < configuration.reverse_domain_configurations@.len()
                    ==> crate::localdomain::reverse_entry_ok(
                    #[trigger] configuration.reverse_domain_configurations@[j],
                )),
            r matches Err(e) ==> (e == ProxyError::InvalidConfiguration <==> !configuration.wf()),
    {
        if !configuration.validate() {
            return Err(ProxyError::InvalidConfiguration);
        }
        let local_domain_cache = match LocalDomainCache::new(
            &configuration.forward_domain_configurations,
            &configuration.reverse_domain_configurations,
        ) {
            Err(LocalZoneError::InvalidLocalEntry) => {
                return Err(ProxyError::InvalidLocalEntry);
            },
            Ok(z) => z,
        };
        proof {
            crate::localdomain::lemma_full_zone_wire_safe(
                configuration.forward_domain_configurations@,
                configuration.reverse_domain_configurations@,
                configuration.reverse_domain_configurations@.len() as int,
            );
        }
        let cache = Cache::new(configuration.cache_configuration);
        let gate = UpstreamGate::new(&configuration.client_configuration);
        let metrics = Metrics::new();
        Ok(DOHProxy { configuration, local_domain_cache, cache, gate, metrics })
    }

    /// The request cloned into a `ServFail` response; id, question and
    /// records are kept.
    pub fn build_failure_response_message(&self, request: &Message) -> (r: Message)
        ensures
            msg_model(r) == servfail_model(msg_model(*request)),
    {
        let mut response_message = msg_clone(request);
        msg_set_message_type_response(&mut response_message);
        msg_set_response_code_servfail(&mut response_message);
        response_message
    }

    /// The `ServFail` reply on the wire; `None` exactly when the request — and
    /// hence its `ServFail` twin — cannot be encoded.
    pub fn build_failure_response_buffer(&self, request: &Message) -> (r: Option<Vec<u8>>)
        requires
            crate::dns::msg_sections_bounded_of(*request),
        ensures
            r is Some <==> msg_model(*request).encodable,
            r matches Some(buffer) ==> reply_is(buffer@, servfail_model(msg_model(*request))),
    {
        let response_message = self.build_failure_response_message(request);
        match encode_dns_message(&response_message) {
            Err(_) => None,
            Ok(buffer) => {
                proof {
                    assert(msg_model(response_message) == servfail_model(msg_model(*request))
                        && buffer@ == msg_wire_of(response_message));
                }
                Some(buffer)
            },
        }
    }

    /// A local-zone answer, under the live request's id.
    pub fn get_message_for_local_domain(&self, request_key: &RequestKey, request_id: u16) -> (r:
        Option<Message>)
        requires
            self.wf(),
        ensures
            r is Some <==> has_key(self.spec_zone(), request_key@),
            r matches Some(m) ==> msg_model(m) == with_id(
                self.spec_zone()[key_index(self.spec_zone(), request_key@)].1,
                request_id,
            ),
    {
        let mut response_message = match self.local_domain_cache.get_response_message(request_key) {
            None => {
                return None;
            },
            Some(m) => m,
        };
        msg_set_id(&mut response_message, request_id);
        Some(response_message)
    }

    /// A cache answer: only a present, unexpired entry whose every record TTL
    /// covers its age; the TTLs are decremented by the age and the id set.
    /// The lookup promotes the entry whether or not it can answer.
    pub fn get_message_for_cache_hit(&mut self, request_key: &RequestKey, request_id: u16, now: u64) -> (r: Option<Message>)
        requires
            old(self).wf(),
        ensures
            final(self).wf(),
            final(self).spec_cache() == spec_promote(old(self).spec_cache(), request_key@),
            final(self).spec_zone() == old(self).spec_zone(),
            final(self).spec_metrics() == old(self).spec_metrics(),
            final(self).spec_gate_outstanding() == old(self).spec_gate_outstanding(),
            final(self).spec_configuration() == old(self).spec_configuration(),
            r is Some <==> fresh_hit(old(self).spec_cache(), request_key@, now),
            r matches Some(m) ==> msg_model(m) == hit_model(
                old(self).spec_cache(),
                request_key@,
                now,
                request_id,
            ),
    {
        let got = self.cache.get(request_key);
        proof {
            lemma_promote_models_bounded(old(self).spec_cache(), request_key@);
        }
        let cache_object = match got {
            None => {
                return None;
            },
            Some(o) => o,
        };
        if cache_object.expired(now) {
            return None;
        }
        let entered = cache_object.cache_time_value();
        if now < entered {
            return None;
        }
        let age = now - entered;
        let mut response_message = cache_object.message();
        let answer_ttls = msg_answer_ttls(&response_message);
        let name_server_ttls = msg_name_server_ttls(&response_message);
        let additional_ttls = msg_additional_ttls(&response_message);
        let new_answer_ttls = match decrement_ttls(&answer_ttls, age) {
            None => {
                proof {
                    lemma_dec_ok_concat_split(
                        answer_ttls@,
                        name_server_ttls@,
                        additional_ttls@,
                        age,
                    );
                }
                return None;
            },
            Some(v) => v,
        };
        let new_name_server_ttls = match decrement_ttls(&name_server_ttls, age) {
            None => {
                proof {
                    lemma_dec_ok_concat_split(
                        answer_ttls@,
                        name_server_ttls@,
                        additional_ttls@,
                        age,
                    );
                }
                return None;
            },
            Some(v) => v,
        };
        let new_additional_ttls = match decrement_ttls(&additional_ttls, age) {
            None => {
                proof {
                    lemma_dec_ok_concat_split(
                        answer_ttls@,
                        name_server_ttls@,
                        additional_ttls@,
                        age,
                    );
                }
                return None;
            },
            Some(v) => v,
        };
        proof {
            lemma_dec_ok_concat_split(answer_ttls@, name_server_ttls@, additional_ttls@, age);
        }
        msg_set_answer_ttls(&mut response_message, &new_answer_ttls);
        msg_set_name_server_ttls(&mut response_message, &new_name_server_ttls);
        msg_set_additional_ttls(&mut response_message, &new_additional_ttls);
        msg_set_id(&mut response_message, request_id);
        Some(response_message)
    }

    /// Clamps every record TTL into the configured window and reports the
    /// smallest clamped TTL — the clamp floor when the message has no records.
    fn clamp_and_get_min_ttl(&self, response_message: Message) -> (r: (u32, Message))
        requires
            self.wf(),
        ensures
            msg_model(r.1) == clamped_model(
                msg_model(response_message),
                self.spec_clamp_min(),
                self.spec_clamp_max(),
            ),
            r.0 == min_clamped_ttl(
                msg_model(response_message),
                self.spec_clamp_min(),
                self.spec_clamp_max(),
            ),
    {
        let lo = self.configuration.proxy_configuration.clamp_min_ttl_seconds;
        let hi = self.configuration.proxy_configuration.clamp_max_ttl_seconds;
        let mut response_message = response_message;
        let ghost m0 = msg_model(response_message);
        let answer_ttls = msg_answer_ttls(&response_message);
        let name_server_ttls = msg_name_server_ttls(&response_message);
        let additional_ttls = msg_additional_ttls(&response_message);
        let new_answer_ttls = clamp_ttls(&answer_ttls, lo, hi);
        let new_name_server_ttls = clamp_ttls(&name_server_ttls, lo, hi);
        let new_additional_ttls = clamp_ttls(&additional_ttls, lo, hi);
        msg_set_answer_ttls(&mut response_message, &new_answer_ttls);
        msg_set_name_server_ttls(&mut response_message, &new_name_server_ttls);
        msg_set_additional_ttls(&mut response_message, &new_additional_ttls);
        let acc = min_acc_exec(&new_answer_ttls, None);
        let acc = min_acc_exec(&new_name_server_ttls, acc);
        let acc = min_acc_exec(&new_additional_ttls, acc);
        let min_ttl = match acc {
            None => lo,
            Some(v) => v,
        };
        proof {
            lemma_clamp_seq_concat(m0.answer_ttls + m0.name_server_ttls, m0.additional_ttls, lo, hi);
            lemma_clamp_seq_concat(m0.answer_ttls, m0.name_server_ttls, lo, hi);
            lemma_min_acc_concat(
                clamp_seq(m0.answer_ttls, lo, hi) + clamp_seq(m0.name_server_ttls, lo, hi),
                clamp_seq(m0.additional_ttls, lo, hi),
                None,
            );
            lemma_min_acc_concat(
                clamp_seq(m0.answer_ttls, lo, hi),
                clamp_seq(m0.name_server_ttls, lo, hi),
                None,
            );
            assert(clamp_seq(all_ttls(m0), lo, hi) =~= (clamp_seq(m0.answer_ttls, lo, hi)
                + clamp_seq(m0.name_server_ttls, lo, hi)) + clamp_seq(
                m0.additional_ttls,
                lo,
                hi,
            ));
        }
        (min_ttl, response_message)
    }

    /// Clamps a cacheable response and files it: `NoError` and `NXDomain`
    /// replies whose smallest clamped TTL is positive are stored with id 0,
    /// to live exactly that many seconds; everything else passes through
    /// untouched.
    pub fn clamp_ttl_and_cache_response(&mut self, request_key: RequestKey, response_message: Message, now: u64) -> (r: Message)
        requires
            old(self).wf(),
            now_in_range(now),
            crate::dns::msg_sections_bounded_of(response_message),
        ensures
            final(self).wf(),
            final(self).spec_zone() == old(self).spec_zone(),
            final(self).spec_metrics() == old(self).spec_metrics(),
            final(self).spec_gate_outstanding() == old(self).spec_gate_outstanding(),
            final(self).spec_configuration() == old(self).spec_configuration(),
            !cacheable_rcode(msg_model(response_message)) ==> msg_model(r) == msg_model(
                response_message,
            ) && final(self).spec_cache() == old(self).spec_cache(),
            cacheable_rcode(msg_model(response_message)) ==> msg_model(r) == clamped_model(
                msg_model(response_message),
                old(self).spec_clamp_min(),
                old(self).spec_clamp_max(),
            ),
            cacheable_rcode(msg_model(response_message)) && min_clamped_ttl(
                msg_model(response_message),
                old(self).spec_clamp_min(),
                old(self).spec_clamp_max(),
            ) == 0 ==> final(self).spec_cache() == old(self).spec_cache(),
            cacheable_rcode(msg_model(response_message)) && min_clamped_ttl(
                msg_model(response_message),
                old(self).spec_clamp_min(),
                old(self).spec_clamp_max(),
            ) > 0 ==> final(self).spec_cache() == spec_put(
                old(self).spec_cache(),
                request_key@,
                cached_object_model(
                    msg_model(response_message),
                    old(self).spec_clamp_min(),
                    old(self).spec_clamp_max(),
                    now,
                ),
                old(self).cache_max_size(),
            ),
    {
        let rcode = msg_response_code(&response_message);
        if !(rcode == 0 || rcode == 3) {
            return response_message;
        }
        let (min_ttl, response_message) = self.clamp_and_get_min_ttl(response_message);
        if min_ttl == 0 {
            return response_message;
        }
        let mut stored = msg_clone(&response_message);
        msg_set_id(&mut stored, 0);
        let cache_object = CacheObject::new(stored, now, min_ttl as u64);
        proof {
            lemma_put_models_bounded(
                old(self).spec_cache(),
                request_key@,
                cache_object@,
                old(self).cache_max_size(),
            );
        }
        self.cache.put(request_key, cache_object);
        response_message
    }

    pub closed spec fn cache_max_size(&self) -> int {
        self.configuration.cache_configuration.max_size as int
    }

    /// Decides a request up to the upstream call: answers from the local zone
    /// or the cache, counts the lookup, and otherwise hands back the key and
    /// the encoded id-zero question to POST. A request without queries gets a
    /// `ServFail` answer.
    pub fn process_request_message(&mut self, request_message: &Message, now: u64) -> (r: MessageStage)
        requires
            old(self).wf(),
            crate::dns::msg_sections_bounded_of(*request_message),
        ensures
            final(self).wf(),
            final(self).spec_zone() == old(self).spec_zone(),
            final(self).spec_gate_outstanding() == old(self).spec_gate_outstanding(),
            final(self).spec_configuration() == old(self).spec_configuration(),
            process_pre_spec(old(self), final(self), msg_model(*request_message), now, r),
    {
        let queries = msg_queries(request_message);
        let request_key = match RequestKey::from_queries(&queries) {
            Err(_) => {
                return MessageStage::Respond(self.build_failure_response_message(request_message));
            },
            Ok(k) => k,
        };
        let request_id = msg_id(request_message);
        if let Some(response_message) = self.get_message_for_local_domain(&request_key, request_id) {
            self.metrics.increment(CounterMetricType::LocalRequests);
            return MessageStage::Respond(response_message);
        }
        if let Some(response_message) = self.get_message_for_cache_hit(&request_key, request_id, now) {
            self.metrics.increment(CounterMetricType::CacheHits);
            return MessageStage::Respond(response_message);
        }
        self.metrics.increment(CounterMetricType::CacheMisses);
        let mut upstream_message = msg_clone(request_message);
        msg_set_id(&mut upstream_message, 0);
        match encode_dns_message(&upstream_message) {
            Err(_) => MessageStage::Respond(self.build_failure_response_message(request_message)),
            Ok(upstream_body) => MessageStage::AskUpstream { request_key, upstream_body },
        }
    }

    /// Finishes a request with the upstream outcome: failures and undecodable
    /// replies become `ServFail` (shed load is not counted as an upstream
    /// error); a decoded reply is clamped, cached and given the live id.
    pub fn process_upstream_outcome(&mut self, request_message: &Message, request_key: RequestKey, upstream_result: Result<Vec<u8>, UpstreamError>, now: u64) -> (r: Message)
        requires
            old(self).wf(),
            now_in_range(now),
            crate::dns::msg_sections_bounded_of(*request_message),
        ensures
            final(self).wf(),
            crate::dns::msg_sections_bounded_of(r),
            final(self).spec_zone() == old(self).spec_zone(),
            final(self).spec_gate_outstanding() == old(self).spec_gate_outstanding(),
            final(self).spec_configuration() == old(self).spec_configuration(),
            process_post_spec(
                old(self),
                final(self),
                msg_model(*request_message),
                request_key@,
                upstream_result,
                now,
                msg_model(r),
            ),
    {
        let upstream_body = match upstream_result {
            Err(e) => {
                if e.counts_as_request_error() {
                    self.metrics.increment(CounterMetricType::DOHRequestErrors);
                }
                return self.build_failure_response_message(request_message);
            },
            Ok(b) => b,
        };
        let response_message = match decode_dns_message_vec(upstream_body) {
            Err(_) => {
                return self.build_failure_response_message(request_message);
            },
            Ok(m) => m,
        };
        let mut response_message = self.clamp_ttl_and_cache_response(
            request_key,
            response_message,
            now,
        );
        let request_id = msg_id(request_message);
        msg_set_id(&mut response_message, request_id);
        response_message
    }
}

impl DOHProxy {
    /// Decides a wire request up to the upstream call. An undecodable request
    /// is dropped silently; otherwise the first stage runs and its answer is
    /// encoded, falling back to the `ServFail` buffer — or to silence — when
    /// encoding fails.
    pub fn process_request_packet_buffer(&mut self, request_buffer: &Vec<u8>, now: u64) -> (r: PacketOutcome)
        requires
            old(self).wf(),
        ensures
            final(self).wf(),
            final(self).spec_zone() == old(self).spec_zone(),
            final(self).spec_gate_outstanding() == old(self).spec_gate_outstanding(),
            final(self).spec_configuration() == old(self).spec_configuration(),
            !wire_ok(request_buffer@) ==> r is NoReply && final(self).spec_cache() == old(self).spec_cache() && final(self).spec_metrics() == old(self).spec_metrics(),
            wire_ok(request_buffer@) ==> packet_pre_spec(old(self), final(self), decoded_model_of(request_buffer@), now, r),
            r matches PacketOutcome::AskUpstream { request, request_key, upstream_body } ==> (wire_ok(request_buffer@) && msg_model(request) == decoded_model_of(request_buffer@) && crate::dns::msg_sections_bounded_of(request)),
    {
        let request_message = match crate::dns::decode_dns_message_slice(
            request_buffer.as_slice(),
        ) {
            Err(_) => {
                return PacketOutcome::NoReply;
            },
            Ok(m) => m,
        };
        match self.process_request_message(&request_message, now) {
            MessageStage::Respond(response_message) => {
                match encode_dns_message(&response_message) {
                    Ok(buffer) => PacketOutcome::Reply(buffer),
                    Err(_) => match self.build_failure_response_buffer(&request_message) {
                        Some(buffer) => PacketOutcome::Reply(buffer),
                        None => PacketOutcome::NoReply,
                    },
                }
            },
            MessageStage::AskUpstream { request_key, upstream_body } => {
                PacketOutcome::AskUpstream { request: request_message, request_key, upstream_body }
            },
        }
    }

    /// Finishes a wire request with the upstream outcome: the second stage
    /// runs and its reply is encoded, falling back to the `ServFail` buffer —
    /// or to silence — when encoding fails.
    pub fn complete_request_packet_buffer(&mut self, request_message: &Message, request_key: RequestKey, upstream_result: Result<Vec<u8>, UpstreamError>, now: u64) -> (r: Option<Vec<u8>>)
        requires
            old(self).wf(),
            now_in_range(now),
            crate::dns::msg_sections_bounded_of(*request_message),
        ensures
            final(self).wf(),
            final(self).spec_zone() == old(self).spec_zone(),
            final(self).spec_gate_outstanding() == old(self).spec_gate_outstanding(),
            final(self).spec_configuration() == old(self).spec_configuration(),
            process_post_spec(old(self), final(self), msg_model(*request_message), request_key@, upstream_result, now, post_reply_model(msg_model(*request_message), upstream_result, old(self).spec_clamp_min(), old(self).spec_clamp_max())),
            packet_reply_option(r, post_reply_model(msg_model(*request_message), upstream_result, old(self).spec_clamp_min(), old(self).spec_clamp_max()), msg_model(*request_message)),
    {
        let response_message = self.process_upstream_outcome(
            request_message,
            request_key,
            upstream_result,
            now,
        );
        match encode_dns_message(&response_message) {
            Ok(buffer) => Some(buffer),
            Err(_) => self.build_failure_response_buffer(request_message),
        }
    }

    /// Takes an upstream slot if one is free; refuses without waiting. The
    /// number of slots out at once never exceeds the configured bound.
    pub fn try_acquire_upstream_slot(&mut self) -> (r: bool)
        requires
            old(self).wf(),
        ensures
            final(self).wf(),
            final(self).spec_cache() == old(self).spec_cache(),
            final(self).spec_zone() == old(self).spec_zone(),
            final(self).spec_metrics() == old(self).spec_metrics(),
            final(self).spec_configuration() == old(self).spec_configuration(),
            r == (old(self).spec_gate_outstanding() < old(self).spec_configuration().client_configuration.max_outstanding_requests),
            r ==> final(self).spec_gate_outstanding() == old(self).spec_gate_outstanding() + 1,
            !r ==> final(self).spec_gate_outstanding() == old(self).spec_gate_outstanding(),
    {
        self.gate.try_acquire()
    }

    /// Gives an upstream slot back; every exit path of an upstream exchange
    /// must do this exactly once for an acquired slot.
    pub fn release_upstream_slot(&mut self)
        requires
            old(self).wf(),
            old(self).spec_gate_outstanding() > 0,
        ensures
            final(self).wf(),
            final(self).spec_cache() == old(self).spec_cache(),
            final(self).spec_zone() == old(self).spec_zone(),
            final(self).spec_metrics() == old(self).spec_metrics(),
            final(self).spec_configuration() == old(self).spec_configuration(),
            final(self).spec_gate_outstanding() == old(self).spec_gate_outstanding() - 1,
    {
        self.gate.release()
    }

    /// Counts one UDP request.
    pub fn record_udp_request(&mut self)
        requires
            old(self).wf(),
        ensures
            final(self).wf(),
            final(self).spec_cache() == old(self).spec_cache(),
            final(self).spec_zone() == old(self).spec_zone(),
            final(self).spec_gate_outstanding() == old(self).spec_gate_outstanding(),
            final(self).spec_configuration() == old(self).spec_configuration(),
            metrics_incremented(
                old(self).spec_metrics(),
                final(self).spec_metrics(),
                CounterMetricType::UDPRequests,
            ),
    {
        self.metrics.increment(CounterMetricType::UDPRequests);
    }

    /// Counts one TCP request.
    pub fn record_tcp_request(&mut self)
        requires
            old(self).wf(),
        ensures
            final(self).wf(),
            final(self).spec_cache() == old(self).spec_cache(),
            final(self).spec_zone() == old(self).spec_zone(),
            final(self).spec_gate_outstanding() == old(self).spec_gate_outstanding(),
            final(self).spec_configuration() == old(self).spec_configuration(),
            metrics_incremented(
                old(self).spec_metrics(),
                final(self).spec_metrics(),
                CounterMetricType::TCPRequests,
            ),
    {
        self.metrics.increment(CounterMetricType::TCPRequests);
    }

    /// A copy of the counters.
    pub fn metrics_snapshot(&self) -> (r: Metrics)
        ensures
            r == self.spec_metrics(),
    {
        self.metrics
    }

    /// The counters' dump.
    pub fn all_metrics_string(&self) -> (r: String)
        requires
            self.wf(),
        ensures
            r@ == crate::metrics::metrics_dump_spec(self.spec_metrics()),
    {
        self.metrics.all_metrics_string()
    }

    /// How many entries the cache holds.
    pub fn cache_len(&self) -> (r: usize)
        ensures
            r == self.spec_cache().len(),
    {
        self.cache.len()
    }

    /// Pops expired entries off the cache's LRU end, up to the configured
    /// per-tick cap; returns the size after the purge and the number dropped.
    pub fn periodic_purge(&mut self, now: u64) -> (r: (usize, usize))
        requires
            old(self).wf(),
        ensures
            final(self).wf(),
            final(self).spec_zone() == old(self).spec_zone(),
            final(self).spec_metrics() == old(self).spec_metrics(),
            final(self).spec_gate_outstanding() == old(self).spec_gate_outstanding(),
            final(self).spec_configuration() == old(self).spec_configuration(),
            final(self).spec_cache() == old(self).spec_cache().skip(r.1 as int),
            r.0 == final(self).spec_cache().len(),
            r.1 <= old(self).spec_configuration().cache_configuration.max_purges_per_timer_pop,
            r.1 <= old(self).spec_cache().len(),
            forall|j: int| 0 <= j < r.1 ==> now > old(self).spec_cache()[j].1.expiration_time,
            r.1 == old(self).spec_configuration().cache_configuration.max_purges_per_timer_pop
                || final(self).spec_cache().len() == 0 || !(now > final(self).spec_cache()[0].1.expiration_time),
    {
        let r = self.cache.periodic_purge(now);
        proof {
            lemma_skip_models_bounded(old(self).spec_cache(), r.1 as int);
        }
        r
    }
}

/// What one upstream record in the cache holds: the clamped message under id
/// zero, entered at `now`, expiring after the smallest clamped TTL.
pub open spec fn cached_object_model(m: MsgModel, lo: u32, hi: u32, now: u64) -> CacheObjectModel {
    CacheObjectModel {
        message: with_id(clamped_model(m, lo, hi), 0u16),
        cache_time: now,
        expiration_time: (now + min_clamped_ttl(m, lo, hi)) as u64,
    }
}

/// The first stage's decision tree, over the request's model.
pub open spec fn process_pre_spec(pre: &DOHProxy, post: &DOHProxy, m: MsgModel, now: u64, r: MessageStage) -> bool {
    let k = request_key_spec(m.queries);
    if m.queries.len() == 0 {
        // no key: ServFail, nothing touched, nothing counted
        &&& r matches MessageStage::Respond(x) && msg_model(x) == servfail_model(m)
        &&& post.spec_cache() == pre.spec_cache()
        &&& post.spec_metrics() == pre.spec_metrics()
    } else if has_key(pre.spec_zone(), k) {
        // local zone answer under the live id; only local_requests moves
        &&& r matches MessageStage::Respond(x) && msg_model(x) == with_id(
            pre.spec_zone()[key_index(pre.spec_zone(), k)].1,
            m.id,
        )
        &&& post.spec_cache() == pre.spec_cache()
        &&& metrics_incremented(pre.spec_metrics(), post.spec_metrics(), CounterMetricType::LocalRequests)
    } else if fresh_hit(pre.spec_cache(), k, now) {
        // cache answer, decremented, promoted; only cache_hits moves
        &&& r matches MessageStage::Respond(x) && msg_model(x) == hit_model(
            pre.spec_cache(),
            k,
            now,
            m.id,
        )
        &&& post.spec_cache() == spec_promote(pre.spec_cache(), k)
        &&& metrics_incremented(pre.spec_metrics(), post.spec_metrics(), CounterMetricType::CacheHits)
    } else {
        // miss: the lookup still promotes; only cache_misses moves; when the
        // request re-encodes the upstream is asked with the id-zero question,
        // otherwise — and only then — the answer is ServFail
        &&& post.spec_cache() == spec_promote(pre.spec_cache(), k)
        &&& metrics_incremented(pre.spec_metrics(), post.spec_metrics(), CounterMetricType::CacheMisses)
        &&& if m.encodable {
            r matches MessageStage::AskUpstream { request_key, upstream_body } && request_key@
                == k && reply_is(upstream_body@, with_id(m, 0u16))
        } else {
            r matches MessageStage::Respond(x) && msg_model(x) == servfail_model(m)
        }
    }
}

/// A byte string that is the wire form of some message with the given model.
pub open spec fn reply_is(buffer: Seq<u8>, model: MsgModel) -> bool {
    exists|resp: Message| msg_model(resp) == model && buffer == #[trigger] msg_wire_of(resp)
}

/// The reply the second stage owes, as a function of the request's model, the
/// upstream outcome and the clamp window: `ServFail` on any upstream error or
/// undecodable reply; otherwise the decoded reply — clamped when its rcode
/// allows caching — under the live request's id.
pub open spec fn post_reply_model(m: MsgModel, upstream_result: Result<Vec<u8>, UpstreamError>, lo: u32, hi: u32) -> MsgModel {
    match upstream_result {
        Err(_) => servfail_model(m),
        Ok(bytes) => if !wire_ok(bytes@) {
            servfail_model(m)
        } else {
            let dm = decoded_model_of(bytes@);
            if !cacheable_rcode(dm) {
                with_id(dm, m.id)
            } else {
                with_id(clamped_model(dm, lo, hi), m.id)
            }
        },
    }
}

/// What the second stage does to the cache for one decoded reply: cacheable
/// rcode and a positive smallest clamped TTL file the entry; anything else
/// leaves the cache alone.
pub open spec fn upstream_cache_spec(pre: &DOHProxy, post: &DOHProxy, k: Seq<QueryTuple>, dm: MsgModel, now: u64) -> bool {
    let lo = pre.spec_clamp_min();
    let hi = pre.spec_clamp_max();
    if cacheable_rcode(dm) && min_clamped_ttl(dm, lo, hi) > 0 {
        post.spec_cache() == spec_put(
            pre.spec_cache(),
            k,
            cached_object_model(dm, lo, hi, now),
            pre.cache_max_size(),
        )
    } else {
        post.spec_cache() == pre.spec_cache()
    }
}

/// A finished wire reply: the chosen answer's bytes when it encodes, the
/// request's `ServFail` when only that does, silence when neither encodes.
pub open spec fn packet_reply(r: PacketOutcome, rm: MsgModel, dm: MsgModel) -> bool {
    if rm.encodable {
        r matches PacketOutcome::Reply(b) && reply_is(b@, rm)
    } else if dm.encodable {
        r matches PacketOutcome::Reply(b) && reply_is(b@, servfail_model(dm))
    } else {
        r is NoReply
    }
}

/// As `packet_reply`, for the second stage's optional reply buffer.
pub open spec fn packet_reply_option(r: Option<Vec<u8>>, rm: MsgModel, m: MsgModel) -> bool {
    if rm.encodable {
        r matches Some(b) && reply_is(b@, rm)
    } else if m.encodable {
        r matches Some(b) && reply_is(b@, servfail_model(m))
    } else {
        r is None
    }
}

/// The first stage's decision tree at the wire level, over the decoded
/// request's model: who answers, which counter moves, how the cache changes,
/// and the exact reply bytes — the `ServFail` fallback exactly when the
/// chosen answer cannot be encoded, silence exactly when the `ServFail`
/// cannot either.
pub open spec fn packet_pre_spec(pre: &DOHProxy, post: &DOHProxy, dm: MsgModel, now: u64, r: PacketOutcome) -> bool {
    let k = request_key_spec(dm.queries);
    if dm.queries.len() == 0 {
        &&& post.spec_cache() == pre.spec_cache()
        &&& post.spec_metrics() == pre.spec_metrics()
        &&& packet_reply(r, servfail_model(dm), dm)
    } else if has_key(pre.spec_zone(), k) {
        &&& post.spec_cache() == pre.spec_cache()
        &&& metrics_incremented(pre.spec_metrics(), post.spec_metrics(), CounterMetricType::LocalRequests)
        &&& packet_reply(r, with_id(pre.spec_zone()[key_index(pre.spec_zone(), k)].1, dm.id), dm)
    } else if fresh_hit(pre.spec_cache(), k, now) {
        &&& post.spec_cache() == spec_promote(pre.spec_cache(), k)
        &&& metrics_incremented(pre.spec_metrics(), post.spec_metrics(), CounterMetricType::CacheHits)
        &&& packet_reply(r, hit_model(pre.spec_cache(), k, now, dm.id), dm)
    } else {
        &&& post.spec_cache() == spec_promote(pre.spec_cache(), k)
        &&& metrics_incremented(pre.spec_metrics(), post.spec_metrics(), CounterMetricType::CacheMisses)
        &&& if dm.encodable {
            r matches PacketOutcome::AskUpstream { request, request_key, upstream_body }
                && msg_model(request) == dm && request_key@ == k && reply_is(
                upstream_body@,
                with_id(dm, 0u16),
            )
        } else {
            r is NoReply
        }
    }
}

/// The second stage's decision tree: the reply's model is a function of the
/// request, the upstream outcome and the clamp window; the cache takes the
/// decoded reply exactly when its rcode and clamped TTL allow; and only a
/// counted upstream error moves the error counter.
pub open spec fn process_post_spec(pre: &DOHProxy, post: &DOHProxy, m: MsgModel, k: Seq<QueryTuple>, upstream_result: Result<Vec<u8>, UpstreamError>, now: u64, rm: MsgModel) -> bool {
    &&& rm == post_reply_model(m, upstream_result, pre.spec_clamp_min(), pre.spec_clamp_max())
    &&& match upstream_result {
        Err(e) => {
            // shed load is not an upstream error
            &&& post.spec_cache() == pre.spec_cache()
            &&& (e != UpstreamError::TooManyOutstanding ==> metrics_incremented(
                pre.spec_metrics(),
                post.spec_metrics(),
                CounterMetricType::DOHRequestErrors,
            ))
            &&& (e == UpstreamError::TooManyOutstanding ==> post.spec_metrics()
                == pre.spec_metrics())
        },
        Ok(bytes) => {
            &&& post.spec_metrics() == pre.spec_metrics()
            &&& (!wire_ok(bytes@) ==> post.spec_cache() == pre.spec_cache())
            &&& (wire_ok(bytes@) ==> upstream_cache_spec(
                pre,
                post,
                k,
                decoded_model_of(bytes@),
                now,
            ))
        },
    }
}

/// One counter moved by one; the rest stand still.
pub open spec fn metrics_incremented(pre: Metrics, post: Metrics, t: CounterMetricType) -> bool {
    &&& post.spec_value(t) == (if pre.spec_value(t) == u64::MAX {
        0u64
    } else {
        (pre.spec_value(t) + 1) as u64
    })
    &&& forall|u: CounterMetricType| u != t ==> post.spec_value(u) == pre.spec_value(u)
}

/// Age covers every TTL of the concatenation exactly when it covers every
/// TTL of each part.
proof fn lemma_dec_ok_concat_split(a: Seq<u32>, b: Seq<u32>, c: Seq<u32>, age: u64)
    ensures
        dec_ok(a + b + c, age) == (dec_ok(a, age) && dec_ok(b, age) && dec_ok(c, age)),
{
    if dec_ok(a, age) && dec_ok(b, age) && dec_ok(c, age) {
        assert forall|i: int| 0 <= i < (a + b + c).len() implies age <= #[trigger] (a + b + c)[i] by {
            if i < a.len() {
                assert((a + b + c)[i] == a[i]);
            } else if i < a.len() + b.len() {
                assert((a + b + c)[i] == b[i - a.len()]);
            } else {
                assert((a + b + c)[i] == c[i - a.len() - b.len()]);
            }
        }
    }
    if dec_ok(a + b + c, age) {
        assert forall|i: int| 0 <= i < a.len() implies age <= #[trigger] a[i] by {
            assert((a + b + c)[i] == a[i]);
        }
        assert forall|i: int| 0 <= i < b.len() implies age <= #[trigger] b[i] by {
            assert((a + b + c)[a.len() + i] == b[i]);
        }
        assert forall|i: int| 0 <= i < c.len() implies age <= #[trigger] c[i] by {
            assert((a + b + c)[a.len() + b.len() + i] == c[i]);
        }
    }
}

/// Every record TTL that the cache stores sits inside the clamp window.
pub proof fn lemma_cached_ttls_in_clamp_window(m: MsgModel, lo: u32, hi: u32, now: u64)
    requires
        lo <= hi,
    ensures
        forall|i: int|
            0 <= i < all_ttls(cached_object_model(m, lo, hi, now).message).len() ==> lo
                <= #[trigger] all_ttls(cached_object_model(m, lo, hi, now).message)[i] <= hi,
{
    let stored = all_ttls(cached_object_model(m, lo, hi, now).message);
    lemma_clamped_ttls_in_range(m.answer_ttls, lo, hi);
    lemma_clamped_ttls_in_range(m.name_server_ttls, lo, hi);
    lemma_clamped_ttls_in_range(m.additional_ttls, lo, hi);
    let a = clamp_seq(m.answer_ttls, lo, hi);
    let b = clamp_seq(m.name_server_ttls, lo, hi);
    let c = clamp_seq(m.additional_ttls, lo, hi);
    assert forall|i: int| 0 <= i < stored.len() implies lo <= #[trigger] stored[i] <= hi by {
        if i < a.len() {
            assert(stored[i] == a[i]);
        } else if i < a.len() + b.len() {
            assert(stored[i] == b[i - a.len()]);
        } else {
            assert(stored[i] == c[i - a.len() - b.len()]);
        }
    }
}

/// A cache hit's reply TTLs never exceed the stored — originally clamped —
/// TTLs, and never go negative.
pub proof fn lemma_hit_ttls_bounded(c: Seq<CacheEntry>, k: Seq<QueryTuple>, now: u64, id: u16)
    requires
        fresh_hit(c, k, now),
    ensures
        all_ttls(hit_model(c, k, now, id)).len() == all_ttls(
            spec_get(c, k)->Some_0.message,
        ).len(),
        forall|i: int|
            0 <= i < all_ttls(hit_model(c, k, now, id)).len() ==> 0 <= #[trigger] all_ttls(
                hit_model(c, k, now, id),
            )[i] <= all_ttls(spec_get(c, k)->Some_0.message)[i],
{
    let o = spec_get(c, k)->Some_0;
    let age = (now - o.cache_time) as u64;
    let replied = all_ttls(hit_model(c, k, now, id));
    let stored = all_ttls(o.message);
    let a = o.message.answer_ttls;
    let b = o.message.name_server_ttls;
    let d = o.message.additional_ttls;
    assert forall|i: int| 0 <= i < replied.len() implies 0 <= #[trigger] replied[i]
        <= stored[i] by {
        if i < a.len() {
            assert(stored[i] == a[i]);
            assert(replied[i] == dec_seq(a, age)[i]);
        } else if i < a.len() + b.len() {
            assert(stored[i] == b[i - a.len()]);
            assert(replied[i] == dec_seq(b, age)[i - a.len()]);
        } else {
            assert(stored[i] == d[i - a.len() - b.len()]);
            assert(replied[i] == dec_seq(d, age)[i - a.len() - b.len()]);
        }
    }
}

/// End to end: a fresh hit on an entry the pipeline cached never serves a
/// record past its clamped TTL — every replied TTL sits in `[0, clamp_max]`
/// and under the stored, originally clamped, TTL at its position.
pub proof fn lemma_hit_ttls_within_clamp_window(c: Seq<CacheEntry>, k: Seq<QueryTuple>, m: MsgModel, lo: u32, hi: u32, now: u64, now2: u64, id: u16, max: int)
    requires
        lo <= hi,
        crate::cache::unique_keys(c),
        c.len() <= max,
        0 < max,
        fresh_hit(spec_put(c, k, cached_object_model(m, lo, hi, now), max), k, now2),
    ensures
        ({
            let stored = spec_put(c, k, cached_object_model(m, lo, hi, now), max);
            let replied = all_ttls(hit_model(stored, k, now2, id));
            forall|i: int|
                0 <= i < replied.len() ==> 0 <= #[trigger] replied[i] && replied[i] <= hi
        }),
{
    let obj = cached_object_model(m, lo, hi, now);
    let stored = spec_put(c, k, obj, max);
    crate::cache::lemma_put_then_get(c, k, obj, max);
    lemma_hit_ttls_bounded(stored, k, now2, id);
    lemma_cached_ttls_in_clamp_window(m, lo, hi, now);
    let replied = all_ttls(hit_model(stored, k, now2, id));
    let kept = all_ttls(obj.message);
    assert forall|i: int| 0 <= i < replied.len() implies 0 <= #[trigger] replied[i] && replied[i]
        <= hi by {
        assert(replied[i] <= kept[i]);
        assert(kept[i] <= hi);
    }
}

/// A response just cached answers the next identical query from the cache,
/// under that query's own transaction id.
pub proof fn lemma_second_query_hits_cache(c: Seq<CacheEntry>, k: Seq<QueryTuple>, o: CacheObjectModel, max: int, now: u64, id: u16)
    requires
        crate::cache::unique_keys(c),
        c.len() <= max,
        0 < max,
        o.cache_time <= now <= o.expiration_time,
        dec_ok(all_ttls(o.message), (now - o.cache_time) as u64),
    ensures
        fresh_hit(spec_put(c, k, o, max), k, now),
        hit_model(spec_put(c, k, o, max), k, now, id).id == id,
{
    crate::cache::lemma_put_then_get(c, k, o, max);
}

} // verus!
