//! The local zone: statically answered queries, built once from the
//! configured forward (name to IPv4 address) and reverse (arpa name to
//! target name) entries.
//!
//! Each entry is synthesized into a complete authoritative response and filed
//! under the canonical key of its one query. The dotted-quad address text is
//! parsed here, with the parse pinned down exactly: it succeeds precisely on
//! the canonical decimal rendering of four octets.

use vstd::prelude::*;

use trust_dns_proto::op::Message;

use crate::cache::{
    has_key, key_index, lemma_append_new_preserves_unique, lemma_key_index_agrees,
    lemma_replace_preserves_unique, unique_keys,
};
use crate::config::{ForwardDomainConfiguration, ReverseDomainConfiguration};
use crate::dns::{
    build_a_response, build_ptr_response, dns_name_ok, dns_name_text, local_response_model,
    msg_clone, msg_model, MsgModel, QueryTuple,
};
use crate::request_key::{request_key_spec, RequestKey};

verus! {

/// Construction failure: an entry's name or address cannot be parsed.
#[derive(Clone, Copy, Debug, PartialEq, Eq)]
pub enum LocalZoneError {
    InvalidLocalEntry,
}

/// The canonical decimal rendering of a number: most significant digit first,
/// no leading zeros, in ASCII bytes.
pub open spec fn dec_bytes(n: nat) -> Seq<u8>
    decreases n,
{
    if n < 10 {
        seq![(48 + n) as u8]
    } else {
        dec_bytes(n / 10).push((48 + n % 10) as u8)
    }
}

/// The dotted-quad text of an IPv4 address.
pub open spec fn ipv4_text(a: u8, b: u8, c: u8, d: u8) -> Seq<u8> {
    dec_bytes(a as nat) + seq![46u8] + dec_bytes(b as nat) + seq![46u8] + dec_bytes(c as nat)
        + seq![46u8] + dec_bytes(d as nat)
}

/// The shape of a rendered octet: one to three digit bytes, no leading zero,
/// and the exact digits in terms of the value.
proof fn lemma_dec_bytes_octet(v: nat)
    requires
        v < 1000,
    ensures
        1 <= dec_bytes(v).len() <= 3,
        forall|i: int| 0 <= i < dec_bytes(v).len() ==> 48 <= #[trigger] dec_bytes(v)[i] <= 57,
        (dec_bytes(v).len() == 1) == (v < 10),
        (dec_bytes(v).len() == 2) == (10 <= v < 100),
        (dec_bytes(v).len() == 3) == (100 <= v),
        v >= 10 ==> dec_bytes(v)[0] != 48,
        v < 10 ==> dec_bytes(v) =~= seq![(48 + v) as u8],
        10 <= v < 100 ==> dec_bytes(v) =~= seq![(48 + v / 10) as u8, (48 + v % 10) as u8],
        100 <= v ==> dec_bytes(v) =~= seq![
            (48 + v / 100) as u8,
            (48 + (v / 10) % 10) as u8,
            (48 + v % 10) as u8,
        ],
    decreases v,
{
    if v >= 10 {
        lemma_dec_bytes_octet(v / 10);
        assert(dec_bytes(v) == dec_bytes(v / 10).push((48 + v % 10) as u8));
        if v >= 100 {
            assert((v / 10) / 10 == v / 100) by (nonlinear_arith)
                requires v < 1000,
            ;
            assert(10 <= v / 10 < 100);
        } else {
            assert(1 <= v / 10 < 10);
        }
        assert forall|i: int| 0 <= i < dec_bytes(v).len() implies 48 <= #[trigger] dec_bytes(
            v,
        )[i] <= 57 by {
            if i < dec_bytes(v / 10).len() {
                assert(dec_bytes(v)[i] == dec_bytes(v / 10)[i]);
            }
        }
    }
}

/// Parses a run `s[from..to]` as one octet: succeeds exactly on the canonical
/// rendering of a value up to 255.
#[verifier::loop_isolation(false)]
#[verifier::rlimit(30)]
fn parse_octet(s: &Vec<u8>, from: usize, to: usize) -> (r: Option<u8>)
    requires
        from <= to <= s@.len(),
    ensures
        r matches Some(v) ==> s@.subrange(from as int, to as int) == dec_bytes(v as nat),
        r is None ==> forall|v: u8| s@.subrange(from as int, to as int) != dec_bytes(v as nat),
{
    let ghost run = s@.subrange(from as int, to as int);
    let len = to - from;
    if len == 0 || len > 3 {
        proof {
            assert forall|v: u8| run != dec_bytes(v as nat) by {
                lemma_dec_bytes_octet(v as nat);
            }
        }
        return None;
    }
    // every byte must be a digit
    let mut i: usize = from;
    while i < to
        invariant
            from <= i <= to,
            forall|j: int| from <= j < i ==> 48 <= #[trigger] s@[j] <= 57,
        decreases to - i,
    {
        if s[i] < 48 || s[i] > 57 {
            proof {
                assert forall|v: u8| run != dec_bytes(v as nat) by {
                    lemma_dec_bytes_octet(v as nat);
                    if run == dec_bytes(v as nat) {
                        assert(run[i - from] == dec_bytes(v as nat)[i - from]);
                    }
                }
            }
            return None;
        }
        i = i + 1;
    }
    // no leading zero on a multi-digit run
    if len > 1 && s[from] == 48 {
        proof {
            assert forall|v: u8| run != dec_bytes(v as nat) by {
                lemma_dec_bytes_octet(v as nat);
                if run == dec_bytes(v as nat) {
                    assert(run[0] == dec_bytes(v as nat)[0]);
                }
            }
        }
        return None;
    }
    let value: u32 = if len == 1 {
        (s[from] - 48) as u32
    } else if len == 2 {
        (s[from] - 48) as u32 * 10 + (s[from + 1] - 48) as u32
    } else {
        (s[from] - 48) as u32 * 100 + (s[from + 1] - 48) as u32 * 10 + (s[from + 2] - 48) as u32
    };
    proof {
        // the run is the canonical rendering of `value`
        let x = value as nat;
        lemma_dec_bytes_octet(x);
        if len == 2 {
            assert(x / 10 == (run[0] - 48) && x % 10 == (run[1] - 48)) by (nonlinear_arith)
                requires
                    x == (run[0] - 48) * 10 + (run[1] - 48),
                    48 <= run[0] <= 57,
                    48 <= run[1] <= 57,
            ;
        }
        if len == 3 {
            assert(x / 100 == (run[0] - 48) && (x / 10) % 10 == (run[1] - 48) && x % 10 == (run[2]
                - 48)) by (nonlinear_arith)
                requires
                    x == (run[0] - 48) * 100 + (run[1] - 48) * 10 + (run[2] - 48),
                    48 <= run[0] <= 57,
                    48 <= run[1] <= 57,
                    48 <= run[2] <= 57,
            ;
        }
        assert(run =~= dec_bytes(x));
    }
    if value > 255 {
        proof {
            assert forall|v: u8| run != dec_bytes(v as nat) by {
                lemma_dec_bytes_octet(v as nat);
                lemma_dec_bytes_octet(value as nat);
                if run == dec_bytes(v as nat) {
                    lemma_dec_bytes_injective(v as nat, value as nat);
                }
            }
        }
        return None;
    }
    Some(value as u8)
}

/// Canonical renderings of distinct numbers differ.
proof fn lemma_dec_bytes_injective(a: nat, b: nat)
    requires
        dec_bytes(a) == dec_bytes(b),
    ensures
        a == b,
    decreases a,
{
    if a < 10 && b < 10 {
        assert(dec_bytes(a) == seq![(48 + a) as u8]);
        assert(dec_bytes(b) == seq![(48 + b) as u8]);
        assert(seq![(48 + a) as u8][0] == (48 + a) as u8);
        assert(seq![(48 + b) as u8][0] == (48 + b) as u8);
        assert(dec_bytes(a)[0] == dec_bytes(b)[0]);
        assert((48 + a) as u8 == (48 + b) as u8);
        assert((48 + a) as u8 as int == 48 + a);
        assert((48 + b) as u8 as int == 48 + b);
    } else if a < 10 || b < 10 {
        assert(dec_bytes(a).len() == dec_bytes(b).len());
        if a < 10 {
            assert(dec_bytes(a).len() == 1);
            assert(dec_bytes(b) == dec_bytes(b / 10).push((48 + b % 10) as u8));
            lemma_dec_bytes_len_min(b / 10);
            assert(dec_bytes(b).len() >= 2);
        } else {
            assert(dec_bytes(b).len() == 1);
            assert(dec_bytes(a) == dec_bytes(a / 10).push((48 + a % 10) as u8));
            lemma_dec_bytes_len_min(a / 10);
            assert(dec_bytes(a).len() >= 2);
        }
    } else {
        assert(dec_bytes(a) == dec_bytes(a / 10).push((48 + a % 10) as u8));
        assert(dec_bytes(b) == dec_bytes(b / 10).push((48 + b % 10) as u8));
        assert(dec_bytes(a).last() == (48 + a % 10) as u8);
        assert(dec_bytes(b).last() == (48 + b % 10) as u8);
        assert(a % 10 < 10 && b % 10 < 10);
        assert(a % 10 == b % 10);
        assert(dec_bytes(a).drop_last() =~= dec_bytes(a / 10));
        assert(dec_bytes(b).drop_last() =~= dec_bytes(b / 10));
        lemma_dec_bytes_injective(a / 10, b / 10);
        assert(a == (a / 10) * 10 + a % 10);
        assert(b == (b / 10) * 10 + b % 10);
    }
}

proof fn lemma_dec_bytes_len_min(n: nat)
    ensures
        dec_bytes(n).len() >= 1,
{
}

/// The anatomy of rendered dotted-quad text: where its dots stand and what
/// each run between them is.
proof fn lemma_ipv4_text_structure(a: u8, b: u8, c: u8, d: u8)
    ensures
        ({
            let s = ipv4_text(a, b, c, d);
            let la = dec_bytes(a as nat).len() as int;
            let lb = dec_bytes(b as nat).len() as int;
            let lc = dec_bytes(c as nat).len() as int;
            let ld = dec_bytes(d as nat).len() as int;
            let p = la;
            let q = la + 1 + lb;
            let t = la + 1 + lb + 1 + lc;
            &&& s.len() == la + lb + lc + ld + 3
            &&& 0 <= p < q < t < s.len()
            &&& forall|j: int| 0 <= j < s.len() ==> (s[j] == 46 <==> (j == p || j == q || j == t))
            &&& s.subrange(0, p) == dec_bytes(a as nat)
            &&& s.subrange(p + 1, q) == dec_bytes(b as nat)
            &&& s.subrange(q + 1, t) == dec_bytes(c as nat)
            &&& s.subrange(t + 1, s.len() as int) == dec_bytes(d as nat)
        }),
{
    lemma_dec_bytes_octet(a as nat);
    lemma_dec_bytes_octet(b as nat);
    lemma_dec_bytes_octet(c as nat);
    lemma_dec_bytes_octet(d as nat);
    let s = ipv4_text(a, b, c, d);
    let da = dec_bytes(a as nat);
    let db = dec_bytes(b as nat);
    let dc = dec_bytes(c as nat);
    let dd = dec_bytes(d as nat);
    let la = da.len() as int;
    let lb = db.len() as int;
    let lc = dc.len() as int;
    let p = la;
    let q = la + 1 + lb;
    let t = la + 1 + lb + 1 + lc;
    assert(s.len() == la + lb + lc + dd.len() + 3);
    assert forall|j: int| 0 <= j < s.len() implies (s[j] == 46 <==> (j == p || j == q || j
        == t)) by {
        if j < p {
            assert(s[j] == da[j]);
            assert(48 <= da[j] <= 57);
        } else if j == p {
            assert(s[j] == 46);
        } else if j < q {
            assert(s[j] == db[j - p - 1]);
            assert(48 <= db[j - p - 1] <= 57);
        } else if j == q {
            assert(s[j] == 46);
        } else if j < t {
            assert(s[j] == dc[j - q - 1]);
            assert(48 <= dc[j - q - 1] <= 57);
        } else if j == t {
            assert(s[j] == 46);
        } else {
            assert(s[j] == dd[j - t - 1]);
            assert(48 <= dd[j - t - 1] <= 57);
        }
    }
    assert(s.subrange(0, p) =~= da);
    assert(s.subrange(p + 1, q) =~= db);
    assert(s.subrange(q + 1, t) =~= dc);
    assert(s.subrange(t + 1, s.len() as int) =~= dd);
}

/// Parses dotted-quad IPv4 text: succeeds exactly on the canonical rendering
/// of four octets, and returns those octets.
#[verifier::loop_isolation(false)]
pub fn parse_ipv4(s: &Vec<u8>) -> (r: Option<(u8, u8, u8, u8)>)
    ensures
        r matches Some(o) ==> s@ == ipv4_text(o.0, o.1, o.2, o.3),
        forall|a: u8, b: u8, c: u8, d: u8| s@ == ipv4_text(a, b, c, d) ==> r == Some((a, b, c, d)),
{
    // find the dot positions
    let mut dots: Vec<usize> = Vec::new();
    let mut i: usize = 0;
    while i < s.len()
        invariant
            i <= s@.len(),
            forall|k: int| 0 <= k < dots@.len() ==> dots@[k] < i && s@[dots@[k] as int] == 46,
            forall|j: int| 0 <= j < i && s@[j] == 46 ==> exists|k: int|
                0 <= k < dots@.len() && dots@[k] == j,
            forall|k1: int, k2: int| 0 <= k1 < k2 < dots@.len() ==> dots@[k1] < dots@[k2],
        decreases s@.len() - i,
    {
        let ghost before = dots@;
        if s[i] == 46 {
            dots.push(i);
        }
        proof {
            assert forall|j: int| 0 <= j < i + 1 && s@[j] == 46 implies exists|k: int|
                0 <= k < dots@.len() && dots@[k] == j by {
                if j == i {
                    assert(dots@[dots@.len() - 1] == i);
                } else {
                    let k = choose|k: int| 0 <= k < before.len() && before[k] == j;
                    assert(dots@[k] == j);
                }
            }
        }
        i = i + 1;
    }
    let outcome: Option<(u8, u8, u8, u8)> = if dots.len() != 3 {
        None
    } else {
        let p = dots[0];
        let q = dots[1];
        let t = dots[2];
        match (
            parse_octet(s, 0, p),
            parse_octet(s, p + 1, q),
            parse_octet(s, q + 1, t),
            parse_octet(s, t + 1, s.len()),
        ) {
            (Some(a), Some(b), Some(c), Some(d)) => Some((a, b, c, d)),
            _ => None,
        }
    };
    proof {
        if outcome matches Some(o) {
            let p = dots@[0] as int;
            let q = dots@[1] as int;
            let t = dots@[2] as int;
            assert(0 <= p < q && q < t && t < s@.len());
            assert(s@ =~= s@.subrange(0, p) + seq![46u8] + s@.subrange(p + 1, q) + seq![46u8] + s@.subrange(q + 1, t) + seq![46u8] + s@.subrange(t + 1, s@.len() as int));
        }
        assert forall|a: u8, b: u8, c: u8, d: u8| s@ == ipv4_text(a, b, c, d) implies outcome == Some((a, b, c, d)) by {
            lemma_ipv4_text_structure(a, b, c, d);
            let la = dec_bytes(a as nat).len() as int;
            let lb = dec_bytes(b as nat).len() as int;
            let lc = dec_bytes(c as nat).len() as int;
            let p = la;
            let q = la + 1 + lb;
            let t = la + 1 + lb + 1 + lc;
            lemma_three_dots(s@, dots@, p, q, t);
            match outcome {
                Some(o2) => {
                    lemma_dec_bytes_injective(o2.0 as nat, a as nat);
                    lemma_dec_bytes_injective(o2.1 as nat, b as nat);
                    lemma_dec_bytes_injective(o2.2 as nat, c as nat);
                    lemma_dec_bytes_injective(o2.3 as nat, d as nat);
                },
                None => {},
            }
        }
    }
    outcome
}

/// If the positions holding a dot are exactly `{p, q, t}` with `p < q < t`,
/// then an ordered duplicate-free list of all dot positions is `[p, q, t]`.
proof fn lemma_three_dots(s: Seq<u8>, dots: Seq<usize>, p: int, q: int, t: int)
    requires
        0 <= p < q < t < s.len(),
        forall|j: int| 0 <= j < s.len() ==> (s[j] == 46 <==> (j == p || j == q || j == t)),
        forall|k: int| 0 <= k < dots.len() ==> dots[k] < s.len() && s[dots[k] as int] == 46,
        forall|j: int| 0 <= j < s.len() && s[j] == 46 ==> exists|k: int|
            0 <= k < dots.len() && dots[k] == j,
        forall|k1: int, k2: int| 0 <= k1 < k2 < dots.len() ==> dots[k1] < dots[k2],
    ensures
        dots.len() == 3,
        dots[0] == p,
        dots[1] == q,
        dots[2] == t,
{
    assert(s[p] == 46);
    assert(s[q] == 46);
    assert(s[t] == 46);
    let kp = choose|k: int| 0 <= k < dots.len() && dots[k] == p;
    let kq = choose|k: int| 0 <= k < dots.len() && dots[k] == q;
    let kt = choose|k: int| 0 <= k < dots.len() && dots[k] == t;
    assert(kp < kq && kq < kt) by {
        if kp >= kq {
            if kp == kq {
            } else {
                assert(dots[kq] < dots[kp]);
            }
        }
        if kq >= kt {
            if kq == kt {
            } else {
                assert(dots[kt] < dots[kq]);
            }
        }
    }
    assert(dots.len() >= 3);
    if dots.len() > 3 {
        assert(dots[0] < dots[1] && dots[1] < dots[2] && dots[2] < dots[3]);
        assert(forall|k: int| 0 <= k < dots.len() ==> dots[k] == p || dots[k] == q || dots[k]
            == t);
    }
    assert(dots[0] == p && dots[1] == q && dots[2] == t) by {
        assert(forall|k: int| 0 <= k < dots.len() ==> dots[k] == p || dots[k] == q || dots[k]
            == t);
        assert(0 <= kp < 3 && 0 <= kq < 3 && 0 <= kt < 3);
        assert(kp == 0 && kq == 1 && kt == 2);
    }
}

/// The key a forward entry files under.
pub open spec fn forward_key(f: ForwardDomainConfiguration) -> Seq<QueryTuple> {
    request_key_spec(seq![(dns_name_text(f.name@), 1u16, 1u16)])
}

/// The response a forward entry stores.
pub open spec fn forward_model(f: ForwardDomainConfiguration) -> MsgModel {
    local_response_model((dns_name_text(f.name@), 1u16, 1u16), f.ip_address@, f.ttl_seconds)
}

/// The key a reverse entry files under.
pub open spec fn reverse_key(rd: ReverseDomainConfiguration) -> Seq<QueryTuple> {
    request_key_spec(seq![(dns_name_text(rd.reverse_address@), 12u16, 1u16)])
}

/// The response a reverse entry stores.
pub open spec fn reverse_model(rd: ReverseDomainConfiguration) -> MsgModel {
    local_response_model(
        (dns_name_text(rd.reverse_address@), 12u16, 1u16),
        dns_name_text(rd.name@),
        rd.ttl_seconds,
    )
}

/// A forward entry is usable when its name parses and its address is
/// canonical dotted-quad text.
pub open spec fn forward_entry_ok(f: ForwardDomainConfiguration) -> bool {
    dns_name_ok(f.name@) && exists|a: u8, b: u8, c: u8, d: u8| f.ip_address@ == ipv4_text(a, b, c, d)
}

/// A reverse entry is usable when both of its names parse.
pub open spec fn reverse_entry_ok(rd: ReverseDomainConfiguration) -> bool {
    dns_name_ok(rd.reverse_address@) && dns_name_ok(rd.name@)
}

/// Filing an entry: a later entry under the same key replaces the earlier one.
pub open spec fn zone_put(s: Seq<(Seq<QueryTuple>, MsgModel)>, k: Seq<QueryTuple>, m: MsgModel) -> Seq<(Seq<QueryTuple>, MsgModel)> {
    if has_key(s, k) {
        s.remove(key_index(s, k)).push((k, m))
    } else {
        s.push((k, m))
    }
}

/// The zone after the first `n` forward entries.
pub open spec fn forward_zone(fwd: Seq<ForwardDomainConfiguration>, n: int) -> Seq<(Seq<QueryTuple>, MsgModel)>
    decreases n,
{
    if n <= 0 {
        Seq::empty()
    } else {
        zone_put(forward_zone(fwd, n - 1), forward_key(fwd[n - 1]), forward_model(fwd[n - 1]))
    }
}

/// The zone after all forward entries and the first `n` reverse entries.
pub open spec fn full_zone(fwd: Seq<ForwardDomainConfiguration>, rev: Seq<ReverseDomainConfiguration>, n: int) -> Seq<(Seq<QueryTuple>, MsgModel)>
    decreases n,
{
    if n <= 0 {
        forward_zone(fwd, fwd.len() as int)
    } else {
        zone_put(full_zone(fwd, rev, n - 1), reverse_key(rev[n - 1]), reverse_model(rev[n - 1]))
    }
}

/// Every model the zone may hold encodes: bounded sections and a successful
/// emit, as the builders guarantee of their responses.
pub open spec fn zone_models_wire_safe(s: Seq<(Seq<QueryTuple>, MsgModel)>) -> bool {
    forall|i: int|
        0 <= i < s.len() ==> (#[trigger] s[i]).1.sections_bounded && s[i].1.encodable
}

proof fn lemma_zone_put_wire_safe(s: Seq<(Seq<QueryTuple>, MsgModel)>, k: Seq<QueryTuple>, m: MsgModel)
    requires
        zone_models_wire_safe(s),
        m.sections_bounded,
        m.encodable,
    ensures
        zone_models_wire_safe(zone_put(s, k, m)),
{
    let t = zone_put(s, k, m);
    if has_key(s, k) {
        let idx = key_index(s, k);
        assert forall|i: int| 0 <= i < t.len() implies (#[trigger] t[i]).1.sections_bounded
            && t[i].1.encodable by {
            if i < t.len() - 1 {
                let j = if i < idx {
                    i
                } else {
                    i + 1
                };
                assert(t[i] == s[j]);
            }
        }
    } else {
        assert forall|i: int| 0 <= i < t.len() implies (#[trigger] t[i]).1.sections_bounded
            && t[i].1.encodable by {
            if i < t.len() - 1 {
                assert(t[i] == s[i]);
            }
        }
    }
}

proof fn lemma_forward_zone_wire_safe(fwd: Seq<ForwardDomainConfiguration>, n: int)
    requires
        n <= fwd.len(),
    ensures
        zone_models_wire_safe(forward_zone(fwd, n)),
    decreases n,
{
    if n > 0 {
        lemma_forward_zone_wire_safe(fwd, n - 1);
        lemma_zone_put_wire_safe(
            forward_zone(fwd, n - 1),
            forward_key(fwd[n - 1]),
            forward_model(fwd[n - 1]),
        );
    }
}

/// The whole zone holds only messages that encode.
pub proof fn lemma_full_zone_wire_safe(fwd: Seq<ForwardDomainConfiguration>, rev: Seq<ReverseDomainConfiguration>, n: int)
    requires
        n <= rev.len(),
    ensures
        zone_models_wire_safe(full_zone(fwd, rev, n)),
    decreases n,
{
    if n <= 0 {
        lemma_forward_zone_wire_safe(fwd, fwd.len() as int);
    } else {
        lemma_full_zone_wire_safe(fwd, rev, n - 1);
        lemma_zone_put_wire_safe(
            full_zone(fwd, rev, n - 1),
            reverse_key(rev[n - 1]),
            reverse_model(rev[n - 1]),
        );
    }
}

/// What a configured forward entry answers with: under its own key, the zone
/// holds an authoritative `NoError` response whose one answer carries exactly
/// the configured address text and TTL.
pub proof fn lemma_forward_entry_answer(f: ForwardDomainConfiguration)
    ensures
        ({
            let zone = full_zone(seq![f], Seq::<ReverseDomainConfiguration>::empty(), 0);
            let k = forward_key(f);
            &&& has_key(zone, k)
            &&& zone[key_index(zone, k)].1 == forward_model(f)
            &&& forward_model(f).authoritative
            &&& forward_model(f).response
            &&& forward_model(f).rcode == 0
            &&& forward_model(f).answer_rdata == seq![f.ip_address@]
            &&& forward_model(f).answer_ttls == seq![f.ttl_seconds]
        }),
{
    let fwd = seq![f];
    let zone = full_zone(fwd, Seq::<ReverseDomainConfiguration>::empty(), 0);
    let k = forward_key(f);
    assert(forward_zone(fwd, 0) =~= Seq::<(Seq<QueryTuple>, MsgModel)>::empty());
    assert(!has_key(forward_zone(fwd, 0), k));
    assert(zone =~= Seq::<(Seq<QueryTuple>, MsgModel)>::empty().push((k, forward_model(f))));
    assert(zone[0].0 == k);
    lemma_key_index_agrees(zone, k, 0);
}

/// The immutable map of statically answered queries.
pub struct LocalDomainCache {
    entries: Vec<(RequestKey, Message)>,
}

impl View for LocalDomainCache {
    type V = Seq<(Seq<QueryTuple>, MsgModel)>;

    closed spec fn view(&self) -> Seq<(Seq<QueryTuple>, MsgModel)> {
        self.entries@.map_values(|e: (RequestKey, Message)| (e.0@, msg_model(e.1)))
    }
}

impl LocalDomainCache {
    pub open spec fn wf(&self) -> bool {
        unique_keys(self@)
    }

    /// Files one response under its key, replacing an entry with the same key.
    #[verifier::loop_isolation(false)]
    fn insert(&mut self, key: RequestKey, message: Message)
        requires
            old(self).wf(),
        ensures
            final(self).wf(),
            final(self)@ == zone_put(old(self)@, key@, msg_model(message)),
    {
        let ghost s = self@;
        let ghost kv = key@;
        let ghost mv = msg_model(message);
        let mut i: usize = 0;
        let mut found: Option<usize> = None;
        while i < self.entries.len()
            invariant
                i <= self.entries@.len(),
                self@ == s,
                found matches Some(f) ==> 0 <= f < s.len() && s[f as int].0 == kv,
                found is None ==> forall|j: int| 0 <= j < i ==> s[j].0 != kv,
            decreases self.entries@.len() - i,
        {
            if found.is_none() && self.entries[i].0.key_eq(&key) {
                proof {
                    assert(s[i as int].0 == kv);
                }
                found = Some(i);
            }
            i = i + 1;
        }
        match found {
            Some(f) => {
                proof {
                    lemma_key_index_agrees(s, kv, f as int);
                }
                self.entries.remove(f);
                self.entries.push((key, message));
                proof {
                    assert(self@ =~= s.remove(f as int).push((kv, mv)));
                    lemma_replace_preserves_unique(s, kv, mv, f as int);
                }
            },
            None => {
                proof {
                    assert(!has_key(s, kv));
                }
                self.entries.push((key, message));
                proof {
                    assert(self@ =~= s.push((kv, mv)));
                    lemma_append_new_preserves_unique(s, kv, mv);
                }
            },
        }
    }

    /// Builds the zone. Fails with `InvalidLocalEntry` exactly when some
    /// entry's name does not parse or some forward address is not canonical
    /// dotted-quad text.
    #[verifier::loop_isolation(false)]
    pub fn new(forward_domain_configurations: &Vec<ForwardDomainConfiguration>, reverse_domain_configurations: &Vec<ReverseDomainConfiguration>) -> (r: Result<LocalDomainCache, LocalZoneError>)
        ensures
            r is Ok <==> (forall|i: int|
                0 <= i < forward_domain_configurations@.len() ==> forward_entry_ok(
                    #[trigger] forward_domain_configurations@[i],
                )) && (forall|j: int|
                0 <= j < reverse_domain_configurations@.len() ==> reverse_entry_ok(
                    #[trigger] reverse_domain_configurations@[j],
                )),
            r matches Ok(z) ==> z.wf() && z@ == full_zone(
                forward_domain_configurations@,
                reverse_domain_configurations@,
                reverse_domain_configurations@.len() as int,
            ),
            r matches Err(e) ==> e == LocalZoneError::InvalidLocalEntry,
    {
        let fwd = forward_domain_configurations;
        let rev = reverse_domain_configurations;
        let mut zone = LocalDomainCache { entries: Vec::new() };
        proof {
            assert(zone@ =~= forward_zone(fwd@, 0));
        }
        let mut i: usize = 0;
        while i < fwd.len()
            invariant
                i <= fwd@.len(),
                zone.wf(),
                zone@ == forward_zone(fwd@, i as int),
                forall|j: int| 0 <= j < i ==> forward_entry_ok(#[trigger] fwd@[j]),
            decreases fwd@.len() - i,
        {
            let entry = &fwd[i];
            let octets = match parse_ipv4(&entry.ip_address) {
                None => {
                    proof {
                        assert(!forward_entry_ok(fwd@[i as int]));
                    }
                    return Err(LocalZoneError::InvalidLocalEntry);
                },
                Some(o) => o,
            };
            let message = match build_a_response(
                &entry.name,
                [octets.0, octets.1, octets.2, octets.3],
                entry.ttl_seconds,
            ) {
                None => {
                    proof {
                        assert(!forward_entry_ok(fwd@[i as int]));
                    }
                    return Err(LocalZoneError::InvalidLocalEntry);
                },
                Some(m) => m,
            };
            proof {
                assert(forward_entry_ok(fwd@[i as int]));
            }
            let queries = crate::dns::msg_queries(&message);
            proof {
                assert(queries@.map_values(|q: (Vec<u8>, u16, u16)| (q.0@, q.1, q.2)).len()
                    == 1);
            }
            let key = match RequestKey::from_queries(&queries) {
                Err(_) => {
                    proof {
                        assert(false);
                    }
                    return Err(LocalZoneError::InvalidLocalEntry);
                },
                Ok(k) => k,
            };
            proof {
                assert(queries@.map_values(|q: (Vec<u8>, u16, u16)| (q.0@, q.1, q.2)) =~= seq![
                    (dns_name_text(entry.name@), 1u16, 1u16),
                ]);
                assert(key@ == forward_key(fwd@[i as int]));
                assert(entry.ip_address@ == ipv4_text(octets.0, octets.1, octets.2, octets.3));
                assert(msg_model(message) == forward_model(fwd@[i as int]));
            }
            zone.insert(key, message);
            i = i + 1;
        }
        let mut j: usize = 0;
        while j < rev.len()
            invariant
                j <= rev@.len(),
                zone.wf(),
                zone@ == full_zone(fwd@, rev@, j as int),
                forall|i2: int| 0 <= i2 < fwd@.len() ==> forward_entry_ok(#[trigger] fwd@[i2]),
                forall|j2: int| 0 <= j2 < j ==> reverse_entry_ok(#[trigger] rev@[j2]),
            decreases rev@.len() - j,
        {
            let entry = &rev[j];
            let message = match build_ptr_response(
                &entry.reverse_address,
                &entry.name,
                entry.ttl_seconds,
            ) {
                None => {
                    proof {
                        assert(!reverse_entry_ok(rev@[j as int]));
                    }
                    return Err(LocalZoneError::InvalidLocalEntry);
                },
                Some(m) => m,
            };
            proof {
                assert(reverse_entry_ok(rev@[j as int]));
            }
            let queries = crate::dns::msg_queries(&message);
            proof {
                assert(queries@.map_values(|q: (Vec<u8>, u16, u16)| (q.0@, q.1, q.2)).len()
                    == 1);
            }
            let key = match RequestKey::from_queries(&queries) {
                Err(_) => {
                    proof {
                        assert(false);
                    }
                    return Err(LocalZoneError::InvalidLocalEntry);
                },
                Ok(k) => k,
            };
            proof {
                assert(queries@.map_values(|q: (Vec<u8>, u16, u16)| (q.0@, q.1, q.2)) =~= seq![
                    (dns_name_text(entry.reverse_address@), 12u16, 1u16),
                ]);
                assert(key@ == reverse_key(rev@[j as int]));
                assert(msg_model(message) == reverse_model(rev@[j as int]));
            }
            zone.insert(key, message);
            j = j + 1;
        }
        Ok(zone)
    }

    /// Looks a key up and hands back a copy of the stored response.
    #[verifier::loop_isolation(false)]
    pub fn get_response_message(&self, key: &RequestKey) -> (r: Option<Message>)
        requires
            self.wf(),
        ensures
            r is Some <==> has_key(self@, key@),
            r matches Some(m) ==> msg_model(m) == self@[key_index(self@, key@)].1,
    {
        let mut i: usize = 0;
        while i < self.entries.len()
            invariant
                i <= self.entries@.len(),
                forall|j: int| 0 <= j < i ==> self@[j].0 != key@,
            decreases self.entries@.len() - i,
        {
            if self.entries[i].0.key_eq(key) {
                proof {
                    assert(self@[i as int].0 == key@);
                    lemma_key_index_agrees(self@, key@, i as int);
                }
                return Some(msg_clone(&self.entries[i].1));
            }
            i = i + 1;
        }
        proof {
            assert(!has_key(self@, key@));
        }
        None
    }

    /// The number of entries in the zone.
    pub fn len(&self) -> (r: usize)
        ensures
            r == self@.len(),
    {
        self.entries.len()
    }
}

} // verus!
