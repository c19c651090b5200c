//! Canonical identity of a DNS question set.
//!
//! A key is built from a message's question tuples: each name is lowercased
//! ASCII-wise, and the tuples are sorted, so that key equality does not depend
//! on the case of names or on question order. A message with no queries yields
//! no key.

use vstd::prelude::*;

use vstd::relations::{sorted_by, total_ordering};
use vstd::multiset::Multiset;
use vstd::seq_lib::lemma_sorted_unique;

use crate::dns::QueryTuple;

verus! {

/// One question's contribution to the key: the lowercased name and the
/// numeric type and class codes.
#[derive(Clone, Debug, PartialEq, Eq, Hash)]
pub struct RequestQueryKey {
    pub name: Vec<u8>,
    pub query_type: u16,
    pub query_class: u16,
}

impl View for RequestQueryKey {
    type V = QueryTuple;

    open spec fn view(&self) -> QueryTuple {
        (self.name@, self.query_type, self.query_class)
    }
}

/// The canonical fingerprint of a question set: lowercased tuples, sorted
/// whenever there is more than one.
#[derive(Clone, Debug, PartialEq, Eq, Hash)]
pub struct RequestKey {
    query_keys: Vec<RequestQueryKey>,
}

/// Construction failure: the message holds no queries.
#[derive(Clone, Copy, Debug, PartialEq, Eq)]
pub enum RequestKeyError {
    EmptyQueries,
}

/// ASCII lowercasing of one byte.
pub open spec fn lower_byte(b: u8) -> u8 {
    if 65 <= b && b <= 90 {
        (b + 32) as u8
    } else {
        b
    }
}

/// ASCII lowercasing of a byte string.
pub open spec fn lower_bytes(s: Seq<u8>) -> Seq<u8> {
    s.map_values(|b: u8| lower_byte(b))
}

/// A question tuple with its name lowercased.
pub open spec fn lower_tuple(q: QueryTuple) -> QueryTuple {
    (lower_bytes(q.0), q.1, q.2)
}

/// Lexicographic order on byte strings.
pub open spec fn bytes_le(a: Seq<u8>, b: Seq<u8>) -> bool
    decreases a.len(),
{
    if a.len() == 0 {
        true
    } else if b.len() == 0 {
        false
    } else if a[0] < b[0] {
        true
    } else if a[0] > b[0] {
        false
    } else {
        bytes_le(a.drop_first(), b.drop_first())
    }
}

/// Lexicographic order on question tuples: by name, then type, then class.
pub open spec fn query_tuple_le(a: QueryTuple, b: QueryTuple) -> bool {
    if a.0 != b.0 {
        bytes_le(a.0, b.0)
    } else if a.1 != b.1 {
        a.1 < b.1
    } else {
        a.2 <= b.2
    }
}

/// What a key stands for: the question tuples lowercased, then sorted.
pub open spec fn request_key_spec(queries: Seq<QueryTuple>) -> Seq<QueryTuple> {
    queries.map_values(|q: QueryTuple| lower_tuple(q)).sort_by(
        |a: QueryTuple, b: QueryTuple| query_tuple_le(a, b),
    )
}

pub proof fn lemma_bytes_le_reflexive(a: Seq<u8>)
    ensures
        bytes_le(a, a),
    decreases a.len(),
{
    if a.len() > 0 {
        lemma_bytes_le_reflexive(a.drop_first());
    }
}

pub proof fn lemma_bytes_le_antisymmetric(a: Seq<u8>, b: Seq<u8>)
    requires
        bytes_le(a, b),
        bytes_le(b, a),
    ensures
        a == b,
    decreases a.len(),
{
    if a.len() == 0 {
        assert(b.len() == 0);
        assert(a =~= b);
    } else {
        lemma_bytes_le_antisymmetric(a.drop_first(), b.drop_first());
        assert(a =~= seq![a[0]] + a.drop_first());
        assert(b =~= seq![b[0]] + b.drop_first());
    }
}

pub proof fn lemma_bytes_le_transitive(a: Seq<u8>, b: Seq<u8>, c: Seq<u8>)
    requires
        bytes_le(a, b),
        bytes_le(b, c),
    ensures
        bytes_le(a, c),
    decreases a.len(),
{
    if a.len() > 0 && b.len() > 0 && c.len() > 0 && a[0] == b[0] && b[0] == c[0] {
        lemma_bytes_le_transitive(a.drop_first(), b.drop_first(), c.drop_first());
    }
}

pub proof fn lemma_bytes_le_connected(a: Seq<u8>, b: Seq<u8>)
    ensures
        bytes_le(a, b) || bytes_le(b, a),
    decreases a.len(),
{
    if a.len() > 0 && b.len() > 0 && a[0] == b[0] {
        lemma_bytes_le_connected(a.drop_first(), b.drop_first());
    }
}

/// The tuple order is a total ordering, which makes the sorted key unique for
/// a given multiset of lowercased tuples.
pub proof fn lemma_query_tuple_le_total_ordering()
    ensures
        total_ordering(|a: QueryTuple, b: QueryTuple| query_tuple_le(a, b)),
{
    let leq = |a: QueryTuple, b: QueryTuple| query_tuple_le(a, b);
    assert forall|a: QueryTuple| #[trigger] leq(a, a) by {
        lemma_bytes_le_reflexive(a.0);
    }
    assert forall|a: QueryTuple, b: QueryTuple| #[trigger] leq(a, b) && #[trigger] leq(b, a)
        implies a == b by {
        if a.0 == b.0 {
            assert(a =~= b);
        } else {
            lemma_bytes_le_antisymmetric(a.0, b.0);
            assert(a =~= b);
        }
    }
    assert forall|a: QueryTuple, b: QueryTuple, c: QueryTuple|
        #[trigger] leq(a, b) && #[trigger] leq(b, c) implies leq(a, c) by {
        if a.0 == b.0 && b.0 == c.0 {
        } else if a.0 == b.0 {
        } else if b.0 == c.0 {
        } else {
            lemma_bytes_le_transitive(a.0, b.0, c.0);
            if a.0 == c.0 {
                lemma_bytes_le_antisymmetric(a.0, b.0);
            }
        }
    }
    assert forall|a: QueryTuple, b: QueryTuple| #[trigger] leq(a, b) || #[trigger] leq(b, a) by {
        lemma_bytes_le_connected(a.0, b.0);
    }
}

/// Key equality characterised: two question sets get the same key exactly when
/// their lowercased tuples form the same multiset.
pub proof fn lemma_key_eq_iff_same_multiset(q1: Seq<QueryTuple>, q2: Seq<QueryTuple>)
    ensures
        request_key_spec(q1) == request_key_spec(q2) <==> q1.map_values(
            |q: QueryTuple| lower_tuple(q),
        ).to_multiset() == q2.map_values(|q: QueryTuple| lower_tuple(q)).to_multiset(),
{
    let leq = |a: QueryTuple, b: QueryTuple| query_tuple_le(a, b);
    let l1 = q1.map_values(|q: QueryTuple| lower_tuple(q));
    let l2 = q2.map_values(|q: QueryTuple| lower_tuple(q));
    lemma_query_tuple_le_total_ordering();
    l1.lemma_sort_by_ensures(leq);
    l2.lemma_sort_by_ensures(leq);
    if l1.to_multiset() == l2.to_multiset() {
        lemma_sorted_unique(l1.sort_by(leq), l2.sort_by(leq), leq);
        assert(request_key_spec(q1) == request_key_spec(q2));
    }
}

/// Exec ASCII lowercasing.
fn lower_bytes_exec(s: &Vec<u8>) -> (r: Vec<u8>)
    ensures
        r@ == lower_bytes(s@),
{
    let mut out: Vec<u8> = Vec::new();
    let mut i: usize = 0;
    while i < s.len()
        invariant
            i <= s@.len(),
            out@ =~= lower_bytes(s@).take(i as int),
        decreases s@.len() - i,
    {
        let b = s[i];
        if 65 <= b && b <= 90 {
            out.push(b + 32);
        } else {
            out.push(b);
        }
        i = i + 1;
    }
    assert(lower_bytes(s@).take(s@.len() as int) =~= lower_bytes(s@));
    out
}

/// Exec lexicographic comparison of byte strings, from position `i` on.
fn bytes_le_from(a: &Vec<u8>, b: &Vec<u8>, i: usize) -> (r: bool)
    requires
        i <= a@.len(),
        i <= b@.len(),
    ensures
        r == bytes_le(a@.skip(i as int), b@.skip(i as int)),
    decreases a@.len() - i,
{
    proof {
        if i < a.len() && i < b.len() {
            assert(a@.skip(i as int)[0] == a@[i as int]);
            assert(b@.skip(i as int)[0] == b@[i as int]);
            assert(a@.skip(i as int).drop_first() =~= a@.skip(i as int + 1));
            assert(b@.skip(i as int).drop_first() =~= b@.skip(i as int + 1));
        }
    }
    if i == a.len() {
        true
    } else if i == b.len() {
        false
    } else if a[i] < b[i] {
        true
    } else if a[i] > b[i] {
        false
    } else {
        bytes_le_from(a, b, i + 1)
    }
}

/// Exec comparison of two query keys by the tuple order.
fn query_key_le(a: &RequestQueryKey, b: &RequestQueryKey) -> (r: bool)
    ensures
        r == query_tuple_le(a@, b@),
{
    let names_equal = bytes_eq(&a.name, &b.name);
    if !names_equal {
        proof {
            assert(a.name@.skip(0) =~= a.name@);
            assert(b.name@.skip(0) =~= b.name@);
        }
        bytes_le_from(&a.name, &b.name, 0)
    } else if a.query_type != b.query_type {
        a.query_type < b.query_type
    } else {
        a.query_class <= b.query_class
    }
}

/// Exec equality of byte strings.
pub fn bytes_eq(a: &Vec<u8>, b: &Vec<u8>) -> (r: bool)
    ensures
        r == (a@ == b@),
{
    if a.len() != b.len() {
        return false;
    }
    let mut i: usize = 0;
    while i < a.len()
        invariant
            a@.len() == b@.len(),
            i <= a@.len(),
            forall|j: int| 0 <= j < i ==> a@[j] == b@[j],
        decreases a@.len() - i,
    {
        if a[i] != b[i] {
            return false;
        }
        i = i + 1;
    }
    proof {
        assert(a@ =~= b@);
    }
    true
}

proof fn lemma_map_values_remove<A, B>(s: Seq<A>, f: spec_fn(A) -> B, i: int)
    requires
        0 <= i < s.len(),
    ensures
        s.remove(i).map_values(f) =~= s.map_values(f).remove(i),
{
}

proof fn lemma_map_values_insert<A, B>(s: Seq<A>, f: spec_fn(A) -> B, i: int, x: A)
    requires
        0 <= i <= s.len(),
    ensures
        s.insert(i, x).map_values(f) =~= s.map_values(f).insert(i, f(x)),
{
}

proof fn lemma_insert_to_multiset<A>(s: Seq<A>, i: int, x: A)
    requires
        0 <= i <= s.len(),
    ensures
        s.insert(i, x).to_multiset() =~= s.to_multiset().insert(x),
{
    broadcast use vstd::seq_lib::group_to_multiset_ensures;

    assert(s.insert(i, x) =~= s.take(i) + (s.skip(i).insert(0, x)));
    assert(s.skip(i).insert(0, x) =~= seq![x] + s.skip(i));
    assert(s.insert(i, x) =~= s.take(i) + (seq![x] + s.skip(i)));
    vstd::seq_lib::lemma_multiset_commutative(s.take(i), seq![x] + s.skip(i));
    vstd::seq_lib::lemma_multiset_commutative(seq![x], s.skip(i));
    assert(seq![x] =~= Seq::<A>::empty().push(x));
    assert(seq![x].to_multiset() =~= Multiset::<A>::empty().insert(x));
    assert(s =~= s.take(i) + s.skip(i));
    vstd::seq_lib::lemma_multiset_commutative(s.take(i), s.skip(i));
}

/// Removing an element and putting it back elsewhere keeps the multiset.
proof fn lemma_remove_insert_to_multiset<A>(s: Seq<A>, i: int, j: int)
    requires
        0 <= i < s.len(),
        0 <= j <= s.len() - 1,
    ensures
        s.remove(i).insert(j, s[i]).to_multiset() =~= s.to_multiset(),
{
    broadcast use vstd::seq_lib::group_to_multiset_ensures;

    lemma_insert_to_multiset(s.remove(i), j, s[i]);
    assert(s.to_multiset().contains(s[i]));
}

/// Insertion sort on the query keys, at the level of their views.
#[verifier::loop_isolation(false)]
fn sort_query_keys(v: &mut Vec<RequestQueryKey>)
    ensures
        final(v)@.map_values(|k: RequestQueryKey| k@).to_multiset() == old(v)@.map_values(
            |k: RequestQueryKey| k@,
        ).to_multiset(),
        sorted_by(
            final(v)@.map_values(|k: RequestQueryKey| k@),
            |a: QueryTuple, b: QueryTuple| query_tuple_le(a, b),
        ),
{
    let ghost kview = |k: RequestQueryKey| k@;
    let ghost leq = |a: QueryTuple, b: QueryTuple| query_tuple_le(a, b);
    proof {
        lemma_query_tuple_le_total_ordering();
    }
    if v.len() <= 1 {
        return ;
    }
    let mut i: usize = 1;
    while i < v.len()
        invariant
            1 <= i <= v@.len(),
            v@.len() == old(v)@.len(),
            v@.map_values(kview).to_multiset() == old(v)@.map_values(kview).to_multiset(),
            sorted_by(v@.map_values(kview).take(i as int), leq),
            total_ordering(leq),
        decreases v@.len() - i,
    {
        let ghost u = v@;
        let ghost s = v@.map_values(kview);
        // find the insertion position for element i within the sorted prefix
        let mut j: usize = 0;
        while j < i && query_key_le(&v[j], &v[i])
            invariant
                j <= i,
                i < v@.len(),
                v@.map_values(kview) == s,
                forall|k: int| 0 <= k < j ==> leq(s[k], s[i as int]),
            decreases i - j,
        {
            proof {
                assert(s[j as int] == v@[j as int]@);
                assert(s[i as int] == v@[i as int]@);
            }
            j = j + 1;
        }
        proof {
            if j < i {
                assert(s[j as int] == v@[j as int]@);
                assert(s[i as int] == v@[i as int]@);
                assert(!leq(s[j as int], s[i as int]));
                assert(leq(s[i as int], s[j as int]));
            }
        }
        let x = v.remove(i);
        v.insert(j, x);
        proof {
            let xv = kview(x);
            assert(xv == s[i as int]);
            lemma_map_values_remove(u, kview, i as int);
            lemma_map_values_insert(u.remove(i as int), kview, j as int, x);
            assert(v@.map_values(kview) =~= s.remove(i as int).insert(j as int, xv));
            lemma_remove_insert_to_multiset(s, i as int, j as int);
            assert(v@.map_values(kview).to_multiset() =~= s.to_multiset());
            // sortedness of the grown prefix
            let t = v@.map_values(kview);
            let p = s.take(i as int);
            assert(s.remove(i as int).take(i as int) =~= p);
            assert(t.take(i as int + 1) =~= p.insert(j as int, xv));
            let q = p.insert(j as int, xv);
            assert forall|a: int, b: int| 0 <= a < b < q.len() implies leq(q[a], q[b]) by {
                if b < j {
                    assert(leq(p[a], p[b]));
                } else if b == j {
                    assert(q[a] == p[a]);
                    assert(leq(p[a], xv));
                } else if a < j {
                    assert(q[a] == p[a] && q[b] == p[b - 1]);
                    if b - 1 == a {
                        assert(j < i);
                        assert(leq(xv, p[j as int]));
                        assert(leq(p[a], xv));
                        assert(leq(p[a], p[j as int]));
                        assert(leq(p[a], p[b - 1]));
                    } else {
                        assert(leq(p[a], p[b - 1]));
                    }
                } else if a == j {
                    assert(j < i);
                    assert(q[a] == xv && q[b] == p[b - 1]);
                    assert(leq(xv, p[j as int]));
                    if b - 1 > j {
                        assert(leq(p[j as int], p[b - 1]));
                    }
                    assert(leq(xv, p[b - 1]));
                } else {
                    assert(q[a] == p[a - 1] && q[b] == p[b - 1]);
                    assert(leq(p[a - 1], p[b - 1]));
                }
            }
            assert(sorted_by(t.take(i as int + 1), leq));
        }
        i = i + 1;
    }
    proof {
        assert(v@.map_values(kview).take(v@.len() as int) =~= v@.map_values(kview));
    }
}

impl View for RequestKey {
    type V = Seq<QueryTuple>;

    closed spec fn view(&self) -> Seq<QueryTuple> {
        self.query_keys@.map_values(|k: RequestQueryKey| k@)
    }
}

impl RequestKey {
    /// Builds the canonical key of a question set: lowercases every name,
    /// sorts the tuples, and refuses an empty set.
    #[verifier::loop_isolation(false)]
    pub fn from_queries(queries: &Vec<(Vec<u8>, u16, u16)>) -> (r: Result<RequestKey, RequestKeyError>)
        ensures
            r is Ok <==> queries@.len() > 0,
            r matches Ok(k) ==> k@ == request_key_spec(queries@.map_values(|q: (Vec<u8>, u16, u16)| (q.0@, q.1, q.2))),
            r matches Err(e) ==> e == RequestKeyError::EmptyQueries,
    {
        let ghost kview = |k: RequestQueryKey| k@;
        let ghost qview = |q: (Vec<u8>, u16, u16)| (q.0@, q.1, q.2);
        let ghost leq = |a: QueryTuple, b: QueryTuple| query_tuple_le(a, b);
        if queries.len() == 0 {
            return Err(RequestKeyError::EmptyQueries);
        }
        let mut keys: Vec<RequestQueryKey> = Vec::new();
        let mut i: usize = 0;
        while i < queries.len()
            invariant
                i <= queries@.len(),
                keys@.map_values(kview) =~= queries@.map_values(qview).map_values(
                    |q: QueryTuple| lower_tuple(q),
                ).take(i as int),
            decreases queries@.len() - i,
        {
            let ghost lowered = queries@.map_values(qview).map_values(
                |q: QueryTuple| lower_tuple(q),
            );
            let name = lower_bytes_exec(&queries[i].0);
            let entry = RequestQueryKey {
                name,
                query_type: queries[i].1,
                query_class: queries[i].2,
            };
            proof {
                assert(entry@ == lowered[i as int]);
                assert(lowered.take(i as int + 1) =~= lowered.take(i as int).push(
                    lowered[i as int],
                ));
            }
            keys.push(entry);
            i = i + 1;
        }
        let ghost lowered = queries@.map_values(qview).map_values(|q: QueryTuple| lower_tuple(q));
        proof {
            assert(lowered.take(queries@.len() as int) =~= lowered);
            assert(keys@.map_values(kview) =~= lowered);
        }
        sort_query_keys(&mut keys);
        proof {
            lemma_query_tuple_le_total_ordering();
            lowered.lemma_sort_by_ensures(leq);
            lemma_sorted_unique(keys@.map_values(kview), lowered.sort_by(leq), leq);
            assert(keys@.map_values(kview) =~= request_key_spec(queries@.map_values(qview)));
        }
        Ok(RequestKey { query_keys: keys })
    }

    /// Equality of keys, decided field by field.
    pub fn key_eq(&self, other: &RequestKey) -> (r: bool)
        ensures
            r == (self@ == other@),
    {
        let ghost kview = |k: RequestQueryKey| k@;
        if self.query_keys.len() != other.query_keys.len() {
            proof {
                assert(self@.len() != other@.len());
            }
            return false;
        }
        let mut i: usize = 0;
        while i < self.query_keys.len()
            invariant
                i <= self.query_keys@.len(),
                self.query_keys@.len() == other.query_keys@.len(),
                forall|j: int| 0 <= j < i ==> self@[j] == other@[j],
            decreases self.query_keys@.len() - i,
        {
            let a = &self.query_keys[i];
            let b = &other.query_keys[i];
            if !bytes_eq(&a.name, &b.name) || a.query_type != b.query_type || a.query_class
                != b.query_class {
                proof {
                    assert(self@[i as int] != other@[i as int]);
                }
                return false;
            }
            proof {
                assert(self@[i as int] =~= other@[i as int]);
            }
            i = i + 1;
        }
        proof {
            assert(self@ =~= other@);
        }
        true
    }

    /// The number of question tuples in the key.
    pub fn len(&self) -> (r: usize)
        ensures
            r == self@.len(),
    {
        self.query_keys.len()
    }
}

} // verus!
