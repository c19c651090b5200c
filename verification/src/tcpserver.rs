//! The verified core of DNS-over-TCP framing.
//!
//! On TCP, each DNS message travels behind a two-byte big-endian length
//! prefix. The accept loop and the socket reads live outside the library;
//! these functions pin down what the bytes mean: how a received prefix is
//! read, and how a reply is framed — or refused, when it cannot fit.

use vstd::prelude::*;

verus! {

/// Reads a two-byte big-endian length prefix. A value of zero means the peer
/// is done and the connection closes.
pub fn parse_frame_length(high: u8, low: u8) -> (r: u16)
    ensures
        r == high as int * 256 + low as int,
{
    (high as u16) * 256 + (low as u16)
}

/// Frames a reply for TCP: the two-byte big-endian length, then the bytes.
/// A reply longer than 65535 bytes cannot be framed; the connection must
/// close instead.
#[verifier::loop_isolation(false)]
pub fn frame_tcp_response(reply: &Vec<u8>) -> (r: Option<Vec<u8>>)
    ensures
        r is Some <==> reply@.len() <= 65535,
        r matches Some(f) ==> f@.len() == reply@.len() + 2,
        r matches Some(f) ==> f@[0] == (reply@.len() as int / 256) as u8 && f@[1] == (
        reply@.len() as int % 256) as u8,
        r matches Some(f) ==> f@.skip(2) == reply@,
    {
    if reply.len() > 65535 {
        return None;
    }
    let length = reply.len() as u16;
    let mut framed: Vec<u8> = Vec::new();
    framed.push((length / 256) as u8);
    framed.push((length % 256) as u8);
    let mut i: usize = 0;
    while i < reply.len()
        invariant
            i <= reply@.len(),
            framed@.len() == i + 2,
            framed@[0] == (reply@.len() as int / 256) as u8,
            framed@[1] == (reply@.len() as int % 256) as u8,
            framed@.skip(2) =~= reply@.take(i as int),
        decreases reply@.len() - i,
    {
        framed.push(reply[i]);
        proof {
            assert(framed@.skip(2) =~= reply@.take(i as int + 1));
        }
        i = i + 1;
    }
    proof {
        assert(framed@.skip(2) =~= reply@);
    }
    Some(framed)
}

/// A framed response round-trips: the prefix read back off the frame is the
/// reply's length, and the body is the reply itself.
pub proof fn lemma_frame_round_trip(reply: Seq<u8>, framed: Seq<u8>)
    requires
        reply.len() <= 65535,
        framed.len() == reply.len() + 2,
        framed[0] == (reply.len() as int / 256) as u8,
        framed[1] == (reply.len() as int % 256) as u8,
        framed.skip(2) == reply,
    ensures
        framed[0] as int * 256 + framed[1] as int == reply.len(),
{
    let l = reply.len() as int;
    assert(l / 256 <= 255);
    assert(l == (l / 256) * 256 + l % 256) by (nonlinear_arith)
        requires 0 <= l;
}

} // verus!
