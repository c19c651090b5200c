//! Trusted boundary to the `trust-dns-proto` wire codec.
//!
//! A DNS message is carried through the pipeline as the opaque outside type
//! `trust_dns_proto::op::Message`. What the verified logic depends on — the
//! question tuples, each section's record TTLs, the answers' data, the header
//! scalars, the wire form, and whether the message encodes — is given
//! uninterpreted names here, gathered into [`MsgModel`], and every wrapper's
//! contract is stated over those names. Decoding and encoding are functions
//! of their argument alone, so their results are named too
//! ([`decoded_model_of`], [`msg_wire_of`], [`msg_encodable_of`]).

use vstd::prelude::*;

use std::str::FromStr;
use trust_dns_proto::error::ProtoError;
use trust_dns_proto::op::{Message, MessageType, Query, ResponseCode};
use trust_dns_proto::rr::rdata::{A, PTR};
use trust_dns_proto::rr::{Name, RData, Record, RecordType};

verus! {

/// The outside crate's DNS message, declared so it can stand in signatures
/// and fields; its contents are reached only through the names below.
#[verifier::external_type_specification]
#[verifier::external_body]
pub struct ExMessage(Message);

/// The outside crate's codec error, carried through and mapped to the
/// library's own errors by verified code.
#[verifier::external_type_specification]
#[verifier::external_body]
pub struct ExProtoError(ProtoError);

/// A question tuple as the library reads it off a message: the textual form of
/// the name (presentation format, case preserved), the record type code and
/// the class code.
pub type QueryTuple = (Seq<u8>, u16, u16);

/// The question tuples a message holds, in question-section order.
pub uninterp spec fn msg_queries_of(m: Message) -> Seq<QueryTuple>;

/// The TTLs of the answer section, in record order.
pub uninterp spec fn msg_answer_ttls_of(m: Message) -> Seq<u32>;

/// The TTLs of the name-server (authority) section, in record order.
pub uninterp spec fn msg_name_server_ttls_of(m: Message) -> Seq<u32>;

/// The TTLs of the additional section, in record order.
pub uninterp spec fn msg_additional_ttls_of(m: Message) -> Seq<u32>;

/// The data of each answer record, in record order, in presentation text
/// (what `RData`'s rendering shows: the dotted quad of an A record, the
/// target name of a PTR record).
pub uninterp spec fn msg_answer_rdata_text_of(m: Message) -> Seq<Seq<u8>>;

/// The transaction id in the message header.
pub uninterp spec fn msg_id_of(m: Message) -> u16;

/// The response code in the message header, as its numeric code.
pub uninterp spec fn msg_rcode_of(m: Message) -> u16;

/// Whether the header's message type is `Response`.
pub uninterp spec fn msg_is_response_of(m: Message) -> bool;

/// Whether the header's authoritative-answer flag is set.
pub uninterp spec fn msg_is_authoritative_of(m: Message) -> bool;

/// The wire form that encoding the message yields.
pub uninterp spec fn msg_wire_of(m: Message) -> Seq<u8>;

/// Whether every section count the encoder computes fits the wire's 16-bit
/// count fields; encoding a message without this aborts rather than erring.
pub uninterp spec fn msg_sections_bounded_of(m: Message) -> bool;

/// Whether encoding the message succeeds.
pub uninterp spec fn msg_encodable_of(m: Message) -> bool;

/// Whether a byte string decodes as a DNS message.
pub uninterp spec fn wire_ok(buffer: Seq<u8>) -> bool;

/// What a byte string decodes to: decoding is a function of the bytes alone,
/// so the decoded message's whole model is too (meaningful when
/// `wire_ok(buffer)` holds).
pub uninterp spec fn decoded_model_of(buffer: Seq<u8>) -> MsgModel;

/// Whether a byte string parses as a DNS name (`Name::from_str` on its UTF-8
/// reading succeeds).
pub uninterp spec fn dns_name_ok(name: Seq<u8>) -> bool;

/// The textual form that a parsed DNS name presents: the bytes of
/// `Name::from_str(name).to_string()`.
pub uninterp spec fn dns_name_text(name: Seq<u8>) -> Seq<u8>;

/// Everything the verified logic depends on of a message, gathered up.
pub ghost struct MsgModel {
    pub id: u16,
    pub response: bool,
    pub authoritative: bool,
    pub rcode: u16,
    pub queries: Seq<QueryTuple>,
    pub answer_ttls: Seq<u32>,
    pub name_server_ttls: Seq<u32>,
    pub additional_ttls: Seq<u32>,
    pub answer_rdata: Seq<Seq<u8>>,
    pub sections_bounded: bool,
    pub encodable: bool,
}

pub open spec fn msg_model(m: Message) -> MsgModel {
    MsgModel {
        id: msg_id_of(m),
        response: msg_is_response_of(m),
        authoritative: msg_is_authoritative_of(m),
        rcode: msg_rcode_of(m),
        queries: msg_queries_of(m),
        answer_ttls: msg_answer_ttls_of(m),
        name_server_ttls: msg_name_server_ttls_of(m),
        additional_ttls: msg_additional_ttls_of(m),
        answer_rdata: msg_answer_rdata_text_of(m),
        sections_bounded: msg_sections_bounded_of(m),
        encodable: msg_encodable_of(m),
    }
}

/// Relies on `Message::from_vec`: decoding is a deterministic, error-returning
/// parse of the bytes alone, and every section count it reads comes from a
/// 16-bit wire field, so a decoded message's sections stay within the
/// encoder's count bounds.
#[verifier::external_body]
pub fn decode_dns_message_slice(buffer: &[u8]) -> (r: Result<Message, ProtoError>)
    ensures
        r is Ok <==> wire_ok(buffer@),
        r matches Ok(m) ==> msg_model(m) == decoded_model_of(buffer@),
        r matches Ok(m) ==> msg_sections_bounded_of(m),
{
    Message::from_vec(buffer)
}

pub fn decode_dns_message_vec(buffer: Vec<u8>) -> (r: Result<Message, ProtoError>)
    ensures
        r is Ok <==> wire_ok(buffer@),
        r matches Ok(m) ==> msg_model(m) == decoded_model_of(buffer@),
        r matches Ok(m) ==> msg_sections_bounded_of(m),
{
    decode_dns_message_slice(buffer.as_slice())
}

/// Relies on `Message::to_vec`: encoding is a function of the message alone.
/// The encoder asserts that each section count fits 16 bits, so messages
/// without that bound are excluded here rather than risked.
#[verifier::external_body]
pub fn encode_dns_message(message: &Message) -> (r: Result<Vec<u8>, ProtoError>)
    requires
        msg_sections_bounded_of(*message),
    ensures
        r is Ok <==> msg_encodable_of(*message),
        r matches Ok(buffer) ==> buffer@ == msg_wire_of(*message),
{
    message.to_vec()
}

/// Relies on `Message::id`.
#[verifier::external_body]
pub(crate) fn msg_id(message: &Message) -> (r: u16)
    ensures
        r == msg_id_of(*message),
{
    message.id()
}

/// Relies on `Message::set_id`: it rewrites the header id and nothing else,
/// so every other reading of the message — and whether it encodes — is kept.
#[verifier::external_body]
pub(crate) fn msg_set_id(message: &mut Message, id: u16)
    ensures
        msg_model(*final(message)) == (MsgModel { id, ..msg_model(*old(message)) }),
{
    message.set_id(id);
}

/// Relies on `Message::response_code` and `u16::from(ResponseCode)`.
#[verifier::external_body]
pub(crate) fn msg_response_code(message: &Message) -> (r: u16)
    ensures
        r == msg_rcode_of(*message),
{
    u16::from(message.response_code())
}

/// Relies on `Message::set_response_code`: `ServFail` is code 2; only the
/// header's response code changes, so everything else — and whether the
/// message encodes — is kept.
#[verifier::external_body]
pub(crate) fn msg_set_response_code_servfail(message: &mut Message)
    ensures
        msg_model(*final(message)) == (MsgModel { rcode: 2u16, ..msg_model(*old(message)) }),
{
    message.set_response_code(ResponseCode::ServFail);
}

/// Relies on `Message::set_message_type`: only the header's type bit changes,
/// so everything else — and whether the message encodes — is kept.
#[verifier::external_body]
pub(crate) fn msg_set_message_type_response(message: &mut Message)
    ensures
        msg_is_response_of(*final(message)),
        msg_model(*final(message)) == (MsgModel { response: true, ..msg_model(*old(message)) }),
{
    message.set_message_type(MessageType::Response);
}

/// Relies on the derived `Message::clone`, which copies every field, so every
/// reading of the copy — its model and its wire form — equals the original's.
#[verifier::external_body]
pub(crate) fn msg_clone(message: &Message) -> (r: Message)
    ensures
        msg_model(r) == msg_model(*message),
        msg_wire_of(r) == msg_wire_of(*message),
{
    message.clone()
}

/// Relies on `Message::queries`, `Query::name`, `Query::query_type` and
/// `Query::query_class`: the question tuples, names in presentation form.
#[verifier::external_body]
pub(crate) fn msg_queries(message: &Message) -> (r: Vec<(Vec<u8>, u16, u16)>)
    ensures
        r@.map_values(|q: (Vec<u8>, u16, u16)| (q.0@, q.1, q.2)) == msg_queries_of(*message),
{
    message
        .queries()
        .iter()
        .map(|q| {
            (
                q.name().to_string().into_bytes(),
                u16::from(q.query_type()),
                u16::from(q.query_class()),
            )
        })
        .collect()
}

/// Relies on `Message::answers` and `Record::ttl`.
#[verifier::external_body]
pub(crate) fn msg_answer_ttls(message: &Message) -> (r: Vec<u32>)
    ensures
        r@ == msg_answer_ttls_of(*message),
{
    message.answers().iter().map(|rec| rec.ttl()).collect()
}

/// Relies on `Message::name_servers` and `Record::ttl`.
#[verifier::external_body]
pub(crate) fn msg_name_server_ttls(message: &Message) -> (r: Vec<u32>)
    ensures
        r@ == msg_name_server_ttls_of(*message),
{
    message.name_servers().iter().map(|rec| rec.ttl()).collect()
}

/// Relies on `Message::additionals` and `Record::ttl`.
#[verifier::external_body]
pub(crate) fn msg_additional_ttls(message: &Message) -> (r: Vec<u32>)
    ensures
        r@ == msg_additional_ttls_of(*message),
{
    message.additionals().iter().map(|rec| rec.ttl()).collect()
}

/// Relies on `Message::take_answers`, `Record::set_ttl` and
/// `Message::add_answer`: each answer record gets the TTL at its position and
/// is put back in order; a record's data, and everything else of the message,
/// is kept, so only the answer TTLs change.
#[verifier::external_body]
pub(crate) fn msg_set_answer_ttls(message: &mut Message, ttls: &Vec<u32>)
    requires
        ttls@.len() == msg_answer_ttls_of(*old(message)).len(),
    ensures
        msg_model(*final(message)) == (MsgModel {
            answer_ttls: ttls@,
            ..msg_model(*old(message))
        }),
{
    for (mut rec, ttl) in message.take_answers().into_iter().zip(ttls.iter()) {
        rec.set_ttl(*ttl);
        message.add_answer(rec);
    }
}

/// Relies on `Message::take_name_servers`, `Record::set_ttl` and
/// `Message::add_name_server`; as for the answer section.
#[verifier::external_body]
pub(crate) fn msg_set_name_server_ttls(message: &mut Message, ttls: &Vec<u32>)
    requires
        ttls@.len() == msg_name_server_ttls_of(*old(message)).len(),
    ensures
        msg_model(*final(message)) == (MsgModel {
            name_server_ttls: ttls@,
            ..msg_model(*old(message))
        }),
{
    for (mut rec, ttl) in message.take_name_servers().into_iter().zip(ttls.iter()) {
        rec.set_ttl(*ttl);
        message.add_name_server(rec);
    }
}

/// Relies on `Message::take_additionals`, `Record::set_ttl` and
/// `Message::add_additional`; as for the answer section.
#[verifier::external_body]
pub(crate) fn msg_set_additional_ttls(message: &mut Message, ttls: &Vec<u32>)
    requires
        ttls@.len() == msg_additional_ttls_of(*old(message)).len(),
    ensures
        msg_model(*final(message)) == (MsgModel {
            additional_ttls: ttls@,
            ..msg_model(*old(message))
        }),
{
    for (mut rec, ttl) in message.take_additionals().into_iter().zip(ttls.iter()) {
        rec.set_ttl(*ttl);
        message.add_additional(rec);
    }
}

/// The model of a freshly built local-zone response: an authoritative
/// `NoError` reply under id 0, echoing one query, with a single answer record
/// carrying the given data. A message this small always encodes.
pub open spec fn local_response_model(query: QueryTuple, rdata_text: Seq<u8>, ttl_seconds: u32) -> MsgModel {
    MsgModel {
        id: 0u16,
        response: true,
        authoritative: true,
        rcode: 0u16,
        queries: seq![query],
        answer_ttls: seq![ttl_seconds],
        name_server_ttls: Seq::<u32>::empty(),
        additional_ttls: Seq::<u32>::empty(),
        answer_rdata: seq![rdata_text],
        sections_bounded: true,
        encodable: true,
    }
}

/// Relies on `Name::from_str`, `Query::query`, `Record::from_rdata` and the
/// `Message` setters: an authoritative `NoError` response holding the query
/// `(name, A, IN)` and one A record with the given address and TTL. `A` is
/// type code 1, `IN` is class code 1; the A record's data renders as the
/// canonical dotted quad of its octets. One query and one answer always emit:
/// a parsed name's labels are within the wire's bounds.
#[verifier::external_body]
pub(crate) fn build_a_response(name: &Vec<u8>, octets: [u8; 4], ttl_seconds: u32) -> (r: Option<Message>)
    ensures
        r is Some <==> dns_name_ok(name@),
        r matches Some(m) ==> msg_is_authoritative_of(m),
        r matches Some(m) ==> msg_answer_rdata_text_of(m) == seq![crate::localdomain::ipv4_text(octets[0], octets[1], octets[2], octets[3])],
        r matches Some(m) ==> msg_model(m) == local_response_model((dns_name_text(name@), 1u16, 1u16), crate::localdomain::ipv4_text(octets[0], octets[1], octets[2], octets[3]), ttl_seconds),
{
    let text = std::str::from_utf8(name).ok()?;
    let parsed = Name::from_str(text).ok()?;
    let mut message = Message::new();
    message.set_message_type(MessageType::Response);
    message.set_response_code(ResponseCode::NoError);
    message.set_authoritative(true);
    message.add_query(Query::query(parsed.clone(), RecordType::A));
    let rdata = RData::A(A::new(octets[0], octets[1], octets[2], octets[3]));
    message.add_answer(Record::from_rdata(parsed, ttl_seconds, rdata));
    Some(message)
}

/// Relies on the same builders as `build_a_response`: an authoritative
/// `NoError` response holding the query `(reverse_name, PTR, IN)` and one PTR
/// record pointing at `target_name`. `PTR` is type code 12; the PTR record's
/// data renders as the target name's presentation text.
#[verifier::external_body]
pub(crate) fn build_ptr_response(reverse_name: &Vec<u8>, target_name: &Vec<u8>, ttl_seconds: u32) -> (r: Option<Message>)
    ensures
        r is Some <==> (dns_name_ok(reverse_name@) && dns_name_ok(target_name@)),
        r matches Some(m) ==> msg_model(m) == local_response_model((dns_name_text(reverse_name@), 12u16, 1u16), dns_name_text(target_name@), ttl_seconds),
{
    let reverse = Name::from_str(std::str::from_utf8(reverse_name).ok()?).ok()?;
    let target = Name::from_str(std::str::from_utf8(target_name).ok()?).ok()?;
    let mut message = Message::new();
    message.set_message_type(MessageType::Response);
    message.set_response_code(ResponseCode::NoError);
    message.set_authoritative(true);
    message.add_query(Query::query(reverse.clone(), RecordType::PTR));
    message.add_answer(Record::from_rdata(reverse, ttl_seconds, RData::PTR(PTR(target))));
    Some(message)
}

} // verus!
