//! The wire format. Messages are decoded and encoded by the trust-dns
//! crates; this module hands them datagrams and responses and says of the
//! outcome only that it is a function of what was handed in.

use vstd::prelude::*;
use trust_dns_proto::op::{Message, MessageType, Query as WireQuery, ResponseCode as WireCode};
use trust_dns_proto::rr::rdata::NULL;
use trust_dns_proto::rr::{Name, RData, Record, RecordType};
use trust_dns_proto::serialize::binary::{BinDecodable, BinDecoder};
use trust_dns_server::authority::MessageRequest;
use crate::message::{Question, Request, RequestView, Response, ResponseView};

verus! {

/// The number of bytes of a message header. No message is shorter.
pub const HEADER_LEN: usize = 12;

/// The largest number of bytes that a record's data can have on the wire.
pub const MAX_RDATA_LEN: usize = 65535;

/// The largest number of answer records that a message can count.
pub const MAX_ANSWERS: usize = 65535;

/// The request that a datagram decodes to, if it decodes.
pub uninterp spec fn wire_decoding(datagram: Seq<u8>) -> Option<RequestView>;

/// The bytes that a response encodes to, if it can be encoded.
pub uninterp spec fn wire_encoding(response: ResponseView) -> Option<Seq<u8>>;

/// Whether the answer records fit the wire format's count field, and the
/// data of each its length field.
pub open spec fn fits_wire(response: ResponseView) -> bool {
    &&& response.answers.len() <= MAX_ANSWERS
    &&& forall|i: int|
        0 <= i < response.answers.len() ==> (#[trigger] response.answers[i]).rdata.len()
            <= MAX_RDATA_LEN
}

/// `MessageRequest::read` of trust-dns-server, on a `BinDecoder` over the
/// datagram. The contract claims that what is read depends on the bytes
/// alone: the identifier, the recursion-desired flag and, for each question
/// in order, the name in ASCII form as the client spelled it and the code of
/// its type. A datagram that is refused gives `None`, and one that is
/// shorter than a header is refused: the header is read first, field by
/// field, and each read fails where the bytes run out.
#[verifier::external_body]
pub(crate) fn read_request(datagram: &[u8]) -> (out: Option<Request>)
    ensures
        match out {
            Some(request) => wire_decoding(datagram@) == Some(request@),
            None => wire_decoding(datagram@) is None,
        },
        datagram@.len() < HEADER_LEN ==> out is None,
{
    let mut decoder = BinDecoder::new(datagram);
    let request = MessageRequest::read(&mut decoder).ok()?;
    let questions = request.queries().iter().map(|q| Question {
        name: q.original().name().to_ascii(),
        record_type: u16::from(q.query_type()),
    }).collect();
    Some(Request { id: request.id(), recursion_desired: request.recursion_desired(), questions })
}

/// `Message::to_vec` of trust-dns-proto, on a response message made of the
/// fields of `response`, with `code` as the number of its response code.
/// The question goes in as a query for its name and type, and each answer
/// as a record of its name, type and time to live whose data are the given
/// bytes, all of the Internet class. The contract claims that the bytes
/// depend on the response alone. A name that the crate refuses, or a
/// message that it cannot encode, gives `None`.
#[verifier::external_body]
fn write_response(response: &Response, code: u8) -> (out: Option<Vec<u8>>)
    requires
        fits_wire(response@),
        code == response.code.number(),
    ensures
        match out {
            Some(bytes) => wire_encoding(response@) == Some(bytes@),
            None => wire_encoding(response@) is None,
        },
{
    let mut m = Message::new();
    m.set_id(response.id).set_message_type(MessageType::Response);
    m.set_recursion_desired(response.recursion_desired).set_recursion_available(response.recursion_available);
    m.set_authoritative(response.authoritative).set_response_code(WireCode::from(0, code));
    for q in response.question.iter() {
        m.add_query(WireQuery::query(Name::from_ascii(&q.name).ok()?, RecordType::from(q.record_type)));
    }
    for a in response.answers.iter() {
        let data = RData::Unknown { code: a.record_type, rdata: NULL::with(a.rdata.clone()) };
        m.add_answer(Record::from_rdata(Name::from_ascii(&a.name).ok()?, a.ttl, data));
    }
    m.to_vec().ok()
}

/// What `encode_response` gives for `response`: its encoding, unless there
/// are more answers than a message can count or an answer's data are too
/// long for a record.
pub open spec fn encoded(response: ResponseView) -> Option<Seq<u8>> {
    if fits_wire(response) {
        wire_encoding(response)
    } else {
        None
    }
}

/// Encodes a response. A response that cannot be encoded gives `None`.
pub fn encode_response(response: &Response) -> (out: Option<Vec<u8>>)
    ensures
        match out {
            Some(bytes) => encoded(response@) == Some(bytes@),
            None => encoded(response@) is None,
        },
{
    if response.answers.len() > MAX_ANSWERS {
        return None;
    }
    let mut i: usize = 0;
    while i < response.answers.len()
        invariant
            i <= response.answers.len() <= MAX_ANSWERS,
            forall|j: int|
                0 <= j < i ==> (#[trigger] response@.answers[j]).rdata.len() <= MAX_RDATA_LEN,
        decreases response.answers.len() - i,
    {
        if response.answers[i].rdata.len() > MAX_RDATA_LEN {
            assert(response@.answers[i as int].rdata.len() > MAX_RDATA_LEN);
            return None;
        }
        i = i + 1;
    }
    write_response(response, response.code.to_number())
}

} // verus!
