//! The HTTP reassembler: accumulates a flow's segments until a whole message
//! is buffered, then decodes it.
use vstd::prelude::*;
use crate::content::{body_content, parse_http_payload, HttpContentType};
use crate::flow::{append_bytes, FlowKey, FlowTable};
use crate::message::{
    content_length_name, header_named, message_complete, packet_is_ended, states_length,
    transfer_encoding_name, HeaderField, HttpPacketType,
};

verus! {

/// The request line of a request, and its headers.
#[derive(Clone, Debug)]
pub struct RequestHead {
    pub method: Option<String>,
    pub path: Option<String>,
    pub version: Option<u8>,
    pub headers: Vec<HeaderField>,
}

/// The status line of a response, and its headers.
#[derive(Clone, Debug)]
pub struct ResponseHead {
    pub version: Option<u8>,
    pub code: Option<u16>,
    pub reason: Option<String>,
    pub headers: Vec<HeaderField>,
}

/// What parsing a message head from the start of a buffer gives.
#[derive(Clone, Debug)]
pub enum HeadParse<H> {
    /// More bytes are needed.
    Partial,
    /// The bytes are no valid head.
    Invalid,
    /// The head, and the offset at which the body starts.
    Complete(H, usize),
}

/// What httparse makes of a buffer read as a request.
pub uninterp spec fn request_head_of(b: Seq<u8>) -> HeadParse<RequestHead>;

/// What httparse makes of a buffer read as a response.
pub uninterp spec fn response_head_of(b: Seq<u8>) -> HeadParse<ResponseHead>;

/// Relies on httparse::Request::parse with room for 1024 headers: the parsed
/// head, and on success the offset of the body within the buffer.
#[verifier::external_body]
fn parse_request_head(buf: &[u8]) -> (r: HeadParse<RequestHead>)
    ensures
        r == request_head_of(buf@),
        r matches HeadParse::Complete(_, n) ==> n <= buf@.len(),
{
    let mut hs = [httparse::EMPTY_HEADER; 1024];
    let mut req = httparse::Request::new(&mut hs);
    match req.parse(buf) {
        Ok(httparse::Status::Complete(n)) => HeadParse::Complete(RequestHead {
            method: req.method.map(String::from),
            path: req.path.map(String::from),
            version: req.version,
            headers: req.headers.iter().map(|h| HeaderField { name: h.name.as_bytes().to_vec(), value: h.value.to_vec() }).collect(),
        }, n),
        Ok(httparse::Status::Partial) => HeadParse::Partial,
        Err(_) => HeadParse::Invalid,
    }
}

/// Relies on httparse::Response::parse with room for 1024 headers: the parsed
/// head, and on success the offset of the body within the buffer.
#[verifier::external_body]
fn parse_response_head(buf: &[u8]) -> (r: HeadParse<ResponseHead>)
    ensures
        r == response_head_of(buf@),
        r matches HeadParse::Complete(_, n) ==> n <= buf@.len(),
{
    let mut hs = [httparse::EMPTY_HEADER; 1024];
    let mut resp = httparse::Response::new(&mut hs);
    match resp.parse(buf) {
        Ok(httparse::Status::Complete(n)) => HeadParse::Complete(ResponseHead {
            version: resp.version,
            code: resp.code,
            reason: resp.reason.map(String::from),
            headers: resp.headers.iter().map(|h| HeaderField { name: h.name.as_bytes().to_vec(), value: h.value.to_vec() }).collect(),
        }, n),
        Ok(httparse::Status::Partial) => HeadParse::Partial,
        Err(_) => HeadParse::Invalid,
    }
}

/// A finished HTTP message with its classified body.
#[derive(Clone, Debug)]
pub enum HttpMessage {
    Request(RequestHead, HttpContentType),
    Response(ResponseHead, HttpContentType),
}

/// The bytes a flow holds once `packet` is added to what it had buffered.
pub open spec fn pending(t: Map<FlowKey, Seq<u8>>, key: FlowKey, packet: Seq<u8>) -> Seq<u8> {
    (if t.contains_key(key) { t[key] } else { Seq::empty() }) + packet
}

/// The offset of the body, where `buf` holds a whole message of this kind.
pub open spec fn completed_at(buf: Seq<u8>, kind: HttpPacketType, is_fin: bool) -> Option<nat> {
    match kind {
        HttpPacketType::Request => match request_head_of(buf) {
            HeadParse::Complete(h, n) => if n <= buf.len() && message_complete(
                buf.subrange(n as int, buf.len() as int),
                h.headers@,
                kind,
                is_fin,
            ) {
                Some(n as nat)
            } else {
                None
            },
            _ => None,
        },
        HttpPacketType::Response => match response_head_of(buf) {
            HeadParse::Complete(h, n) => if n <= buf.len() && message_complete(
                buf.subrange(n as int, buf.len() as int),
                h.headers@,
                kind,
                is_fin,
            ) {
                Some(n as nat)
            } else {
                None
            },
            _ => None,
        },
    }
}

/// Whether `m` is the message of kind `kind` that a complete buffer `buf`
/// holds.
pub open spec fn message_of(m: HttpMessage, buf: Seq<u8>, kind: HttpPacketType) -> bool {
    match m {
        HttpMessage::Request(h, c) => kind == HttpPacketType::Request && (request_head_of(buf) matches HeadParse::Complete(h2, n) && h
            == h2 && c@ == body_content(buf.subrange(n as int, buf.len() as int), h.headers@)),
        HttpMessage::Response(h, c) => kind == HttpPacketType::Response && (response_head_of(buf) matches HeadParse::Complete(h2, n)
            && h == h2 && c@ == body_content(buf.subrange(n as int, buf.len() as int), h.headers@)),
    }
}

/// Adds a segment to the flow's buffer. Once the buffer holds a whole message
/// of kind `http_type`, returns it decoded and drops the buffer; until then
/// keeps the buffer and returns `None`.
pub fn handle_http_packet(
    table: &mut FlowTable,
    key: FlowKey,
    http_type: HttpPacketType,
    is_fin: bool,
    packet: &[u8],
) -> (r: Option<HttpMessage>)
    requires
        old(table).wf(),
    ensures
        final(table).wf(),
        ({
            let buf = pending(old(table)@, key, packet@);
            match completed_at(buf, http_type, is_fin) {
                Some(_) => {
                    &&& final(table)@ == old(table)@.remove(key)
                    &&& r matches Some(m) && message_of(m, buf, http_type)
                },
                None => r is None && final(table)@ == old(table)@.insert(key, buf),
            }
        }),
{
    let ghost t0 = table@;
    let mut buf = table.take(&key);
    append_bytes(&mut buf, packet);
    assert(t0.remove(key).insert(key, buf@) =~= t0.insert(key, buf@));
    match http_type {
        HttpPacketType::Request => {
            if let HeadParse::Complete(h, n) = parse_request_head(buf.as_slice()) {
                let body = vstd::slice::slice_subrange(buf.as_slice(), n, buf.len());
                if packet_is_ended(body, h.headers.as_slice(), http_type, is_fin) {
                    let c = parse_http_payload(body, h.headers.as_slice());
                    return Some(HttpMessage::Request(h, c));
                }
            }
        },
        HttpPacketType::Response => {
            if let HeadParse::Complete(h, n) = parse_response_head(buf.as_slice()) {
                let body = vstd::slice::slice_subrange(buf.as_slice(), n, buf.len());
                if packet_is_ended(body, h.headers.as_slice(), http_type, is_fin) {
                    let c = parse_http_payload(body, h.headers.as_slice());
                    return Some(HttpMessage::Response(h, c));
                }
            }
        },
    }
    table.put(key, buf);
    None
}

} // verus!

verus! {

/// A request without `Content-Length` and `Transfer-Encoding` is complete as
/// soon as its head parses, whether or not the connection is closing.
pub proof fn request_without_framing_completes(buf: Seq<u8>, is_fin: bool)
    requires
        request_head_of(buf) is Complete,
        request_head_of(buf)->Complete_1 <= buf.len(),
        header_named(request_head_of(buf)->Complete_0.headers@, content_length_name()) is None,
        header_named(request_head_of(buf)->Complete_0.headers@, transfer_encoding_name()) is None,
    ensures
        completed_at(buf, HttpPacketType::Request, is_fin) is Some,
{
}

/// A response without `Content-Length` and `Transfer-Encoding` is complete
/// exactly when the connection is closing.
pub proof fn response_without_framing_completes_on_fin(buf: Seq<u8>, is_fin: bool)
    requires
        response_head_of(buf) is Complete,
        response_head_of(buf)->Complete_1 <= buf.len(),
        header_named(response_head_of(buf)->Complete_0.headers@, content_length_name()) is None,
        header_named(response_head_of(buf)->Complete_0.headers@, transfer_encoding_name()) is None,
    ensures
        completed_at(buf, HttpPacketType::Response, is_fin) is Some <==> is_fin,
{
}

/// With `Content-Length: n` and no `Transfer-Encoding`, a message is complete
/// exactly when its body holds `n` bytes: one byte fewer or more is not.
pub proof fn content_length_completes_exactly(
    body: Seq<u8>,
    headers: Seq<HeaderField>,
    kind: HttpPacketType,
    is_fin: bool,
    n: nat,
)
    requires
        header_named(headers, content_length_name()) matches Some(v) && states_length(v, n),
        header_named(headers, transfer_encoding_name()) is None,
    ensures
        message_complete(body, headers, kind, is_fin) <==> body.len() == n,
{
}

/// Once a flow's buffer is dropped (its message was completed), the next
/// segment of that flow starts a new buffer: nothing of the earlier message
/// is left in it.
pub proof fn evicted_flow_starts_fresh(t: Map<FlowKey, Seq<u8>>, key: FlowKey, packet: Seq<u8>)
    ensures
        pending(t.remove(key), key, packet) == packet,
{
    assert(Seq::<u8>::empty() + packet =~= packet);
}

} // verus!
