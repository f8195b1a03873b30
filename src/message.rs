//! HTTP message heads and the policy that decides when a message is complete.
use vstd::prelude::*;
use vstd::string::StringSliceAdditionalSpecFns;
use vstd::utf8::{decode_utf8, valid_utf8};

verus! {

/// Whether a message travels from client to server or back.
#[derive(Clone, Copy, Debug, PartialEq, Eq, Structural)]
pub enum HttpPacketType {
    Request,
    Response,
}

/// One header line: its name and its raw value.
#[derive(Clone, Debug)]
pub struct HeaderField {
    pub name: Vec<u8>,
    pub value: Vec<u8>,
}

/// The value of the first header named exactly `name`; `None` where there is
/// none, or where its value is not UTF-8.
pub open spec fn header_named(headers: Seq<HeaderField>, name: Seq<u8>) -> Option<Seq<u8>>
    decreases headers.len(),
{
    if headers.len() == 0 {
        None
    } else if headers[0].name@ == name {
        if valid_utf8(headers[0].value@) {
            Some(headers[0].value@)
        } else {
            None
        }
    } else {
        header_named(headers.drop_first(), name)
    }
}

/// Header names and the chunked token, as bytes.
pub open spec fn content_length_name() -> Seq<u8> {
    "Content-Length".spec_bytes()
}

pub open spec fn transfer_encoding_name() -> Seq<u8> {
    "Transfer-Encoding".spec_bytes()
}

pub open spec fn content_type_name() -> Seq<u8> {
    "Content-Type".spec_bytes()
}

pub open spec fn content_encoding_name() -> Seq<u8> {
    "Content-Encoding".spec_bytes()
}

pub open spec fn chunked_token() -> Seq<u8> {
    "chunked".spec_bytes()
}

pub open spec fn is_decimal_digit(b: u8) -> bool {
    0x30 <= b <= 0x39
}

/// The number written by a run of decimal digits.
pub open spec fn decimal_value(t: Seq<u8>) -> nat
    decreases t.len(),
{
    if t.len() == 0 {
        0
    } else {
        decimal_value(t.drop_last()) * 10 + (t.last() - 0x30) as nat
    }
}

/// Whether `v` is a non-empty run of decimal digits that writes `n`.
pub open spec fn states_length(v: Seq<u8>, n: nat) -> bool {
    &&& v.len() > 0
    &&& forall|i: int| 0 <= i < v.len() ==> is_decimal_digit(#[trigger] v[i])
    &&& decimal_value(v) == n
}

/// Whether a body ends with the last chunk `0\r\n\r\n`.
pub open spec fn ends_with_last_chunk(body: Seq<u8>) -> bool {
    body.len() >= 5 && body.subrange(body.len() - 5, body.len() as int) == seq![
        0x30u8,
        0x0du8,
        0x0au8,
        0x0du8,
        0x0au8,
    ]
}

/// Whether the body after a parsed head is all of the message.
/// Without `Content-Length` and `Transfer-Encoding` a request ends with its
/// head and a response with the connection; otherwise the body must have
/// exactly the stated length, or end with the last chunk of a chunked body.
pub open spec fn message_complete(
    body: Seq<u8>,
    headers: Seq<HeaderField>,
    kind: HttpPacketType,
    is_fin: bool,
) -> bool {
    let length = header_named(headers, content_length_name());
    let coding = header_named(headers, transfer_encoding_name());
    if length is None && coding is None {
        kind == HttpPacketType::Request || is_fin
    } else {
        ||| (length is Some && states_length(length.unwrap(), body.len()))
        ||| (coding == Some(chunked_token()) && ends_with_last_chunk(body))
    }
}

/// Relies on String::from_utf8: it succeeds exactly on valid UTF-8 and keeps
/// the text.
#[verifier::external_body]
pub(crate) fn utf8_text(b: &[u8]) -> (r: Option<String>)
    ensures
        match r {
            Some(t) => valid_utf8(b@) && t@ == decode_utf8(b@),
            None => !valid_utf8(b@),
        },
{
    String::from_utf8(b.to_vec()).ok()
}

/// Whether two byte strings are equal.
pub fn bytes_equal(a: &[u8], b: &[u8]) -> (r: bool)
    ensures
        r == (a@ == b@),
{
    if a.len() != b.len() {
        return false;
    }
    let mut i: usize = 0;
    while i < a.len()
        invariant
            a@.len() == b@.len(),
            i <= a@.len(),
            forall|j: int| 0 <= j < i ==> a@[j] == b@[j],
        decreases a@.len() - i,
    {
        if a[i] != b[i] {
            return false;
        }
        i = i + 1;
    }
    assert(a@ =~= b@);
    true
}

/// The value of the first header named `name`.
pub fn get_header_value<'a>(name: &[u8], headers: &'a [HeaderField]) -> (r: Option<&'a Vec<u8>>)
    ensures
        match r {
            Some(v) => header_named(headers@, name@) == Some(v@) && valid_utf8(v@),
            None => header_named(headers@, name@) is None,
        },
{
    let mut i: usize = 0;
    assert(headers@.subrange(0, headers@.len() as int) =~= headers@);
    while i < headers.len()
        invariant
            i <= headers@.len(),
            header_named(headers@, name@) == header_named(headers@.subrange(i as int, headers@.len() as int), name@),
        decreases headers@.len() - i,
    {
        let ghost rest = headers@.subrange(i as int, headers@.len() as int);
        assert(rest.drop_first() =~= headers@.subrange(i + 1, headers@.len() as int));
        if bytes_equal(headers[i].name.as_slice(), name) {
            if utf8_text(headers[i].value.as_slice()).is_some() {
                return Some(&headers[i].value);
            }
            return None;
        }
        i = i + 1;
    }
    None
}

proof fn lemma_decimal_prefix_le(t: Seq<u8>, k: int)
    requires
        0 <= k <= t.len(),
        forall|i: int| 0 <= i < t.len() ==> is_decimal_digit(#[trigger] t[i]),
    ensures
        decimal_value(t.subrange(0, k)) <= decimal_value(t),
    decreases t.len(),
{
    if k < t.len() {
        lemma_decimal_prefix_le(t.drop_last(), k);
        assert(t.drop_last().subrange(0, k) =~= t.subrange(0, k));
    } else {
        assert(t.subrange(0, k) =~= t);
    }
}

/// Whether `v` is a run of decimal digits that writes `n`.
pub fn length_equals(v: &[u8], n: usize) -> (r: bool)
    ensures
        r == states_length(v@, n as nat),
{
    if v.len() == 0 {
        return false;
    }
    let mut acc: u128 = 0;
    let mut i: usize = 0;
    while i < v.len()
        invariant
            i <= v@.len(),
            acc <= n,
            forall|j: int| 0 <= j < i ==> is_decimal_digit(#[trigger] v@[j]),
            acc == decimal_value(v@.subrange(0, i as int)),
        decreases v@.len() - i,
    {
        let b = v[i];
        if b < 0x30 || b > 0x39 {
            return false;
        }
        assert(v@.subrange(0, i + 1).drop_last() =~= v@.subrange(0, i as int));
        acc = acc * 10 + (b - 0x30) as u128;
        i = i + 1;
        if acc > n as u128 {
            proof {
                if forall|j: int| 0 <= j < v@.len() ==> is_decimal_digit(#[trigger] v@[j]) {
                    lemma_decimal_prefix_le(v@, i as int);
                }
            }
            return false;
        }
    }
    assert(v@.subrange(0, i as int) =~= v@);
    acc == n as u128
}

/// Whether `body` ends with the last chunk `0\r\n\r\n`.
pub fn has_last_chunk(body: &[u8]) -> (r: bool)
    ensures
        r == ends_with_last_chunk(body@),
{
    let n = body.len();
    if n < 5 {
        return false;
    }
    let r = body[n - 5] == 0x30 && body[n - 4] == 0x0d && body[n - 3] == 0x0a && body[n - 2]
        == 0x0d && body[n - 1] == 0x0a;
    assert(r == (body@.subrange(n - 5, n as int) =~= seq![0x30u8, 0x0du8, 0x0au8, 0x0du8, 0x0au8]));
    r
}

/// Whether the body that follows a parsed head completes the message.
pub fn packet_is_ended(
    payload: &[u8],
    headers: &[HeaderField],
    http_type: HttpPacketType,
    is_fin_set: bool,
) -> (r: bool)
    ensures
        r == message_complete(payload@, headers@, http_type, is_fin_set),
{
    let length = get_header_value("Content-Length".as_bytes(), headers);
    let coding = get_header_value("Transfer-Encoding".as_bytes(), headers);
    if length.is_none() && coding.is_none() {
        return match http_type {
            HttpPacketType::Request => true,
            HttpPacketType::Response => is_fin_set,
        };
    }
    if let Some(v) = length {
        if length_equals(v.as_slice(), payload.len()) {
            return true;
        }
    }
    if let Some(c) = coding {
        if bytes_equal(c.as_slice(), "chunked".as_bytes()) {
            return has_last_chunk(payload);
        }
    }
    false
}

} // verus!
