//! The TLS reassembler: peels whole records off the front of a flow's buffer.
use vstd::prelude::*;
use crate::content::copy_range;
use crate::flow::{append_bytes, FlowKey, FlowTable};
use crate::http::pending;

verus! {

/// The largest record body that a TLS record header may announce.
pub const MAX_RECORD_LEN: u16 = 16384;

/// The record type of encrypted application data.
pub const APPLICATION_DATA: u8 = 0x17;

/// What the 5-byte header at the start of a buffer announces.
#[derive(Clone, Copy, Debug, PartialEq, Eq, Structural)]
pub enum RecordFrame {
    /// The header or the body is not all buffered yet.
    Incomplete,
    /// The announced length is over the limit.
    Malformed,
    /// A whole record: type, version and body length.
    Record(u8, u16, u16),
}

/// Whether a byte is a TLS content type: change-cipher-spec, alert,
/// handshake, application data or heartbeat.
pub open spec fn is_content_type(b: u8) -> bool {
    0x14 <= b <= 0x18
}

/// A big-endian 16-bit number.
pub open spec fn be16(hi: u8, lo: u8) -> nat {
    hi as nat * 256 + lo as nat
}

/// The framing of the record at the start of `b`: type byte, version, body
/// length, then the body.
pub open spec fn record_frame(b: Seq<u8>) -> RecordFrame {
    if b.len() < 5 {
        RecordFrame::Incomplete
    } else if be16(b[3], b[4]) > MAX_RECORD_LEN {
        RecordFrame::Malformed
    } else if b.len() < 5 + be16(b[3], b[4]) {
        RecordFrame::Incomplete
    } else {
        RecordFrame::Record(b[0], be16(b[1], b[2]) as u16, be16(b[3], b[4]) as u16)
    }
}

/// Relies on tls_parser::parse_tls_raw_record: a 5-byte header read with
/// nom's streaming parsers, a length check against MAX_RECORD_LEN, then the
/// body.
#[verifier::external_body]
fn raw_record(b: &[u8]) -> (r: RecordFrame)
    ensures
        r == record_frame(b@),
{
    match tls_parser::parse_tls_raw_record(b) {
        Ok((_, rec)) => RecordFrame::Record(rec.hdr.record_type.0, rec.hdr.version.0, rec.hdr.len),
        Err(tls_parser::nom::Err::Incomplete(_)) => RecordFrame::Incomplete,
        Err(_) => RecordFrame::Malformed,
    }
}

/// Relies on tls_parser::parse_tls_encrypted: the same framing as a raw
/// record, the body kept as an opaque blob.
#[verifier::external_body]
fn encrypted_record(b: &[u8]) -> (r: RecordFrame)
    ensures
        r == record_frame(b@),
{
    match tls_parser::parse_tls_encrypted(b) {
        Ok((_, rec)) => RecordFrame::Record(rec.hdr.record_type.0, rec.hdr.version.0, rec.hdr.len),
        Err(tls_parser::nom::Err::Incomplete(_)) => RecordFrame::Incomplete,
        Err(_) => RecordFrame::Malformed,
    }
}

/// What parsing the body of a plaintext record gives.
#[derive(Clone, Debug)]
pub enum RecordMessages {
    /// Its messages, each in its debug rendering.
    Parsed(Vec<String>),
    /// The body needs more bytes.
    Incomplete,
    /// The body is no valid content of its type.
    Malformed,
}

/// What tls_parser makes of a plaintext record body.
pub uninterp spec fn record_messages(record_type: u8, version: u16, data: Seq<u8>) -> RecordMessages;

/// Relies on tls_parser::parse_tls_record_with_header: the messages of a
/// plaintext record body of the given type and version.
#[verifier::external_body]
fn parse_record_messages(record_type: u8, version: u16, data: &[u8]) -> (r: RecordMessages)
    requires
        data@.len() <= MAX_RECORD_LEN,
    ensures
        r == record_messages(record_type, version, data@),
{
    let hdr = tls_parser::TlsRecordHeader {
        record_type: tls_parser::TlsRecordType(record_type),
        version: tls_parser::TlsVersion(version),
        len: data.len() as u16,
    };
    match tls_parser::parse_tls_record_with_header(data, &hdr) {
        Ok((_, msgs)) => RecordMessages::Parsed(msgs.iter().map(|m| format!("{:?}", m)).collect()),
        Err(tls_parser::nom::Err::Incomplete(_)) => RecordMessages::Incomplete,
        Err(_) => RecordMessages::Malformed,
    }
}

/// What the reassembler reports of a flow.
#[derive(Clone, Debug)]
pub enum TlsReport {
    /// An encrypted application-data record.
    Encrypted { version: u16, record_type: u8, len: u16 },
    /// One message of a plaintext record.
    Message { version: u16, record_type: u8, len: u16, index: usize, text: String },
    /// Broken framing: the flow was dropped.
    Malformed,
}

/// The reports of the messages of one plaintext record.
pub open spec fn message_reports(t: u8, v: u16, len: u16, msgs: Seq<String>) -> Seq<TlsReport> {
    Seq::new(
        msgs.len(),
        |i: int| TlsReport::Message { version: v, record_type: t, len, index: i as usize, text: msgs[i] },
    )
}

/// What the reassembler reports of a buffer, and the buffer it keeps (`None`
/// where the flow is dropped). Whole records are peeled off the front; an
/// incomplete one is kept for the next segment; a broken one drops the flow,
/// and so does a front byte that is no content type, however few bytes are
/// buffered; so does a record that leaves nothing behind.
pub open spec fn tls_run(b: Seq<u8>) -> (Seq<TlsReport>, Option<Seq<u8>>)
    decreases b.len(),
{
    if b.len() > 0 && !is_content_type(b[0]) {
        (seq![TlsReport::Malformed], None)
    } else {
    match record_frame(b) {
        RecordFrame::Incomplete => (Seq::empty(), Some(b)),
        RecordFrame::Malformed => (seq![TlsReport::Malformed], None),
        RecordFrame::Record(t, v, len) => {
            let used = 5 + len;
            let rest = b.subrange(used as int, b.len() as int);
            let head = if t == APPLICATION_DATA {
                Some(seq![TlsReport::Encrypted { version: v, record_type: t, len }])
            } else {
                match record_messages(t, v, b.subrange(5, used as int)) {
                    RecordMessages::Parsed(ms) => Some(message_reports(t, v, len, ms@)),
                    _ => None,
                }
            };
            match head {
                None => if record_messages(t, v, b.subrange(5, used as int)) is Incomplete {
                    (Seq::empty(), Some(b))
                } else {
                    (seq![TlsReport::Malformed], None)
                },
                Some(h) => if rest.len() == 0 {
                    (h, None)
                } else {
                    let (rs, keep) = tls_run(rest);
                    (h + rs, keep)
                },
            }
        },
    }
    }
}

fn push_message_reports(out: &mut Vec<TlsReport>, t: u8, v: u16, len: u16, ms: &Vec<String>)
    ensures
        final(out)@ == old(out)@ + message_reports(t, v, len, ms@),
{
    let ghost before = out@;
    let mut i: usize = 0;
    while i < ms.len()
        invariant
            i <= ms@.len(),
            out@ == before + message_reports(t, v, len, ms@).subrange(0, i as int),
        decreases ms@.len() - i,
    {
        out.push(TlsReport::Message { version: v, record_type: t, len, index: i, text: ms[i].clone() });
        i = i + 1;
        assert(out@ =~= before + message_reports(t, v, len, ms@).subrange(0, i as int));
    }
    assert(message_reports(t, v, len, ms@).subrange(0, i as int) =~= message_reports(t, v, len, ms@));
}

/// Adds a segment to the flow's buffer and reports every whole record now at
/// its front, as `tls_run` describes.
pub fn handle_tls_packet(table: &mut FlowTable, key: FlowKey, packet: &[u8]) -> (r: Vec<TlsReport>)
    requires
        old(table).wf(),
    ensures
        final(table).wf(),
        ({
            let (reports, keep) = tls_run(pending(old(table)@, key, packet@));
            &&& r@ == reports
            &&& final(table)@ == match keep {
                Some(b) => old(table)@.insert(key, b),
                None => old(table)@.remove(key),
            }
        }),
{
    let ghost t0 = table@;
    let mut buf = table.take(&key);
    append_bytes(&mut buf, packet);
    let ghost b0 = buf@;
    let mut out: Vec<TlsReport> = Vec::new();
    loop
        invariant
            table.wf(),
            table@ == t0.remove(key),
            b0 == pending(t0, key, packet@),
            t0 == old(table)@,
            tls_run(b0) == (out@ + tls_run(buf@).0, tls_run(buf@).1),
        ensures
            table.wf(),
            table@ == t0.remove(key),
            t0 == old(table)@,
            b0 == pending(t0, key, packet@),
            tls_run(b0) == (out@, Some(buf@)),
        decreases buf@.len(),
    {
        let ghost before = out@;
        if buf.len() > 0 && (buf[0] < 0x14 || buf[0] > 0x18) {
            out.push(TlsReport::Malformed);
            assert(out@ =~= before + tls_run(buf@).0);
            assert(tls_run(b0) == (out@, None::<Seq<u8>>));
            return out;
        }
        match raw_record(buf.as_slice()) {
            RecordFrame::Incomplete => {
                assert(out@ + Seq::<TlsReport>::empty() =~= out@);
                assert(tls_run(buf@) == (Seq::<TlsReport>::empty(), Some(buf@)));
                break;
            },
            RecordFrame::Malformed => {
                out.push(TlsReport::Malformed);
                assert(out@ =~= before + tls_run(buf@).0);
                assert(tls_run(buf@).1 is None);
                assert(tls_run(b0) == (out@, None::<Seq<u8>>));
                return out;
            },
            RecordFrame::Record(t, v, len) => {
                let ghost rest = buf@.subrange(5 + len, buf@.len() as int);
                let used: usize = 5 + len as usize;
                if t == APPLICATION_DATA {
                    match encrypted_record(buf.as_slice()) {
                        RecordFrame::Record(et, ev, elen) => {
                            out.push(TlsReport::Encrypted { version: ev, record_type: et, len: elen });
                        },
                        RecordFrame::Incomplete => {
                            return out;
                        },
                        RecordFrame::Malformed => {
                            out.push(TlsReport::Malformed);
                            return out;
                        },
                    }
                } else {
                    let data = vstd::slice::slice_subrange(buf.as_slice(), 5, used);
                    match parse_record_messages(t, v, data) {
                        RecordMessages::Parsed(ms) => {
                            push_message_reports(&mut out, t, v, len, &ms);
                        },
                        RecordMessages::Incomplete => {
                            assert(out@ + Seq::<TlsReport>::empty() =~= out@);
                assert(tls_run(buf@) == (Seq::<TlsReport>::empty(), Some(buf@)));
                            break;
                        },
                        RecordMessages::Malformed => {
                            out.push(TlsReport::Malformed);
                            assert(out@ =~= before + tls_run(buf@).0);
                assert(tls_run(buf@).1 is None);
                assert(tls_run(b0) == (out@, None::<Seq<u8>>));
                            return out;
                        },
                    }
                }
                if used == buf.len() {
                    assert(rest.len() == 0);
                    assert(out@ =~= before + tls_run(buf@).0);
                assert(tls_run(buf@).1 is None);
                assert(tls_run(b0) == (out@, None::<Seq<u8>>));
                    return out;
                }
                let ghost prev = out@;
                buf = copy_range(buf.as_slice(), used, buf.len());
                assert(buf@ == rest);
                assert(tls_run(b0).0 =~= prev + tls_run(buf@).0);
            },
        }
    }
    table.put(key, buf);
    assert(t0.remove(key).insert(key, buf@) =~= t0.insert(key, buf@));
    out
}

} // verus!

verus! {

/// A whole plaintext record followed by bytes that do not start a record is
/// reported once, message by message; the tail is reported malformed and the
/// flow is dropped, however short the tail.
pub proof fn record_then_garbage_tail(record: Seq<u8>, tail: Seq<u8>)
    requires
        record_frame(record) matches RecordFrame::Record(t, v, len) && t != APPLICATION_DATA
            && record.len() == 5 + len && record_messages(t, v, record.subrange(5, record.len() as int)) is Parsed,
        is_content_type(record[0]),
        tail.len() > 0,
        !is_content_type(tail[0]),
    ensures
        ({
            let (t, v, len) = (record[0], be16(record[1], record[2]) as u16, be16(record[3], record[4]) as u16);
            let ms = record_messages(t, v, record.subrange(5, record.len() as int))->Parsed_0;
            tls_run(record + tail) == (message_reports(t, v, len, ms@) + seq![TlsReport::Malformed], None::<Seq<u8>>)
        }),
{
    let b = record + tail;
    assert(b[0] == record[0]);
    assert(b.subrange(0, 5) =~= record.subrange(0, 5));
    assert(b.subrange(5, record.len() as int) =~= record.subrange(5, record.len() as int));
    assert(b.subrange(record.len() as int, b.len() as int) =~= tail);
    assert(tls_run(tail) == (seq![TlsReport::Malformed], None::<Seq<u8>>));
    let (t, v, len) = (record[0], be16(record[1], record[2]) as u16, be16(record[3], record[4]) as u16);
    let ms = record_messages(t, v, record.subrange(5, record.len() as int))->Parsed_0;
    assert(tls_run(b).0 == message_reports(t, v, len, ms@) + seq![TlsReport::Malformed]);
}

} // verus!
