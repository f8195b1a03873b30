//! Dispatch of a transport payload to the HTTP or TLS reassembler by port.
use vstd::prelude::*;
use crate::flow::{Endpoint, FlowKey, FlowTable};
use crate::http::{completed_at, handle_http_packet, message_of, pending, HttpMessage};
use crate::message::HttpPacketType;
use crate::tls::{handle_tls_packet, tls_run, TlsReport};

verus! {

/// The well-known port of HTTP.
pub const HTTP_PORT: u16 = 80;

/// The well-known port of HTTP over TLS.
pub const TLS_PORT: u16 = 443;

/// What a segment completed at the application layer.
#[derive(Debug)]
pub enum ApplicationPacket {
    Http(HttpMessage),
    Tls(Vec<TlsReport>),
}

/// The kind of HTTP message that travels towards `destination`.
pub open spec fn http_kind(destination: Endpoint) -> HttpPacketType {
    if destination.port == HTTP_PORT {
        HttpPacketType::Request
    } else {
        HttpPacketType::Response
    }
}

/// Hands a transport payload to the HTTP reassembler when either end uses
/// port 80 (a request when the destination does), else to the TLS reassembler
/// when either end uses port 443; other traffic is left alone.
pub fn handle_application_protocol(
    table: &mut FlowTable,
    source: Endpoint,
    destination: Endpoint,
    is_fin: bool,
    packet: &[u8],
) -> (r: Option<ApplicationPacket>)
    requires
        old(table).wf(),
    ensures
        final(table).wf(),
        ({
            let key = FlowKey { source, destination };
            let buf = pending(old(table)@, key, packet@);
            if source.port == HTTP_PORT || destination.port == HTTP_PORT {
                match completed_at(buf, http_kind(destination), is_fin) {
                    Some(_) => {
                        &&& final(table)@ == old(table)@.remove(key)
                        &&& r matches Some(ApplicationPacket::Http(m)) && message_of(
                            m,
                            buf,
                            http_kind(destination),
                        )
                    },
                    None => r is None && final(table)@ == old(table)@.insert(key, buf),
                }
            } else if source.port == TLS_PORT || destination.port == TLS_PORT {
                &&& r matches Some(ApplicationPacket::Tls(reports)) && reports@ == tls_run(buf).0
                &&& final(table)@ == match tls_run(buf).1 {
                    Some(b) => old(table)@.insert(key, b),
                    None => old(table)@.remove(key),
                }
            } else {
                r is None && final(table)@ == old(table)@
            }
        }),
{
    let key = FlowKey { source, destination };
    if source.port == HTTP_PORT || destination.port == HTTP_PORT {
        let kind = if destination.port == HTTP_PORT {
            HttpPacketType::Request
        } else {
            HttpPacketType::Response
        };
        match handle_http_packet(table, key, kind, is_fin, packet) {
            Some(m) => Some(ApplicationPacket::Http(m)),
            None => None,
        }
    } else if source.port == TLS_PORT || destination.port == TLS_PORT {
        Some(ApplicationPacket::Tls(handle_tls_packet(table, key, packet)))
    } else {
        None
    }
}

} // verus!
