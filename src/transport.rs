//! Field extraction of transport-layer headers: UDP, TCP, ICMP and ICMPv6.
use vstd::prelude::*;

verus! {

/// A big-endian 16-bit field at offset `i`.
pub open spec fn be16_at(b: Seq<u8>, i: int) -> u16 {
    (b[i] as nat * 256 + b[i + 1] as nat) as u16
}

/// A big-endian 32-bit field at offset `i`.
pub open spec fn be32_at(b: Seq<u8>, i: int) -> u32 {
    (b[i] as nat * 16777216 + b[i + 1] as nat * 65536 + b[i + 2] as nat * 256 + b[i + 3] as nat) as u32
}

/// The bytes of `b` from `start` on; empty where `b` is not longer.
pub open spec fn tail_from(b: Seq<u8>, start: int) -> Seq<u8> {
    if b.len() <= start {
        Seq::empty()
    } else {
        b.subrange(start, b.len() as int)
    }
}

/// The fields of a UDP header, and its payload.
pub struct UdpFields {
    pub source: u16,
    pub destination: u16,
    pub length: u16,
    pub checksum: u16,
    pub payload: Vec<u8>,
}

/// The fields of a TCP header, its raw options, and its payload.
pub struct TcpFields {
    pub source: u16,
    pub destination: u16,
    pub sequence: u32,
    pub acknowledgement: u32,
    pub data_offset: u8,
    pub reserved: u8,
    pub flags: u8,
    pub window: u16,
    pub checksum: u16,
    pub urgent_ptr: u16,
    pub options: Vec<u8>,
    pub payload: Vec<u8>,
}

/// The common fields of an ICMP message, and the rest as payload.
pub struct IcmpFields {
    pub icmp_type: u8,
    pub icmp_code: u8,
    pub checksum: u16,
    pub payload: Vec<u8>,
}

/// The fields of an ICMP echo request or reply, and its payload.
pub struct EchoFields {
    pub icmp_type: u8,
    pub icmp_code: u8,
    pub checksum: u16,
    pub identifier: u16,
    pub sequence_number: u16,
    pub payload: Vec<u8>,
}

/// The common fields of an ICMPv6 message, and the rest as payload.
pub struct Icmpv6Fields {
    pub icmpv6_type: u8,
    pub icmpv6_code: u8,
    pub checksum: u16,
    pub payload: Vec<u8>,
}

/// A decoded transport header, or why it could not be decoded.
pub enum TransportPacket {
    Udp(UdpFields),
    Tcp(TcpFields),
    EchoReply(EchoFields),
    EchoRequest(EchoFields),
    Icmp(IcmpFields),
    Icmpv6(Icmpv6Fields),
    Malformed(String),
}

/// Whether `u` holds the UDP header fields of `b`.
pub open spec fn udp_of(u: UdpFields, b: Seq<u8>) -> bool {
    &&& u.source == be16_at(b, 0)
    &&& u.destination == be16_at(b, 2)
    &&& u.length == be16_at(b, 4)
    &&& u.checksum == be16_at(b, 6)
    &&& u.payload@ == tail_from(b, 8)
}

/// The length of the TCP options that a data offset announces.
pub open spec fn tcp_options_len(data_offset: u8) -> int {
    if data_offset > 5 {
        data_offset * 4 - 20
    } else {
        0
    }
}

/// Whether `t` holds the TCP header fields of `b`.
pub open spec fn tcp_of(t: TcpFields, b: Seq<u8>) -> bool {
    &&& t.source == be16_at(b, 0)
    &&& t.destination == be16_at(b, 2)
    &&& t.sequence == be32_at(b, 4)
    &&& t.acknowledgement == be32_at(b, 8)
    &&& t.data_offset == b[12] / 16
    &&& t.reserved == b[12] % 16
    &&& t.flags == b[13]
    &&& t.window == be16_at(b, 14)
    &&& t.checksum == be16_at(b, 16)
    &&& t.urgent_ptr == be16_at(b, 18)
    &&& t.options@ == b.subrange(
        20,
        if 20 + tcp_options_len(t.data_offset) < b.len() {
            20 + tcp_options_len(t.data_offset)
        } else {
            b.len() as int
        },
    )
    &&& t.payload@ == tail_from(b, 20 + tcp_options_len(t.data_offset))
}

/// Whether `i` holds the ICMP header fields of `b`.
pub open spec fn icmp_of(i: IcmpFields, b: Seq<u8>) -> bool {
    &&& i.icmp_type == b[0]
    &&& i.icmp_code == b[1]
    &&& i.checksum == be16_at(b, 2)
    &&& i.payload@ == tail_from(b, 4)
}

/// Whether `e` holds the ICMP echo fields of `b`.
pub open spec fn echo_of(e: EchoFields, b: Seq<u8>) -> bool {
    &&& e.icmp_type == b[0]
    &&& e.icmp_code == b[1]
    &&& e.checksum == be16_at(b, 2)
    &&& e.identifier == be16_at(b, 4)
    &&& e.sequence_number == be16_at(b, 6)
    &&& e.payload@ == tail_from(b, 8)
}

/// Whether `i` holds the ICMPv6 header fields of `b`.
pub open spec fn icmpv6_of(i: Icmpv6Fields, b: Seq<u8>) -> bool {
    &&& i.icmpv6_type == b[0]
    &&& i.icmpv6_code == b[1]
    &&& i.checksum == be16_at(b, 2)
    &&& i.payload@ == tail_from(b, 4)
}

/// What decoding `b` as UDP gives: its fields, or malformed when shorter
/// than the 8-byte header.
pub open spec fn udp_result(r: TransportPacket, b: Seq<u8>) -> bool {
    if b.len() >= 8 {
        r matches TransportPacket::Udp(u) && udp_of(u, b)
    } else {
        r is Malformed
    }
}

/// What decoding `b` as TCP gives: its fields, or malformed when shorter
/// than the 20-byte header.
pub open spec fn tcp_result(r: TransportPacket, b: Seq<u8>) -> bool {
    if b.len() >= 20 {
        r matches TransportPacket::Tcp(t) && tcp_of(t, b)
    } else {
        r is Malformed
    }
}

/// What decoding `b` as ICMP gives: echo replies and requests with their
/// identifier and sequence number, other types by the common header, and
/// malformed when too short for the header of its type.
pub open spec fn icmp_result(r: TransportPacket, b: Seq<u8>) -> bool {
    if b.len() < 4 {
        r is Malformed
    } else if b[0] == ICMP_ECHO_REPLY || b[0] == ICMP_ECHO_REQUEST {
        if b.len() < 8 {
            r is Malformed
        } else if b[0] == ICMP_ECHO_REPLY {
            r matches TransportPacket::EchoReply(e) && echo_of(e, b)
        } else {
            r matches TransportPacket::EchoRequest(e) && echo_of(e, b)
        }
    } else {
        r matches TransportPacket::Icmp(i) && icmp_of(i, b)
    }
}

/// What decoding `b` as ICMPv6 gives: its fields, or malformed when shorter
/// than the 4-byte header.
pub open spec fn icmpv6_result(r: TransportPacket, b: Seq<u8>) -> bool {
    if b.len() >= 4 {
        r matches TransportPacket::Icmpv6(i) && icmpv6_of(i, b)
    } else {
        r is Malformed
    }
}

/// Relies on pnet's UdpPacket: `new` needs the 8-byte header, the getters
/// read its big-endian fields, and the payload is the rest.
#[verifier::external_body]
fn udp_fields(b: &[u8]) -> (r: Option<UdpFields>)
    ensures
        r is None <==> b@.len() < 8,
        r matches Some(u) ==> udp_of(u, b@),
{
    pnet::packet::udp::UdpPacket::new(b).map(|p| UdpFields {
        source: p.get_source(),
        destination: p.get_destination(),
        length: p.get_length(),
        checksum: p.get_checksum(),
        payload: pnet::packet::Packet::payload(&p).to_vec(),
    })
}

/// Relies on pnet's TcpPacket: `new` needs the 20-byte header, the getters
/// read its fields, and the options and payload follow as the data offset
/// says.
#[verifier::external_body]
fn tcp_fields(b: &[u8]) -> (r: Option<TcpFields>)
    ensures
        r is None <==> b@.len() < 20,
        r matches Some(t) ==> tcp_of(t, b@),
{
    pnet::packet::tcp::TcpPacket::new(b).map(|p| TcpFields {
        source: p.get_source(),
        destination: p.get_destination(),
        sequence: p.get_sequence(),
        acknowledgement: p.get_acknowledgement(),
        data_offset: p.get_data_offset(),
        reserved: p.get_reserved(),
        flags: p.get_flags(),
        window: p.get_window(),
        checksum: p.get_checksum(),
        urgent_ptr: p.get_urgent_ptr(),
        options: p.get_options_raw().to_vec(),
        payload: pnet::packet::Packet::payload(&p).to_vec(),
    })
}

/// Relies on pnet's IcmpPacket: `new` needs the 4-byte header, the getters
/// read type, code and checksum, and the payload is the rest.
#[verifier::external_body]
fn icmp_fields(b: &[u8]) -> (r: Option<IcmpFields>)
    ensures
        r is None <==> b@.len() < 4,
        r matches Some(i) ==> icmp_of(i, b@),
{
    pnet::packet::icmp::IcmpPacket::new(b).map(|p| IcmpFields {
        icmp_type: p.get_icmp_type().0,
        icmp_code: p.get_icmp_code().0,
        checksum: p.get_checksum(),
        payload: pnet::packet::Packet::payload(&p).to_vec(),
    })
}

/// Relies on pnet's echo_reply::EchoReplyPacket: `new` needs the 8-byte
/// header, the getters read its fields, and the payload is the rest.
#[verifier::external_body]
fn echo_reply_fields(b: &[u8]) -> (r: Option<EchoFields>)
    ensures
        r is None <==> b@.len() < 8,
        r matches Some(e) ==> echo_of(e, b@),
{
    pnet::packet::icmp::echo_reply::EchoReplyPacket::new(b).map(|p| EchoFields {
        icmp_type: p.get_icmp_type().0,
        icmp_code: p.get_icmp_code().0,
        checksum: p.get_checksum(),
        identifier: p.get_identifier(),
        sequence_number: p.get_sequence_number(),
        payload: pnet::packet::Packet::payload(&p).to_vec(),
    })
}

/// Relies on pnet's echo_request::EchoRequestPacket: `new` needs the 8-byte
/// header, the getters read its fields, and the payload is the rest.
#[verifier::external_body]
fn echo_request_fields(b: &[u8]) -> (r: Option<EchoFields>)
    ensures
        r is None <==> b@.len() < 8,
        r matches Some(e) ==> echo_of(e, b@),
{
    pnet::packet::icmp::echo_request::EchoRequestPacket::new(b).map(|p| EchoFields {
        icmp_type: p.get_icmp_type().0,
        icmp_code: p.get_icmp_code().0,
        checksum: p.get_checksum(),
        identifier: p.get_identifier(),
        sequence_number: p.get_sequence_number(),
        payload: pnet::packet::Packet::payload(&p).to_vec(),
    })
}

/// Relies on pnet's Icmpv6Packet: `new` needs the 4-byte header, the getters
/// read type, code and checksum, and the payload is the rest.
#[verifier::external_body]
fn icmpv6_fields(b: &[u8]) -> (r: Option<Icmpv6Fields>)
    ensures
        r is None <==> b@.len() < 4,
        r matches Some(i) ==> icmpv6_of(i, b@),
{
    pnet::packet::icmpv6::Icmpv6Packet::new(b).map(|p| Icmpv6Fields {
        icmpv6_type: p.get_icmpv6_type().0,
        icmpv6_code: p.get_icmpv6_code().0,
        checksum: p.get_checksum(),
        payload: pnet::packet::Packet::payload(&p).to_vec(),
    })
}

/// Decodes a UDP header; one shorter than 8 bytes is malformed.
pub fn handle_udp_packet(packet: &[u8]) -> (r: TransportPacket)
    ensures
        udp_result(r, packet@),
{
    match udp_fields(packet) {
        Some(u) => TransportPacket::Udp(u),
        None => TransportPacket::Malformed("Malformed UDP Packet".to_string()),
    }
}

/// Decodes a TCP header; one shorter than 20 bytes is malformed.
pub fn handle_tcp_packet(packet: &[u8]) -> (r: TransportPacket)
    ensures
        tcp_result(r, packet@),
{
    match tcp_fields(packet) {
        Some(t) => TransportPacket::Tcp(t),
        None => TransportPacket::Malformed("Malformed TCP Packet".to_string()),
    }
}

/// The ICMP type of an echo reply.
pub const ICMP_ECHO_REPLY: u8 = 0;

/// The ICMP type of an echo request.
pub const ICMP_ECHO_REQUEST: u8 = 8;

/// Decodes an ICMP message: echo replies and requests with identifier and
/// sequence number, any other type by its common header. A message too short
/// for its header is malformed.
pub fn handle_icmp_packet(packet: &[u8]) -> (r: TransportPacket)
    ensures
        icmp_result(r, packet@),
{
    match icmp_fields(packet) {
        Some(i) => {
            if i.icmp_type == ICMP_ECHO_REPLY {
                match echo_reply_fields(packet) {
                    Some(e) => TransportPacket::EchoReply(e),
                    None => TransportPacket::Malformed("Malformed ICMP Packet".to_string()),
                }
            } else if i.icmp_type == ICMP_ECHO_REQUEST {
                match echo_request_fields(packet) {
                    Some(e) => TransportPacket::EchoRequest(e),
                    None => TransportPacket::Malformed("Malformed ICMP Packet".to_string()),
                }
            } else {
                TransportPacket::Icmp(i)
            }
        },
        None => TransportPacket::Malformed("Malformed ICMP Packet".to_string()),
    }
}

/// Decodes an ICMPv6 header; one shorter than 4 bytes is malformed.
pub fn handle_icmpv6_packet(packet: &[u8]) -> (r: TransportPacket)
    ensures
        icmpv6_result(r, packet@),
{
    match icmpv6_fields(packet) {
        Some(i) => TransportPacket::Icmpv6(i),
        None => TransportPacket::Malformed("Malformed ICMPv6 Packet".to_string()),
    }
}

/// IP next-header numbers of the protocols decoded here.
pub const PROTOCOL_ICMP: u8 = 1;

pub const PROTOCOL_TCP: u8 = 6;

pub const PROTOCOL_UDP: u8 = 17;

pub const PROTOCOL_ICMPV6: u8 = 58;

/// Decodes a transport payload by the IP next-header number; other
/// protocols give `None`.
pub fn handle_transport_protocol(protocol: u8, packet: &[u8]) -> (r: Option<TransportPacket>)
    ensures
        r is Some <==> (protocol == PROTOCOL_UDP || protocol == PROTOCOL_TCP || protocol
            == PROTOCOL_ICMP || protocol == PROTOCOL_ICMPV6),
        protocol == PROTOCOL_UDP ==> (r matches Some(p) && udp_result(p, packet@)),
        protocol == PROTOCOL_TCP ==> (r matches Some(p) && tcp_result(p, packet@)),
        protocol == PROTOCOL_ICMP ==> (r matches Some(p) && icmp_result(p, packet@)),
        protocol == PROTOCOL_ICMPV6 ==> (r matches Some(p) && icmpv6_result(p, packet@)),
{
    if protocol == PROTOCOL_UDP {
        Some(handle_udp_packet(packet))
    } else if protocol == PROTOCOL_TCP {
        Some(handle_tcp_packet(packet))
    } else if protocol == PROTOCOL_ICMP {
        Some(handle_icmp_packet(packet))
    } else if protocol == PROTOCOL_ICMPV6 {
        Some(handle_icmpv6_packet(packet))
    } else {
        None
    }
}

} // verus!
