use pnet::packet::icmp::{echo_reply, echo_request, IcmpPacket, IcmpTypes};
use pnet::packet::icmpv6::echo_reply::Icmpv6Codes;
use pnet::packet::icmpv6::{Icmpv6Packet, Icmpv6Types, MutableIcmpv6Packet};
use pnet::packet::tcp::{MutableTcpPacket, TcpPacket};
use pnet::packet::udp::{MutableUdpPacket, UdpPacket};
use pnet::packet::Packet;

use sniffer_parser::transport::{
    handle_icmp_packet, handle_icmpv6_packet, handle_tcp_packet, handle_transport_protocol,
    handle_udp_packet, TransportPacket,
};

fn build_test_udp_packet<'a>(udp_buffer: &'a mut [u8]) -> UdpPacket<'a> {
    let mut udp_packet = MutableUdpPacket::new(udp_buffer).unwrap();
    udp_packet.set_source(4444);
    udp_packet.set_destination(4445);
    udp_packet.consume_to_immutable()
}

fn build_test_tcp_packet<'a>(tcp_buffer: &'a mut [u8]) -> TcpPacket<'a> {
    let mut tcp_packet = MutableTcpPacket::new(tcp_buffer).unwrap();
    tcp_packet.set_source(4444);
    tcp_packet.set_destination(4445);
    tcp_packet.consume_to_immutable()
}

fn build_test_icmpv6_packet<'a>(icmpv6_buffer: &'a mut [u8]) -> Icmpv6Packet<'a> {
    let mut icmpv6_packet = MutableIcmpv6Packet::new(icmpv6_buffer).unwrap();
    icmpv6_packet.set_icmpv6_code(Icmpv6Codes::NoCode);
    icmpv6_packet.set_icmpv6_type(Icmpv6Types::EchoReply);
    icmpv6_packet.consume_to_immutable()
}

#[test]
fn valid_udp_packet() {
    let mut udp_buffer = [0u8; 42];
    let udp_packet = build_test_udp_packet(udp_buffer.as_mut_slice());
    let parsed = handle_udp_packet(udp_packet.packet());
    if let TransportPacket::Udp(new_udp_packet) = parsed {
        assert_eq!(new_udp_packet.source, udp_packet.get_source());
        assert_eq!(new_udp_packet.destination, udp_packet.get_destination());
        assert_eq!(new_udp_packet.length, udp_packet.get_length());
        assert_eq!(new_udp_packet.checksum, udp_packet.get_checksum());
        assert_eq!(new_udp_packet.payload, udp_packet.payload().to_vec());
    } else {
        panic!("not a UDP packet");
    }
}

#[test]
fn valid_tcp_packet() {
    let mut tcp_buffer = [0u8; 42];
    let tcp_packet = build_test_tcp_packet(tcp_buffer.as_mut_slice());
    let parsed = handle_tcp_packet(tcp_packet.packet());
    if let TransportPacket::Tcp(new_tcp_packet) = parsed {
        assert_eq!(new_tcp_packet.source, tcp_packet.get_source());
        assert_eq!(new_tcp_packet.destination, tcp_packet.get_destination());
        assert_eq!(new_tcp_packet.sequence, tcp_packet.get_sequence());
        assert_eq!(new_tcp_packet.acknowledgement, tcp_packet.get_acknowledgement());
        assert_eq!(new_tcp_packet.data_offset, tcp_packet.get_data_offset());
        assert_eq!(new_tcp_packet.reserved, tcp_packet.get_reserved());
        assert_eq!(new_tcp_packet.flags, tcp_packet.get_flags());
        assert_eq!(new_tcp_packet.window, tcp_packet.get_window());
        assert_eq!(new_tcp_packet.checksum, tcp_packet.get_checksum());
        assert_eq!(new_tcp_packet.urgent_ptr, tcp_packet.get_urgent_ptr());
        assert_eq!(new_tcp_packet.options, tcp_packet.get_options_raw());
        assert_eq!(new_tcp_packet.payload, tcp_packet.payload().to_vec());
    } else {
        panic!("not a TCP packet");
    }
}

#[test]
fn valid_icmp_echo_reply_packet() {
    let mut icmp_buffer = [0u8; 42];
    let echo_reply_packet = echo_reply::EchoReplyPacket::new(&mut icmp_buffer).unwrap();
    let parsed = handle_icmp_packet(echo_reply_packet.packet());
    if let TransportPacket::EchoReply(new_echo_reply_packet) = parsed {
        assert_eq!(new_echo_reply_packet.icmp_type, echo_reply_packet.get_icmp_type().0);
        assert_eq!(new_echo_reply_packet.icmp_code, echo_reply_packet.get_icmp_code().0);
        assert_eq!(new_echo_reply_packet.checksum, echo_reply_packet.get_checksum());
        assert_eq!(new_echo_reply_packet.identifier, echo_reply_packet.get_identifier());
        assert_eq!(new_echo_reply_packet.sequence_number, echo_reply_packet.get_sequence_number());
        assert_eq!(new_echo_reply_packet.payload, echo_reply_packet.payload().to_vec());
    } else {
        panic!("not an echo reply");
    }
}

#[test]
fn valid_icmp_echo_request_packet() {
    let mut icmp_buffer = [0u8; 42];
    let mut echo_request_packet = echo_request::MutableEchoRequestPacket::new(&mut icmp_buffer).unwrap();
    echo_request_packet.set_icmp_type(IcmpTypes::EchoRequest);
    let parsed = handle_icmp_packet(echo_request_packet.packet());
    if let TransportPacket::EchoRequest(new_echo_reply_packet) = parsed {
        assert_eq!(new_echo_reply_packet.icmp_type, echo_request_packet.get_icmp_type().0);
        assert_eq!(new_echo_reply_packet.icmp_code, echo_request_packet.get_icmp_code().0);
        assert_eq!(new_echo_reply_packet.checksum, echo_request_packet.get_checksum());
        assert_eq!(new_echo_reply_packet.identifier, echo_request_packet.get_identifier());
        assert_eq!(new_echo_reply_packet.sequence_number, echo_request_packet.get_sequence_number());
        assert_eq!(new_echo_reply_packet.payload, echo_request_packet.payload().to_vec());
    } else {
        panic!("not an echo request");
    }
}

#[test]
fn unrecognized_icmp_packet() {
    let mut icmp_buffer = [0u8; 42];
    let icmp_packet = IcmpPacket::new(&mut icmp_buffer).unwrap();
    let parsed = handle_icmp_packet(icmp_packet.packet());
    if let TransportPacket::Icmp(new_icmp_packet) = parsed {
        assert_eq!(new_icmp_packet.icmp_type, icmp_packet.get_icmp_type().0);
        assert_eq!(new_icmp_packet.icmp_code, icmp_packet.get_icmp_code().0);
        assert_eq!(new_icmp_packet.checksum, icmp_packet.get_checksum());
        assert_eq!(new_icmp_packet.payload, icmp_packet.payload().to_vec());
    }
}

#[test]
fn destination_unreachable_is_generic_icmp() {
    let mut icmp_buffer = [0u8; 42];
    icmp_buffer[0] = 3;
    icmp_buffer[1] = 1;
    let parsed = handle_icmp_packet(&icmp_buffer);
    match parsed {
        TransportPacket::Icmp(i) => {
            assert_eq!((i.icmp_type, i.icmp_code), (3, 1));
            assert_eq!(i.payload.len(), 38);
        }
        _ => panic!("not a generic ICMP packet"),
    }
}

#[test]
fn valid_icmpv6_packet() {
    let mut icmpv6_buffer = [0u8; 42];
    let icmpv6_packet = build_test_icmpv6_packet(&mut icmpv6_buffer);
    let parsed = handle_icmpv6_packet(icmpv6_packet.packet());
    if let TransportPacket::Icmpv6(new_icmpv6_packet) = parsed {
        assert_eq!(new_icmpv6_packet.icmpv6_type, icmpv6_packet.get_icmpv6_type().0);
        assert_eq!(new_icmpv6_packet.icmpv6_code, icmpv6_packet.get_icmpv6_code().0);
        assert_eq!(new_icmpv6_packet.checksum, icmpv6_packet.get_checksum());
        assert_eq!(new_icmpv6_packet.payload, icmpv6_packet.payload().to_vec());
    } else {
        panic!("not an ICMPv6 packet");
    }
}

#[test]
fn short_headers_are_malformed() {
    assert!(matches!(handle_udp_packet(&[0; 7]), TransportPacket::Malformed(_)));
    assert!(matches!(handle_tcp_packet(&[0; 19]), TransportPacket::Malformed(_)));
    assert!(matches!(handle_icmp_packet(&[0; 3]), TransportPacket::Malformed(_)));
    assert!(matches!(handle_icmp_packet(&[8, 0, 0, 0, 0]), TransportPacket::Malformed(_)));
    assert!(matches!(handle_icmpv6_packet(&[0; 3]), TransportPacket::Malformed(_)));
}

#[test]
fn header_fields_are_big_endian() {
    let b = [0x11, 0x5c, 0x00, 0x35, 0x00, 0x0a, 0xab, 0xcd, 0x68, 0x69];
    match handle_udp_packet(&b) {
        TransportPacket::Udp(u) => {
            assert_eq!((u.source, u.destination, u.length, u.checksum), (4444, 53, 10, 0xabcd));
            assert_eq!(u.payload, b"hi".to_vec());
        }
        _ => panic!("not UDP"),
    }
}

#[test]
fn transport_dispatch_by_protocol() {
    assert!(matches!(handle_transport_protocol(17, &[0; 8]), Some(TransportPacket::Udp(_))));
    assert!(matches!(handle_transport_protocol(6, &[0; 20]), Some(TransportPacket::Tcp(_))));
    assert!(matches!(handle_transport_protocol(1, &[0; 8]), Some(TransportPacket::EchoReply(_))));
    assert!(matches!(handle_transport_protocol(58, &[0; 4]), Some(TransportPacket::Icmpv6(_))));
    assert!(handle_transport_protocol(2, &[0; 8]).is_none());
}
