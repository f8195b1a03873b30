use sniffer_parser::flow::{Endpoint, FlowKey, FlowTable, IpAddress};
use sniffer_parser::tls::{handle_tls_packet, TlsReport};

fn key() -> FlowKey {
    FlowKey {
        source: Endpoint { ip: IpAddress::V6(1), port: 443 },
        destination: Endpoint { ip: IpAddress::V6(2), port: 51000 },
    }
}

const HELLO_REQUEST: [u8; 9] = [0x16, 0x03, 0x03, 0x00, 0x04, 0x00, 0x00, 0x00, 0x00];

#[test]
fn handshake_record_then_garbage_evicts_flow() {
    let mut table = FlowTable::new();
    let mut seg = HELLO_REQUEST.to_vec();
    seg.extend_from_slice(&[0xde, 0xad, 0xbe]);
    let r = handle_tls_packet(&mut table, key(), &seg);
    assert_eq!(r.len(), 2);
    assert!(matches!(r[0], TlsReport::Message { version: 0x0303, record_type: 0x16, len: 4, index: 0, .. }));
    assert!(matches!(r[1], TlsReport::Malformed));
    assert!(!table.contains(&key()));
}

#[test]
fn handshake_record_then_partial_header_is_kept() {
    let mut table = FlowTable::new();
    let mut seg = HELLO_REQUEST.to_vec();
    seg.extend_from_slice(&[0x16, 0x03, 0x03]);
    let r = handle_tls_packet(&mut table, key(), &seg);
    assert_eq!(r.len(), 1);
    assert!(table.contains(&key()));
    let r = handle_tls_packet(&mut table, key(), &[0x00, 0x04, 0x00, 0x00, 0x00, 0x00]);
    assert_eq!(r.len(), 1);
    assert!(!table.contains(&key()));
}

#[test]
fn single_garbage_byte_evicts_flow() {
    let mut table = FlowTable::new();
    let r = handle_tls_packet(&mut table, key(), &[0x00]);
    assert_eq!(r.len(), 1);
    assert!(matches!(r[0], TlsReport::Malformed));
    assert!(!table.contains(&key()));
}

#[test]
fn single_handshake_record_evicts_flow() {
    let mut table = FlowTable::new();
    let r = handle_tls_packet(&mut table, key(), &HELLO_REQUEST);
    assert_eq!(r.len(), 1);
    assert!(!table.contains(&key()));
}

#[test]
fn application_data_is_reported_encrypted() {
    let mut table = FlowTable::new();
    let r = handle_tls_packet(&mut table, key(), &[0x17, 0x03, 0x03, 0x00, 0x02, 0xaa, 0xbb]);
    assert_eq!(r.len(), 1);
    assert!(matches!(r[0], TlsReport::Encrypted { version: 0x0303, record_type: 0x17, len: 2 }));
    assert!(!table.contains(&key()));
}

#[test]
fn records_split_across_segments_are_joined() {
    let mut table = FlowTable::new();
    assert!(handle_tls_packet(&mut table, key(), &HELLO_REQUEST[..3]).is_empty());
    assert!(table.contains(&key()));
    assert!(handle_tls_packet(&mut table, key(), &HELLO_REQUEST[3..7]).is_empty());
    let r = handle_tls_packet(&mut table, key(), &HELLO_REQUEST[7..]);
    assert_eq!(r.len(), 1);
    assert!(!table.contains(&key()));
}

#[test]
fn two_records_in_one_segment() {
    let mut table = FlowTable::new();
    let mut seg = HELLO_REQUEST.to_vec();
    seg.extend_from_slice(&[0x17, 0x03, 0x03, 0x00, 0x01, 0x99]);
    let r = handle_tls_packet(&mut table, key(), &seg);
    assert_eq!(r.len(), 2);
    assert!(matches!(r[1], TlsReport::Encrypted { len: 1, .. }));
    assert!(!table.contains(&key()));
}

#[test]
fn oversized_record_is_malformed() {
    let mut table = FlowTable::new();
    let r = handle_tls_packet(&mut table, key(), &[0x16, 0x03, 0x03, 0x40, 0x01]);
    assert_eq!(r.len(), 1);
    assert!(matches!(r[0], TlsReport::Malformed));
    assert!(!table.contains(&key()));
}

#[test]
fn bad_handshake_body_is_malformed() {
    let mut table = FlowTable::new();
    let r = handle_tls_packet(&mut table, key(), &[0x16, 0x03, 0x03, 0x00, 0x01, 0x00]);
    assert!(r.iter().all(|x| matches!(x, TlsReport::Malformed)));
    assert!(r.len() <= 1);
}

#[test]
fn unknown_record_type_is_malformed() {
    let mut table = FlowTable::new();
    let r = handle_tls_packet(&mut table, key(), &[0x30, 0x03, 0x03, 0x00, 0x01, 0x00]);
    assert_eq!(r.len(), 1);
    assert!(matches!(r[0], TlsReport::Malformed));
    assert!(!table.contains(&key()));
}
