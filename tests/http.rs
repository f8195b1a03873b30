use sniffer_parser::content::HttpContentType;
use sniffer_parser::flow::{Endpoint, FlowKey, FlowTable, IpAddress};
use sniffer_parser::http::{handle_http_packet, HttpMessage};
use sniffer_parser::message::{packet_is_ended, HeaderField, HttpPacketType};

fn key() -> FlowKey {
    FlowKey {
        source: Endpoint { ip: IpAddress::V4(0x0a0a0a0a), port: 50000 },
        destination: Endpoint { ip: IpAddress::V4(0x0b0b0b0b), port: 80 },
    }
}

fn header(name: &str, value: &str) -> HeaderField {
    HeaderField { name: name.as_bytes().to_vec(), value: value.as_bytes().to_vec() }
}

#[test]
fn request_without_length_is_complete_after_head() {
    for is_fin in [false, true] {
        let mut table = FlowTable::new();
        let r = handle_http_packet(&mut table, key(), HttpPacketType::Request, is_fin, b"GET /index.html HTTP/1.1\r\nHost: example.com\r\n\r\n");
        match r {
            Some(HttpMessage::Request(head, HttpContentType::Empty)) => {
                assert_eq!(head.method.as_deref(), Some("GET"));
                assert_eq!(head.path.as_deref(), Some("/index.html"));
                assert_eq!(head.version, Some(1));
                assert_eq!(head.headers.len(), 1);
            }
            other => panic!("unexpected {:?}", other),
        }
        assert!(!table.contains(&key()));
    }
}

#[test]
fn partial_head_is_kept() {
    let mut table = FlowTable::new();
    assert!(handle_http_packet(&mut table, key(), HttpPacketType::Request, false, b"GET / HTTP/1.1\r\nHo").is_none());
    assert!(table.contains(&key()));
    let r = handle_http_packet(&mut table, key(), HttpPacketType::Request, false, b"st: a\r\n\r\n");
    assert!(matches!(r, Some(HttpMessage::Request(_, HttpContentType::Empty))));
    assert!(!table.contains(&key()));
}

#[test]
fn invalid_head_is_kept_without_result() {
    let mut table = FlowTable::new();
    assert!(handle_http_packet(&mut table, key(), HttpPacketType::Request, true, b"\x01\x02 garbage\r\n\r\n").is_none());
    assert!(table.contains(&key()));
}

#[test]
fn response_without_length_waits_for_fin() {
    let mut table = FlowTable::new();
    let seg = b"HTTP/1.1 200 OK\r\nContent-Type: text/plain\r\n\r\nhello";
    assert!(handle_http_packet(&mut table, key(), HttpPacketType::Response, false, seg).is_none());
    assert!(table.contains(&key()));
    let r = handle_http_packet(&mut table, key(), HttpPacketType::Response, true, b" world");
    match r {
        Some(HttpMessage::Response(head, HttpContentType::TextDefaultDecoded(t))) => {
            assert_eq!(head.code, Some(200));
            assert_eq!(head.reason.as_deref(), Some("OK"));
            assert_eq!(t, "hello world");
        }
        other => panic!("unexpected {:?}", other),
    }
    assert_eq!(table.len(), 0);
}

#[test]
fn content_length_requires_exact_body() {
    let mut table = FlowTable::new();
    let head = b"POST /x HTTP/1.1\r\nContent-Length: 5\r\n\r\n";
    assert!(handle_http_packet(&mut table, key(), HttpPacketType::Request, false, head).is_none());
    assert!(handle_http_packet(&mut table, key(), HttpPacketType::Request, false, b"abcd").is_none());
    let r = handle_http_packet(&mut table, key(), HttpPacketType::Request, false, b"e");
    assert!(matches!(r, Some(HttpMessage::Request(_, HttpContentType::Unknown(ref b))) if b == b"abcde"));

    let mut table = FlowTable::new();
    let mut over = head.to_vec();
    over.extend_from_slice(b"abcdef");
    assert!(handle_http_packet(&mut table, key(), HttpPacketType::Request, true, &over).is_none());
    assert!(table.contains(&key()));
}

#[test]
fn packet_is_ended_applies_policy() {
    let cl = vec![header("Content-Length", "3")];
    assert!(packet_is_ended(b"abc", &cl, HttpPacketType::Response, false));
    assert!(!packet_is_ended(b"ab", &cl, HttpPacketType::Response, true));
    assert!(!packet_is_ended(b"abcd", &cl, HttpPacketType::Request, true));
    let bad = vec![header("Content-Length", "3x")];
    assert!(!packet_is_ended(b"abc", &bad, HttpPacketType::Request, true));
    let te = vec![header("Transfer-Encoding", "chunked")];
    assert!(packet_is_ended(b"1\r\na\r\n0\r\n\r\n", &te, HttpPacketType::Response, false));
    assert!(!packet_is_ended(b"1\r\na\r\n", &te, HttpPacketType::Response, true));
    assert!(!packet_is_ended(b"\r\n", &te, HttpPacketType::Response, true));
    assert!(packet_is_ended(b"", &[], HttpPacketType::Request, false));
    assert!(!packet_is_ended(b"", &[], HttpPacketType::Response, false));
    assert!(packet_is_ended(b"", &[], HttpPacketType::Response, true));
}

#[test]
fn chunked_response_is_merged_and_classified() {
    let mut table = FlowTable::new();
    let head = b"HTTP/1.1 200 OK\r\nTransfer-Encoding: chunked\r\nContent-Type: text/plain; charset=utf-8\r\n\r\n";
    assert!(handle_http_packet(&mut table, key(), HttpPacketType::Response, false, head).is_none());
    assert!(handle_http_packet(&mut table, key(), HttpPacketType::Response, false, b"4\r\nWiki\r\n").is_none());
    assert!(handle_http_packet(&mut table, key(), HttpPacketType::Response, false, b"5\r\npedia\r\n").is_none());
    let r = handle_http_packet(&mut table, key(), HttpPacketType::Response, false, b"0\r\n\r\n");
    match r {
        Some(HttpMessage::Response(_, HttpContentType::TextCorrectlyDecoded(t))) => assert_eq!(t, "Wikipedia"),
        other => panic!("unexpected {:?}", other),
    }
}

#[test]
fn evicted_flow_starts_a_new_buffer() {
    let mut table = FlowTable::new();
    let first = b"POST /a HTTP/1.1\r\nContent-Length: 3\r\nContent-Type: image/png\r\n\r\nxyz";
    assert!(matches!(
        handle_http_packet(&mut table, key(), HttpPacketType::Request, false, first),
        Some(HttpMessage::Request(_, HttpContentType::Image(_)))
    ));
    assert!(!table.contains(&key()));
    let r = handle_http_packet(&mut table, key(), HttpPacketType::Request, false, b"GET /b HTTP/1.1\r\n\r\n");
    match r {
        Some(HttpMessage::Request(head, HttpContentType::Empty)) => {
            assert_eq!(head.path.as_deref(), Some("/b"));
            assert!(head.headers.is_empty());
        }
        other => panic!("unexpected {:?}", other),
    }
}

#[test]
fn directions_are_separate_flows() {
    let mut table = FlowTable::new();
    let k = key();
    let back = FlowKey { source: k.destination, destination: k.source };
    assert!(handle_http_packet(&mut table, k, HttpPacketType::Request, false, b"GET / HTTP/1.1\r\n").is_none());
    assert!(handle_http_packet(&mut table, back, HttpPacketType::Response, false, b"HTTP/1.1 200").is_none());
    assert_eq!(table.len(), 2);
}

#[test]
fn header_value_that_is_not_utf8_counts_as_absent() {
    let mut table = FlowTable::new();
    let r = handle_http_packet(&mut table, key(), HttpPacketType::Request, false, b"GET / HTTP/1.1\r\nContent-Length: \xff\r\n\r\n");
    assert!(matches!(r, Some(HttpMessage::Request(_, HttpContentType::Empty))));
    assert!(!table.contains(&key()));
    let hs = vec![HeaderField { name: b"Content-Length".to_vec(), value: vec![0xff] }];
    assert!(packet_is_ended(b"", &hs, HttpPacketType::Request, false));
    assert!(!packet_is_ended(b"", &hs, HttpPacketType::Response, false));
}
