use rsiprtp::net::{IpAddr, SocketAddr};
use rsiprtp::transport::tls::{find_header_end, frame_length, parse_content_length, take_message, TlsClientConfig};
use rsiprtp::transport::{OutgoingMessage, TransportAddress, TransportProtocol};

#[test]
fn test_transport_protocol() {
    assert!(!TransportProtocol::Udp.is_reliable());
    assert!(TransportProtocol::Tcp.is_reliable());
    assert!(TransportProtocol::Tls.is_reliable());
    assert!(TransportProtocol::Tls.is_secure());
    assert!(!TransportProtocol::Tcp.is_secure());
}

#[test]
fn test_default_ports() {
    assert_eq!(TransportProtocol::Udp.default_port(), 5060);
    assert_eq!(TransportProtocol::Tcp.default_port(), 5060);
    assert_eq!(TransportProtocol::Tls.default_port(), 5061);
}

#[test]
fn test_transport_address() {
    let addr = SocketAddr::new(IpAddr::V4([192, 168, 1, 1]), 5060);
    let ta = TransportAddress::udp(addr);
    assert_eq!(ta.transport, TransportProtocol::Udp);
    assert_eq!(ta.addr.port(), 5060);
    assert_eq!(ta.to_text(), "192.168.1.1:5060:UDP");
    let six = TransportAddress::new(SocketAddr::new(IpAddr::V6([0; 16]), 5061), TransportProtocol::Tls);
    assert_eq!(six.to_text(), "[::]:5061:TLS");
    let m = OutgoingMessage::new(vec![1, 2], addr);
    assert_eq!(m.data, vec![1, 2]);
}

#[test]
fn test_find_header_end() {
    let data = b"INVITE sip:test SIP/2.0\r\nContent-Length: 0\r\n\r\n";
    assert_eq!(find_header_end(data), Some(46));
    let data = b"INVITE sip:test SIP/2.0\r\nContent-Length: 0\r\n";
    assert_eq!(find_header_end(data), None);
    assert_eq!(find_header_end(b"\r\n\r\n"), Some(4));
    assert_eq!(find_header_end(b"\r\n\r"), None);
}

#[test]
fn test_parse_content_length() {
    assert_eq!(parse_content_length(b"INVITE sip:test SIP/2.0\r\nContent-Length: 123\r\n\r\n"), 123);
    assert_eq!(parse_content_length(b"INVITE sip:test SIP/2.0\r\nl: 456\r\n\r\n"), 456);
    assert_eq!(parse_content_length(b"INVITE sip:test SIP/2.0\r\n\r\n"), 0);
}

#[test]
fn content_length_edge_cases() {
    // Case-insensitive name, a bad value is skipped, later lines count.
    assert_eq!(parse_content_length(b"CONTENT-LENGTH: x\r\ncontent-length: 7\r\n"), 7);
    // Not UTF-8.
    assert_eq!(parse_content_length(b"Content-Length: 5\r\n\xff\r\n"), 0);
    // A leading plus sign is accepted, as str::parse does.
    assert_eq!(parse_content_length(b"l:+12\r\n"), 12);
}

#[test]
fn framing_waits_for_the_body() {
    let mut buf = b"MESSAGE sip:a SIP/2.0\r\nl: 3\r\n\r\nab".to_vec();
    assert_eq!(frame_length(&buf), None);
    assert!(take_message(&mut buf).is_none());
    buf.extend_from_slice(b"cXYZ");
    let n = frame_length(&buf).unwrap();
    assert_eq!(n, buf.len() - 3);
    let msg = take_message(&mut buf).unwrap();
    assert!(msg.ends_with(b"abc"));
    assert_eq!(buf, b"XYZ".to_vec());
}

#[test]
fn test_tls_client_config_default() {
    let config = TlsClientConfig::default();
    assert!(config.verify_server);
    assert!(config.ca_cert_path.is_none());
}
