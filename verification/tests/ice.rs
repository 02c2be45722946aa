use rsiprtp::ice::candidate::{calculate_pair_priority, calculate_priority, Candidate, CandidateType, Transport};
use rsiprtp::ice::stun::{
    build_binding_request, generate_transaction_id, parse_binding_response, parse_error_response,
    parse_mapped_address, StunError, StunServer, AF_IPV4, AF_IPV6, ATTR_ERROR_CODE, ATTR_MAPPED_ADDRESS,
    ATTR_SOFTWARE, ATTR_XOR_MAPPED_ADDRESS, BINDING_RESPONSE, MAGIC_COOKIE,
};
use rsiprtp::ice::agent::{generate_ice_pwd, generate_ice_ufrag};
use rsiprtp::net::{IpAddr, SocketAddr};

fn v4(a: u8, b: u8, c: u8, d: u8, port: u16) -> SocketAddr {
    SocketAddr::new(IpAddr::V4([a, b, c, d]), port)
}

fn put_u16(v: &mut Vec<u8>, x: u16) {
    v.extend_from_slice(&x.to_be_bytes());
}

fn put_u32(v: &mut Vec<u8>, x: u32) {
    v.extend_from_slice(&x.to_be_bytes());
}

#[test]
fn test_candidate_type_preference() {
    assert!(CandidateType::Host.type_preference() > CandidateType::ServerReflexive.type_preference());
    assert!(CandidateType::ServerReflexive.type_preference() > CandidateType::Relay.type_preference());
}

#[test]
fn test_host_candidate() {
    let addr = v4(192, 168, 1, 100, 5000);
    let candidate = Candidate::host(addr, 1);
    assert_eq!(candidate.component, 1);
    assert_eq!(candidate.candidate_type, CandidateType::Host);
    assert_eq!(candidate.address, addr);
    assert!(candidate.related_address.is_none());
}

#[test]
fn test_srflx_candidate() {
    let mapped = v4(203, 0, 113, 1, 12345);
    let base = v4(192, 168, 1, 100, 5000);
    let candidate = Candidate::server_reflexive(mapped, base, 1);
    assert_eq!(candidate.candidate_type, CandidateType::ServerReflexive);
    assert_eq!(candidate.address, mapped);
    assert_eq!(candidate.related_address, Some(base));
}

#[test]
fn test_sdp_roundtrip() {
    let addr = v4(192, 168, 1, 100, 5000);
    let candidate = Candidate::host(addr, 1);
    let sdp = candidate.to_sdp();
    let parsed = Candidate::from_sdp(&sdp).unwrap();
    assert_eq!(parsed.foundation, candidate.foundation);
    assert_eq!(parsed.component, candidate.component);
    assert_eq!(parsed.priority, candidate.priority);
    assert_eq!(parsed.address, candidate.address);
    assert_eq!(parsed.candidate_type, candidate.candidate_type);
}

#[test]
fn test_sdp_parse_with_raddr() {
    let sdp = "srflx1 1 UDP 1694498815 203.0.113.1 12345 typ srflx raddr 192.168.1.100 rport 5000";
    let candidate = Candidate::from_sdp(sdp).unwrap();
    assert_eq!(candidate.candidate_type, CandidateType::ServerReflexive);
    assert_eq!(candidate.address.port(), 12345);
    assert!(candidate.related_address.is_some());
    assert_eq!(candidate.related_address.unwrap().port(), 5000);
}

#[test]
fn test_priority_calculation() {
    let host_prio = calculate_priority(CandidateType::Host, 65535, 1);
    let srflx_prio = calculate_priority(CandidateType::ServerReflexive, 65535, 1);
    assert!(host_prio > srflx_prio);
}

#[test]
fn test_pair_priority() {
    let prio1 = calculate_pair_priority(true, 1000, 2000);
    let prio2 = calculate_pair_priority(false, 2000, 1000);
    assert_eq!(prio1, prio2);
    let prio3 = calculate_pair_priority(true, 1000, 1000);
    let prio4 = calculate_pair_priority(false, 1000, 1000);
    assert_eq!(prio3, prio4);
}

#[test]
fn priority_formula_exact_values() {
    // (2^24)*126 + (2^8)*65535 + (256 - 1)
    assert_eq!(calculate_priority(CandidateType::Host, 65535, 1), 2130706431);
    assert_eq!(calculate_priority(CandidateType::ServerReflexive, 65535, 1), 1694498815);
    assert_eq!(calculate_priority(CandidateType::Relay, 0, 2), 254);
    // 2^32*min + 2*max + (G > D)
    assert_eq!(calculate_pair_priority(true, 5, 3), (1u64 << 32) * 3 + 2 * 5 + 1);
    assert_eq!(calculate_pair_priority(true, 3, 5), (1u64 << 32) * 3 + 2 * 5);
}

#[test]
fn candidate_text_and_type_names() {
    let c = Candidate::host(v4(10, 0, 0, 1, 4000), 1);
    assert_eq!(c.to_sdp(), format!("{} 1 UDP 2130706431 10.0.0.1 4000 typ host", c.foundation));
    assert_eq!(CandidateType::parse("relay"), Some(CandidateType::Relay));
    assert_eq!(CandidateType::parse("bogus"), None);
    assert_eq!(Transport::Tcp.as_str(), "TCP");
    assert!(Candidate::from_sdp("f 1 UDP 1 10.0.0.1 4000 typ").is_none());
    assert!(Candidate::from_sdp("f 1 UDP 1 10.0.0.1 4000 typ nope").is_none());
}

#[test]
fn test_stun_error_io() {
    let io_err = std::io::Error::new(std::io::ErrorKind::Other, "test");
    let err: StunError = io_err.into();
    assert!(err.to_text().contains("IO error"));
}

#[test]
fn test_stun_error_timeout() {
    let err = StunError::Timeout;
    assert_eq!(err.to_text(), "Request timeout");
}

#[test]
fn test_stun_error_invalid_response() {
    let err = StunError::InvalidResponse("bad data".to_string());
    assert!(err.to_text().contains("Invalid response"));
    assert!(err.to_text().contains("bad data"));
}

#[test]
fn test_stun_error_error_response() {
    let err = StunError::ErrorResponse { code: 401, reason: "Unauthorized".to_string() };
    let msg = err.to_text();
    assert!(msg.contains("401"));
    assert!(msg.contains("Unauthorized"));
}

#[test]
fn test_stun_error_no_mapped_address() {
    let err = StunError::NoMappedAddress;
    assert!(err.to_text().contains("No mapped address"));
}

#[test]
fn test_stun_error_debug() {
    let err = StunError::Timeout;
    let debug = format!("{:?}", err);
    assert!(debug.contains("Timeout"));
}

#[test]
fn test_stun_server_new() {
    let addr = v4(1, 2, 3, 4, 3478);
    let server = StunServer::new(addr, "custom.stun.server");
    assert_eq!(server.addr, addr);
    assert_eq!(server.name, "custom.stun.server");
}

#[test]
fn test_stun_server_debug() {
    let debug = format!("{:?}", StunServer::google());
    assert!(debug.contains("StunServer"));
    assert!(debug.contains("google"));
}

#[test]
fn test_stun_server_clone() {
    let server = StunServer::google();
    let cloned = server.clone();
    assert_eq!(cloned.addr, server.addr);
    assert_eq!(cloned.name, server.name);
}

#[test]
fn test_stun_server_constants() {
    assert_eq!(StunServer::google().addr.port(), 19302);
    assert_eq!(StunServer::twilio().addr.port(), 3478);
}

#[test]
fn test_generate_transaction_id() {
    let id1 = generate_transaction_id();
    let id2 = generate_transaction_id();
    assert_eq!(id1.len(), 12);
    assert_ne!(id1, id2);
}

#[test]
fn test_build_binding_request() {
    let txn_id = [1u8; 12];
    let request = build_binding_request(&txn_id);
    assert_eq!(request.len(), 20);
    assert_eq!(request[0], 0x00);
    assert_eq!(request[1], 0x01);
    assert_eq!(request[2], 0x00);
    assert_eq!(request[3], 0x00);
    assert_eq!(request[4], 0x21);
    assert_eq!(request[5], 0x12);
    assert_eq!(request[6], 0xA4);
    assert_eq!(request[7], 0x42);
    assert_eq!(&request[8..20], &[1u8; 12]);
}

#[test]
fn test_parse_mapped_address_ipv4() {
    let data = [0x00, 0x01, 0x04, 0xD2, 192, 168, 1, 1];
    let addr = parse_mapped_address(&data, false).unwrap();
    assert_eq!(addr, v4(192, 168, 1, 1, 1234));
}

#[test]
fn test_parse_xor_mapped_address_ipv4() {
    let xor_port = 1234u16 ^ (MAGIC_COOKIE >> 16) as u16;
    let xor_ip = [192 ^ 0x21, 168 ^ 0x12, 1 ^ 0xA4, 1 ^ 0x42];
    let data = [0x00, 0x01, (xor_port >> 8) as u8, (xor_port & 0xFF) as u8, xor_ip[0], xor_ip[1], xor_ip[2], xor_ip[3]];
    let addr = parse_mapped_address(&data, true).unwrap();
    assert_eq!(addr, v4(192, 168, 1, 1, 1234));
}

#[test]
fn test_parse_mapped_address_ipv6() {
    let mut data = vec![0x00, AF_IPV6];
    data.extend_from_slice(&8080u16.to_be_bytes());
    let mut octets = [0u8; 16];
    octets[0] = 0x20;
    octets[1] = 0x01;
    octets[2] = 0x0d;
    octets[3] = 0xb8;
    octets[15] = 1;
    data.extend_from_slice(&octets);
    let addr = parse_mapped_address(&data, false).unwrap();
    assert_eq!(addr.port(), 8080);
    assert!(addr.is_ipv6());
    assert_eq!(addr.ip(), IpAddr::V6(octets));
}

#[test]
fn test_parse_mapped_address_too_short() {
    assert!(parse_mapped_address(&[0x00, 0x01, 0x00], false).is_none());
}

#[test]
fn test_parse_mapped_address_unknown_family() {
    assert!(parse_mapped_address(&[0x00, 0x03, 0x00, 0x50, 1, 2, 3, 4], false).is_none());
}

#[test]
fn test_parse_mapped_address_ipv4_too_short() {
    assert!(parse_mapped_address(&[0x00, AF_IPV4, 0x00, 0x50, 1, 2, 3], false).is_none());
}

#[test]
fn test_parse_mapped_address_ipv6_too_short() {
    assert!(parse_mapped_address(&[0x00, AF_IPV6, 0x00, 0x50, 1, 2, 3, 4, 5, 6, 7, 8], false).is_none());
}

#[test]
fn test_parse_binding_response() {
    let txn_id = [0x11u8; 12];
    let mut response = Vec::new();
    put_u16(&mut response, BINDING_RESPONSE);
    put_u16(&mut response, 12);
    put_u32(&mut response, MAGIC_COOKIE);
    response.extend_from_slice(&txn_id);
    put_u16(&mut response, ATTR_XOR_MAPPED_ADDRESS);
    put_u16(&mut response, 8);
    let xor_port = 5678u16 ^ (MAGIC_COOKIE >> 16) as u16;
    let xor_ip = [1 ^ 0x21, 2 ^ 0x12, 3 ^ 0xA4, 4 ^ 0x42];
    response.push(0x00);
    response.push(0x01);
    put_u16(&mut response, xor_port);
    response.extend_from_slice(&xor_ip);
    let addr = parse_binding_response(&response, &txn_id).unwrap();
    assert_eq!(addr, v4(1, 2, 3, 4, 5678));
}

#[test]
fn test_parse_binding_response_too_short() {
    let result = parse_binding_response(&[0u8; 10], &[0u8; 12]);
    assert!(matches!(result, Err(StunError::InvalidResponse(_))));
}

#[test]
fn test_parse_binding_response_wrong_type() {
    let mut response = Vec::new();
    put_u16(&mut response, 0x0002);
    put_u16(&mut response, 0);
    put_u32(&mut response, MAGIC_COOKIE);
    response.extend_from_slice(&[0u8; 12]);
    let result = parse_binding_response(&response, &[0u8; 12]);
    assert!(matches!(result, Err(StunError::InvalidResponse(_))));
}

#[test]
fn test_parse_binding_response_bad_cookie() {
    let mut response = Vec::new();
    put_u16(&mut response, BINDING_RESPONSE);
    put_u16(&mut response, 0);
    put_u32(&mut response, 0xDEADBEEF);
    response.extend_from_slice(&[0u8; 12]);
    let result = parse_binding_response(&response, &[0u8; 12]);
    assert!(matches!(result, Err(StunError::InvalidResponse(_))));
}

#[test]
fn test_parse_binding_response_txn_id_mismatch() {
    let mut response = Vec::new();
    put_u16(&mut response, BINDING_RESPONSE);
    put_u16(&mut response, 0);
    put_u32(&mut response, MAGIC_COOKIE);
    response.extend_from_slice(&[0x11u8; 12]);
    let result = parse_binding_response(&response, &[0x22u8; 12]);
    assert!(matches!(result, Err(StunError::InvalidResponse(_))));
}

#[test]
fn test_parse_binding_response_no_mapped_address() {
    let txn_id = [0x33u8; 12];
    let mut response = Vec::new();
    put_u16(&mut response, BINDING_RESPONSE);
    put_u16(&mut response, 8);
    put_u32(&mut response, MAGIC_COOKIE);
    response.extend_from_slice(&txn_id);
    put_u16(&mut response, ATTR_SOFTWARE);
    put_u16(&mut response, 4);
    response.extend_from_slice(b"test");
    let result = parse_binding_response(&response, &txn_id);
    assert!(matches!(result, Err(StunError::NoMappedAddress)));
}

#[test]
fn test_parse_binding_response_with_mapped_address() {
    let txn_id = [0x44u8; 12];
    let mut response = Vec::new();
    put_u16(&mut response, BINDING_RESPONSE);
    put_u16(&mut response, 12);
    put_u32(&mut response, MAGIC_COOKIE);
    response.extend_from_slice(&txn_id);
    put_u16(&mut response, ATTR_MAPPED_ADDRESS);
    put_u16(&mut response, 8);
    response.push(0x00);
    response.push(AF_IPV4);
    put_u16(&mut response, 5060);
    response.extend_from_slice(&[10, 0, 0, 1]);
    let addr = parse_binding_response(&response, &txn_id).unwrap();
    assert_eq!(addr, v4(10, 0, 0, 1, 5060));
}

#[test]
fn test_parse_error_response() {
    let mut attrs = Vec::new();
    put_u16(&mut attrs, ATTR_ERROR_CODE);
    put_u16(&mut attrs, 8);
    put_u16(&mut attrs, 0);
    attrs.push(4);
    attrs.push(1);
    attrs.extend_from_slice(b"Auth");
    match parse_error_response(&attrs) {
        StunError::ErrorResponse { code, reason } => {
            assert_eq!(code, 401);
            assert_eq!(reason, "Auth");
        }
        _ => panic!("Expected ErrorResponse"),
    }
}

#[test]
fn test_parse_error_response_no_reason() {
    let mut attrs = Vec::new();
    put_u16(&mut attrs, ATTR_ERROR_CODE);
    put_u16(&mut attrs, 4);
    put_u16(&mut attrs, 0);
    attrs.push(5);
    attrs.push(0);
    match parse_error_response(&attrs) {
        StunError::ErrorResponse { code, reason } => {
            assert_eq!(code, 500);
            assert!(reason.is_empty());
        }
        _ => panic!("Expected ErrorResponse"),
    }
}

#[test]
fn test_parse_error_response_no_error_attr() {
    let attrs = [0u8; 0];
    match parse_error_response(&attrs) {
        StunError::ErrorResponse { code, .. } => assert_eq!(code, 0),
        _ => panic!("Expected ErrorResponse"),
    }
}

#[test]
fn binding_error_response_is_decoded() {
    let txn_id = [0x55u8; 12];
    let mut response = Vec::new();
    put_u16(&mut response, 0x0111);
    put_u16(&mut response, 12);
    put_u32(&mut response, MAGIC_COOKIE);
    response.extend_from_slice(&txn_id);
    put_u16(&mut response, ATTR_ERROR_CODE);
    put_u16(&mut response, 8);
    put_u16(&mut response, 0);
    response.push(4);
    response.push(20);
    response.extend_from_slice(b"Oops");
    match parse_binding_response(&response, &txn_id) {
        Err(StunError::ErrorResponse { code, reason }) => {
            assert_eq!(code, 420);
            assert_eq!(reason, "Oops");
        }
        other => panic!("unexpected {:?}", other),
    }
}

#[test]
fn test_generate_ufrag() {
    let ufrag = generate_ice_ufrag();
    assert_eq!(ufrag.len(), 8);
    assert!(ufrag.chars().all(|c| c.is_ascii_alphanumeric()));
}

#[test]
fn test_generate_pwd() {
    let pwd = generate_ice_pwd();
    assert_eq!(pwd.len(), 24);
    assert!(pwd.chars().all(|c| c.is_ascii_alphanumeric()));
}

#[test]
fn test_generate_transaction_id_uniqueness() {
    let ids: Vec<_> = (0..10).map(|_| generate_transaction_id()).collect();
    for i in 0..ids.len() {
        for j in (i + 1)..ids.len() {
            assert_ne!(ids[i], ids[j]);
        }
    }
}

#[test]
fn reflexive_candidates_read_back_whole() {
    let mapped = v4(203, 0, 113, 1, 12345);
    let base = v4(192, 168, 1, 100, 5000);
    for c in [
        Candidate::server_reflexive(mapped, base, 1),
        Candidate::peer_reflexive(mapped, base, 2, 7),
        Candidate::host(v4(0, 0, 0, 0, 0), 255),
    ] {
        assert_eq!(Candidate::from_sdp(&c.to_sdp()), Some(c.clone()));
    }
}
