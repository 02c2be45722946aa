use rsiprtp::error::{Error, SipError};
use rsiprtp::sip::message::{
    generate_branch, generate_call_id, generate_tag, Method, RawMessage, SipMessage, SipRequest, SipResponse,
};

const INVITE_MSG: &[u8] = b"INVITE sip:bob@biloxi.com SIP/2.0\r\n\
Via: SIP/2.0/UDP pc33.atlanta.com;branch=z9hG4bK776asdhds\r\n\
Max-Forwards: 70\r\n\
To: Bob <sip:bob@biloxi.com>\r\n\
From: Alice <sip:alice@atlanta.com>;tag=1928301774\r\n\
Call-ID: a84b4c76e66710@pc33.atlanta.com\r\n\
CSeq: 314159 INVITE\r\n\
Contact: <sip:alice@pc33.atlanta.com>\r\n\
Content-Type: application/sdp\r\n\
Content-Length: 0\r\n\
\r\n";

const RESPONSE_MSG: &[u8] = b"SIP/2.0 200 OK\r\n\
Via: SIP/2.0/UDP pc33.atlanta.com;branch=z9hG4bK776asdhds;received=192.0.2.1\r\n\
To: Bob <sip:bob@biloxi.com>;tag=a6c85cf\r\n\
From: Alice <sip:alice@atlanta.com>;tag=1928301774\r\n\
Call-ID: a84b4c76e66710@pc33.atlanta.com\r\n\
CSeq: 314159 INVITE\r\n\
Contact: <sip:bob@192.0.2.4>\r\n\
Content-Type: application/sdp\r\n\
Content-Length: 0\r\n\
\r\n";

#[test]
fn test_parse_invite() {
    let msg = SipMessage::parse(INVITE_MSG).unwrap();
    assert!(msg.is_request());
    let req = msg.as_request().unwrap();
    assert_eq!(req.method(), Method::Invite);
    assert!(req.call_id().unwrap().contains("a84b4c76e66710"));
    assert_eq!(req.from_tag().unwrap(), "1928301774");
    assert!(req.to_tag().is_none());
    assert_eq!(req.via_branch().unwrap(), "z9hG4bK776asdhds");
    assert_eq!(req.cseq().unwrap(), 314159);
    assert_eq!(req.cseq_method().unwrap(), Method::Invite);
}

#[test]
fn test_parse_response() {
    let msg = SipMessage::parse(RESPONSE_MSG).unwrap();
    assert!(msg.is_response());
    let resp = msg.as_response().unwrap();
    assert_eq!(resp.status_code(), 200);
    assert!(resp.is_success());
    assert!(!resp.is_provisional());
    assert!(!resp.is_failure());
    assert!(resp.call_id().unwrap().contains("a84b4c76e66710"));
    assert_eq!(resp.from_tag().unwrap(), "1928301774");
    assert_eq!(resp.to_tag(), Some("a6c85cf".to_string()));
    assert_eq!(resp.via_branch().unwrap(), "z9hG4bK776asdhds");
    assert_eq!(resp.reason(), "OK");
}

#[test]
fn test_build_request() {
    let req = SipRequest::builder()
        .method(Method::Invite)
        .uri("sip:bob@example.com")
        .via("192.168.1.1", 5060, "UDP", "z9hG4bKtest123")
        .from("sip:alice@example.com", "fromtag1")
        .to("sip:bob@example.com")
        .call_id("testcall@example.com")
        .cseq(1)
        .contact("sip:alice@192.168.1.1:5060")
        .build()
        .unwrap();
    assert_eq!(req.method(), Method::Invite);
    assert!(req.call_id().unwrap().contains("testcall"));
    assert_eq!(req.from_tag().unwrap(), "fromtag1");
    assert_eq!(req.cseq().unwrap(), 1);
}

#[test]
fn built_request_wire_text_exact() {
    let req = SipRequest::builder()
        .method(Method::Register)
        .uri("sip:registrar.example.com")
        .via("10.0.0.1", 5060, "UDP", "z9hG4bKabc")
        .from("sip:alice@example.com", "t1")
        .to("sip:alice@example.com")
        .call_id("c1@10.0.0.1")
        .cseq(2)
        .expires(3600)
        .build()
        .unwrap();
    let text = String::from_utf8(req.to_bytes()).unwrap();
    assert_eq!(
        text,
        "REGISTER sip:registrar.example.com SIP/2.0\r\n\
Via: SIP/2.0/UDP 10.0.0.1:5060;branch=z9hG4bKabc\r\n\
From: <sip:alice@example.com>;tag=t1\r\n\
To: <sip:alice@example.com>\r\n\
Call-ID: c1@10.0.0.1\r\n\
CSeq: 2 REGISTER\r\n\
Max-Forwards: 70\r\n\
Expires: 3600\r\n\
Content-Length: 0\r\n\r\n"
    );
}

#[test]
fn build_errors_come_in_order() {
    let e = SipRequest::builder().build().unwrap_err();
    assert!(matches!(e, Error::Sip(SipError::InvalidHeader(ref m)) if m == "Missing method"));
    let e = SipRequest::builder().method(Method::Bye).build().unwrap_err();
    assert!(matches!(e, Error::Sip(SipError::InvalidHeader(ref m)) if m == "Missing request URI"));
    // A URI error is reported before anything that is missing.
    let e = SipRequest::builder().uri("sip:").from("sip:", "t").build().unwrap_err();
    match e {
        Error::Sip(SipError::InvalidHeader(m)) => {
            assert!(m.starts_with("Invalid request URI 'sip:': ") || m == "Missing method", "{}", m)
        }
        other => panic!("unexpected {:?}", other),
    }
}

#[test]
fn body_sets_content_type_and_length() {
    let req = SipRequest::builder()
        .method(Method::Message)
        .uri("sip:bob@example.com")
        .via("h", 5070, "TCP", "z9hG4bKb")
        .from("sip:a@example.com", "f")
        .from_display("Alice")
        .to("sip:bob@example.com")
        .to_tag("tt")
        .call_id("c")
        .cseq(9)
        .max_forwards(10)
        .body(b"hello".to_vec(), "text/plain")
        .build()
        .unwrap();
    assert_eq!(req.content_type(), Some("Content-Type: text/plain".to_string()));
    assert_eq!(req.body(), b"hello");
    let text = String::from_utf8(req.to_bytes()).unwrap();
    assert!(text.contains("From: \"Alice\" <sip:a@example.com>;tag=f\r\n"));
    assert!(text.contains("To: <sip:bob@example.com>;tag=tt\r\n"));
    assert!(text.contains("Via: SIP/2.0/TCP h:5070;branch=z9hG4bKb\r\n"));
    assert!(text.contains("Max-Forwards: 10\r\n"));
    assert!(text.ends_with("Content-Length: 5\r\n\r\nhello"));
}

#[test]
fn test_build_response() {
    let msg = SipMessage::parse(INVITE_MSG).unwrap();
    let req = msg.as_request().unwrap();
    let resp = SipResponse::builder()
        .status(200, "OK")
        .from_request(req)
        .to_tag("totag123")
        .contact("sip:bob@192.168.1.2:5060")
        .build()
        .unwrap();
    assert_eq!(resp.status_code(), 200);
    assert!(resp.is_success());
    assert!(resp.call_id().unwrap().contains("a84b4c76e66710"));
    assert_eq!(resp.to_tag(), Some("totag123".to_string()));
}

#[test]
fn message_test_roundtrip() {
    let msg = SipMessage::parse(INVITE_MSG).unwrap();
    let bytes = msg.to_bytes();
    let msg2 = SipMessage::parse(&bytes).unwrap();
    let req1 = msg.as_request().unwrap();
    let req2 = msg2.as_request().unwrap();
    assert_eq!(req1.method(), req2.method());
    assert_eq!(req1.call_id().unwrap(), req2.call_id().unwrap());
}

#[test]
fn test_method_display() {
    assert_eq!(Method::Invite.as_str(), "INVITE");
    assert_eq!(Method::Ack.as_str(), "ACK");
    assert_eq!(Method::Register.as_str(), "REGISTER");
    assert_eq!(Method::from_name("PRACK"), Method::Prack);
    assert_eq!(Method::from_name("FOO"), Method::Other);
    assert!(Method::Subscribe.creates_dialog());
    assert!(!Method::Bye.creates_dialog());
}

#[test]
fn test_generate_branch() {
    let branch = generate_branch();
    assert!(branch.starts_with("z9hG4bK"));
    assert!(branch.len() > 10);
}

#[test]
fn test_generate_tag() {
    let tag = generate_tag();
    assert!(!tag.is_empty());
    assert!(tag.chars().all(|c| c.is_ascii_hexdigit()));
}

#[test]
fn test_generate_call_id() {
    let call_id = generate_call_id("example.com");
    assert!(call_id.ends_with("@example.com"));
    assert_eq!(call_id.len(), 32 + 1 + "example.com".len());
}

#[test]
fn missing_headers_are_reported() {
    let resp = SipResponse::builder().status(404, "Nope").build().unwrap();
    assert_eq!(resp.status_code(), 404);
    assert!(resp.is_failure());
    assert!(matches!(resp.call_id(), Err(Error::Sip(SipError::MissingHeader(ref h))) if h == "Call-ID"));
    assert!(matches!(resp.via_branch(), Err(Error::Sip(SipError::MissingHeader(ref h))) if h == "Via"));
    assert!(resp.www_authenticate().is_none());
    assert!(SipResponse::builder().build().is_err());
}

#[test]
fn message_from_read_parts() {
    let raw = RawMessage {
        is_request: true,
        code: 0,
        first: vec!["BYE".to_string(), "sip:bob@b.example".to_string(), "SIP/2.0".to_string()],
        headers: vec!["Call-ID: abc@h".to_string(), "X-Odd:v".to_string()],
        body: b"hi".to_vec(),
    };
    let q = SipMessage::from_raw(raw).as_request().cloned().unwrap();
    assert_eq!(q.method(), Method::Bye);
    assert_eq!(q.uri(), "sip:bob@b.example");
    assert_eq!(q.call_id().unwrap(), "abc@h");
    assert_eq!(q.body(), b"hi");

    let raw = RawMessage {
        is_request: false,
        code: 486,
        first: vec!["SIP/2.0".to_string(), "486 Busy Here".to_string()],
        headers: vec!["Call-ID: xyz".to_string()],
        body: Vec::new(),
    };
    let p = SipMessage::from_raw(raw).as_response().cloned().unwrap();
    assert_eq!(p.status_code(), 486);
    assert_eq!(p.reason(), "Busy Here");
    assert_eq!(p.call_id().unwrap(), "xyz");
}
