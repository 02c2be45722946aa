use rsiprtp::error::{ConfigError, Error, MediaError, SessionError, SipError, TransportError};

#[test]
fn error_messages() {
    assert_eq!(SipError::MissingHeader("Via".to_string()).to_text(), "Missing required header: Via");
    assert_eq!(
        SipError::InvalidDialogState { expected: "Confirmed".to_string(), actual: "Early".to_string() }.to_text(),
        "Invalid dialog state: expected Confirmed, got Early"
    );
    assert_eq!(SipError::Response { code: 486, reason: "Busy Here".to_string() }.to_text(), "SIP response error: 486 Busy Here");
    assert_eq!(MediaError::InvalidPayloadType(99).to_text(), "Invalid payload type: 99");
    assert_eq!(
        SessionError::InvalidStateTransition { from: "Idle".to_string(), to: "Established".to_string() }.to_text(),
        "Invalid state transition: Idle -> Established"
    );
    assert_eq!(ConfigError::InvalidPortRange { start: 5, end: 1 }.to_text(), "Invalid port range: 5..1");
    assert_eq!(
        TransportError::MessageTooLarge { size: 70000, max: 65536 }.to_text(),
        "Message too large: 70000 bytes (max 65536)"
    );
    let e: Error = SipError::TransactionTimeout.into();
    assert_eq!(e.to_text(), "SIP error: Transaction timeout");
    let e: Error = std::io::Error::new(std::io::ErrorKind::Other, "boom").into();
    assert!(e.to_text().starts_with("IO error: "));
    assert!(e.to_text().contains("boom"));
    let e: Error = TransportError::ConnectionClosed.into();
    assert_eq!(e.to_text(), "Transport error: Connection closed");
}
