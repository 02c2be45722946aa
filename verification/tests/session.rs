use rsiprtp::session::call::{Call, CallConfig, CallDirection, CallEndReason, CallEvent, CallId, CallState, Dialog};
use rsiprtp::session::manager::{allocate_rtp_port, ManagerConfig};
use rsiprtp::session::registration::{RegistrationConfig, RegistrationError, RegistrationManager, RegistrationState};
use rsiprtp::sip::message::SipMessage;
use rsiprtp::time::unix_micros_now;
use std::sync::Arc;

fn test_config() -> RegistrationConfig {
    RegistrationConfig {
        registrar: "sip:registrar.example.com".to_string(),
        aor: "sip:alice@example.com".to_string(),
        contact: "sip:alice@192.168.1.100:5060".to_string(),
        username: "alice".to_string(),
        password: "secret".to_string(),
        expires: 3600,
        local_addr: "192.168.1.100".to_string(),
        local_port: 5060,
        transport: "UDP".to_string(),
    }
}

#[test]
fn test_create_register() {
    let mut manager = RegistrationManager::new(test_config());
    assert_eq!(manager.state(), RegistrationState::Unregistered);
    let request = manager.create_register().unwrap();
    assert_eq!(manager.state(), RegistrationState::Registering);
    let bytes = request.to_bytes();
    let msg = String::from_utf8_lossy(&bytes);
    assert!(msg.contains("REGISTER"));
    assert!(msg.contains("sip:registrar.example.com"));
    assert!(msg.contains("alice@example.com"));
    assert!(msg.contains("Expires: 3600"));
    assert!(msg.contains("CSeq: 2 REGISTER"));
}

#[test]
fn test_create_unregister() {
    let mut manager = RegistrationManager::new(test_config());
    manager.create_register().unwrap();
    manager.state = RegistrationState::Registered;
    let request = manager.create_unregister().unwrap();
    assert_eq!(manager.state(), RegistrationState::Unregistering);
    let bytes = request.to_bytes();
    let msg = String::from_utf8_lossy(&bytes);
    assert!(msg.contains("REGISTER"));
    assert!(msg.contains("Expires: 0"));
}

#[test]
fn test_handle_200_ok() {
    let mut manager = RegistrationManager::new(test_config());
    manager.create_register().unwrap();
    let response_bytes = b"SIP/2.0 200 OK\r\n\
Via: SIP/2.0/UDP 192.168.1.100:5060;branch=z9hG4bKtest\r\n\
From: <sip:alice@example.com>;tag=fromtag\r\n\
To: <sip:alice@example.com>;tag=totag\r\n\
Call-ID: test@192.168.1.100\r\n\
CSeq: 1 REGISTER\r\n\
Contact: <sip:alice@192.168.1.100:5060>\r\n\
Expires: 3600\r\n\
Content-Length: 0\r\n\
\r\n";
    let msg = SipMessage::parse(response_bytes).unwrap();
    let response = msg.as_response().unwrap();
    let result = manager.handle_response(response);
    assert!(result.is_ok());
    assert!(result.unwrap().is_none());
    assert_eq!(manager.state(), RegistrationState::Registered);
    assert!(manager.is_registered());
    assert!(!manager.needs_refresh());
}

#[test]
fn test_handle_401_challenge() {
    let mut manager = RegistrationManager::new(test_config());
    manager.create_register().unwrap();
    let response_bytes = b"SIP/2.0 401 Unauthorized\r\n\
Via: SIP/2.0/UDP 192.168.1.100:5060;branch=z9hG4bKtest\r\n\
From: <sip:alice@example.com>;tag=fromtag\r\n\
To: <sip:alice@example.com>;tag=totag\r\n\
Call-ID: test@192.168.1.100\r\n\
CSeq: 1 REGISTER\r\n\
WWW-Authenticate: Digest realm=\"asterisk\", nonce=\"abc123\"\r\n\
Content-Length: 0\r\n\
\r\n";
    let msg = SipMessage::parse(response_bytes).unwrap();
    let response = msg.as_response().unwrap();
    let result = manager.handle_response(response);
    assert!(result.is_ok(), "handle_response failed: {:?}", result.err());
    let retry = result.unwrap();
    assert!(retry.is_some());
    let retry_request = retry.unwrap();
    let bytes = retry_request.to_bytes();
    let msg = String::from_utf8_lossy(&bytes);
    assert!(msg.contains("Authorization: Digest"));
    assert!(msg.contains("username=\"alice\""));
    assert!(msg.contains("realm=\"asterisk\""));
    assert_eq!(manager.nc, 1);
    assert!(manager.last_challenge.is_some());
}

#[test]
fn registration_failure_and_missing_challenge() {
    let mut manager = RegistrationManager::new(test_config());
    manager.create_register().unwrap();
    let bytes = b"SIP/2.0 403 Forbidden\r\nContent-Length: 0\r\n\r\n";
    let msg = SipMessage::parse(bytes).unwrap();
    match manager.handle_response(msg.as_response().unwrap()) {
        Err(RegistrationError::Failed(code, reason)) => {
            assert_eq!(code, 403);
            assert_eq!(reason, "Forbidden");
        }
        other => panic!("unexpected {:?}", other),
    }
    assert_eq!(manager.state(), RegistrationState::Failed);
    let bytes = b"SIP/2.0 407 Proxy Authentication Required\r\nContent-Length: 0\r\n\r\n";
    let msg = SipMessage::parse(bytes).unwrap();
    match manager.handle_response(msg.as_response().unwrap()) {
        Err(RegistrationError::AuthError(m)) => assert_eq!(m, "407 without Proxy-Authenticate"),
        other => panic!("unexpected {:?}", other),
    }
    let bytes = b"SIP/2.0 100 Trying\r\nContent-Length: 0\r\n\r\n";
    let msg = SipMessage::parse(bytes).unwrap();
    assert!(manager.handle_response(msg.as_response().unwrap()).unwrap().is_none());
    assert_eq!(RegistrationError::Failed(486, "Busy".to_string()).to_text(), "registration failed: 486 Busy");
}

#[test]
fn test_needs_refresh() {
    let mut manager = RegistrationManager::new(test_config());
    assert!(!manager.needs_refresh());
    manager.state = RegistrationState::Registered;
    manager.expires_at = Some(unix_micros_now() + 10_000_000);
    assert!(manager.needs_refresh());
}

#[test]
fn refresh_margin_is_a_fifth_of_expiry() {
    let mut manager = RegistrationManager::new(test_config());
    manager.expires_at = Some(1_000_000_000);
    // 3600 / 5 = 720 s before expiry.
    assert!(!manager.needs_refresh_at(1_000_000_000 - 720_000_001));
    assert!(manager.needs_refresh_at(1_000_000_000 - 720_000_000));
}

#[test]
fn test_reset() {
    let mut manager = RegistrationManager::new(test_config());
    manager.state = RegistrationState::Registered;
    manager.expires_at = Some(unix_micros_now() + 3_600_000_000);
    manager.nc = 5;
    manager.reset();
    assert_eq!(manager.state(), RegistrationState::Unregistered);
    assert!(manager.expires_at.is_none());
    assert_eq!(manager.nc, 0);
    assert!(manager.call_id().ends_with("@192.168.1.100"));
    assert_eq!(manager.config().registrar, "sip:registrar.example.com");
}

#[test]
fn test_call_id() {
    let id1 = CallId::new();
    let id2 = CallId::new();
    assert_ne!(id1, id2);
}

#[test]
fn test_new_outbound_call() {
    let config = Arc::new(CallConfig::default());
    let call = Call::new_outbound(config, "sip:bob@example.com".to_string());
    assert_eq!(call.state(), CallState::Idle);
    assert_eq!(call.direction(), CallDirection::Outbound);
    assert_eq!(call.remote_uri(), "sip:bob@example.com");
}

#[test]
fn test_call_state_transitions() {
    let config = Arc::new(CallConfig::default());
    let mut call = Call::new_outbound(config, "sip:bob@example.com".to_string());
    call.set_state(CallState::Inviting);
    assert_eq!(call.state(), CallState::Inviting);
    call.handle_provisional(false);
    assert_eq!(call.state(), CallState::Ringing);
    call.handle_answer();
    assert_eq!(call.state(), CallState::Established);
    assert!(call.is_active());
    call.handle_ended(CallEndReason::NormalClearing);
    assert_eq!(call.state(), CallState::Terminated);
    assert!(!call.is_active());
}

#[test]
fn test_call_events() {
    let config = Arc::new(CallConfig::default());
    let mut call = Call::new_outbound(config, "sip:bob@example.com".to_string());
    call.handle_provisional(false);
    call.handle_answer();
    let events = call.drain_events();
    assert!(events.len() >= 2);
    assert!(matches!(events[0], CallEvent::StateChanged(CallState::Ringing)));
    assert!(matches!(events[1], CallEvent::Ringing));
    let events2 = call.drain_events();
    assert!(events2.is_empty());
}

#[test]
fn same_state_is_not_reported_twice() {
    let mut call = Call::new_outbound(Arc::new(CallConfig::default()), "sip:b@x".to_string());
    call.set_state(CallState::Idle);
    assert!(call.drain_events().is_empty());
    call.handle_provisional(true);
    assert!(call.can_receive_media());
    assert_eq!(call.drain_events().len(), 2);
}

#[test]
fn inbound_call_and_dialogs() {
    let d = Dialog::new_uas(
        "cid".to_string(),
        "ftag".to_string(),
        "ttag".to_string(),
        "sip:me@x".to_string(),
        "sip:you@y".to_string(),
        7,
    );
    assert_eq!(d.id().local_tag, "ttag");
    assert_eq!(d.id().remote_tag, "ftag");
    let mut call = Call::new_inbound(Arc::new(CallConfig::default()), "sip:you@y".to_string(), d);
    assert_eq!(call.state(), CallState::Ringing);
    assert_eq!(call.dialog_id().unwrap().call_id, "cid");
    assert_eq!(call.dialog_mut().unwrap().next_cseq(), 8);
    assert_eq!(call.dialog().unwrap().local_cseq(), 8);
    let u = Dialog::new_uac("c".to_string(), "f".to_string(), "t".to_string(), "l".to_string(), "r".to_string(), 1);
    assert_eq!(u.id().local_tag, "f");
    assert_eq!(u.local_uri(), "l");
    assert_eq!(u.remote_uri(), "r");
}

#[test]
fn manager_config_and_ports() {
    let c = ManagerConfig::default();
    assert_eq!(c.rtp_port_range, (10000, 20000));
    assert_eq!(c.local_sip_addr, "127.0.0.1:5060");
    assert_eq!(allocate_rtp_port(10000, (10000, 20000)), (10000, 10002));
    assert_eq!(allocate_rtp_port(19999, (10000, 20000)), (19999, 10000));
}

#[test]
fn test_port_allocation() {
    let config = ManagerConfig::default();
    let mut next = config.rtp_port_range.0;

    let (port1, after1) = allocate_rtp_port(next, config.rtp_port_range);
    next = after1;
    let (port2, _) = allocate_rtp_port(next, config.rtp_port_range);

    assert_eq!(port1, 10000);
    assert_eq!(port2, 10002);
}
