use rsiprtp::sip::message::{Method, SipRequest, SipResponse};
use rsiprtp::transaction::client::invite::{
    Action, Event, InviteClientTransaction, State, TransactionId,
};
use rsiprtp::transaction::client::non_invite::{
    Action as NiAction, Event as NiEvent, NonInviteClientTransaction, State as NiState,
};
use rsiprtp::transaction::manager::{alloc_handle, TransactionHandle, TransactionType};
use rsiprtp::transaction::timer::Timer;

fn create_invite() -> SipRequest {
    SipRequest::builder()
        .method(Method::Invite)
        .uri("sip:bob@example.com")
        .via("192.168.1.1", 5060, "UDP", "z9hG4bKtest")
        .from("sip:alice@example.com", "fromtag")
        .to("sip:bob@example.com")
        .call_id("test@example.com")
        .cseq(1)
        .build()
        .unwrap()
}

fn create_invite_response(code: u16) -> SipResponse {
    let invite = create_invite();
    SipResponse::builder()
        .status(code, "Test")
        .from_request(&invite)
        .to_tag("totag")
        .build()
        .unwrap()
}

fn create_register() -> SipRequest {
    SipRequest::builder()
        .method(Method::Register)
        .uri("sip:example.com")
        .via("192.168.1.1", 5060, "UDP", "z9hG4bKtest")
        .from("sip:alice@example.com", "fromtag")
        .to("sip:alice@example.com")
        .call_id("register@example.com")
        .cseq(1)
        .build()
        .unwrap()
}

fn create_register_response(code: u16) -> SipResponse {
    let req = create_register();
    SipResponse::builder()
        .status(code, "Test")
        .from_request(&req)
        .to_tag("totag")
        .build()
        .unwrap()
}

// ---- INVITE client transaction ----

#[test]
fn invite_test_new_transaction() {
    let invite = create_invite();
    let tx = InviteClientTransaction::new(invite, false).unwrap();
    assert_eq!(tx.state(), State::Calling);
    assert!(!tx.is_terminated());
}

#[test]
fn invite_test_provisional_response() {
    let invite = create_invite();
    let mut tx = InviteClientTransaction::new(invite, false).unwrap();
    tx.poll_actions();

    let resp = create_invite_response(180);
    tx.handle_response(resp);

    assert_eq!(tx.state(), State::Proceeding);
    let actions = tx.poll_actions();
    assert!(actions.iter().any(|a| matches!(a, Action::Event(Event::Provisional(_)))));
}

#[test]
fn invite_test_success_response() {
    let invite = create_invite();
    let mut tx = InviteClientTransaction::new(invite, false).unwrap();
    tx.poll_actions();

    let resp = create_invite_response(200);
    tx.handle_response(resp);

    assert_eq!(tx.state(), State::Terminated);
    let actions = tx.poll_actions();
    assert!(actions.iter().any(|a| matches!(a, Action::Event(Event::Success(_)))));
}

#[test]
fn test_failure_response_unreliable() {
    let invite = create_invite();
    let mut tx = InviteClientTransaction::new(invite, false).unwrap();
    tx.poll_actions();

    let resp = create_invite_response(404);
    tx.handle_response(resp);

    assert_eq!(tx.state(), State::Completed);
    let actions = tx.poll_actions();
    assert!(actions.iter().any(|a| matches!(a, Action::Event(Event::Failure(_)))));
    assert!(actions.iter().any(|a| matches!(a, Action::SetTimer(Timer::D, _))));
}

#[test]
fn test_failure_response_reliable() {
    let invite = create_invite();
    let mut tx = InviteClientTransaction::new(invite, true).unwrap();
    tx.poll_actions();

    let resp = create_invite_response(404);
    tx.handle_response(resp);

    assert_eq!(tx.state(), State::Terminated);
}

#[test]
fn test_timer_b_timeout() {
    let invite = create_invite();
    let mut tx = InviteClientTransaction::new(invite, true).unwrap();
    tx.poll_actions();

    tx.handle_timeout(Timer::B);

    assert_eq!(tx.state(), State::Terminated);
    let actions = tx.poll_actions();
    assert!(actions.iter().any(|a| matches!(a, Action::Event(Event::Timeout))));
}

#[test]
fn test_timer_a_retransmit() {
    let invite = create_invite();
    let mut tx = InviteClientTransaction::new(invite, false).unwrap();
    tx.poll_actions();

    tx.handle_timeout(Timer::A);

    assert_eq!(tx.state(), State::Calling);
    let actions = tx.poll_actions();
    assert!(actions.iter().any(|a| matches!(a, Action::Send(_))));
}

#[test]
fn test_timer_d_terminates() {
    let invite = create_invite();
    let mut tx = InviteClientTransaction::new(invite, false).unwrap();
    tx.poll_actions();

    let resp = create_invite_response(404);
    tx.handle_response(resp);
    tx.poll_actions();

    assert_eq!(tx.state(), State::Completed);

    tx.handle_timeout(Timer::D);
    assert_eq!(tx.state(), State::Terminated);
}

#[test]
fn invite_new_queues_send_and_timers() {
    let invite = create_invite();
    let bytes = invite.to_bytes();
    let mut tx = InviteClientTransaction::new(invite, false).unwrap();
    let actions = tx.poll_actions();
    assert_eq!(actions.len(), 3);
    assert!(matches!(&actions[0], Action::Send(b) if *b == bytes));
    assert!(matches!(&actions[1], Action::SetTimer(Timer::A, d) if d.as_millis() == 500));
    assert!(matches!(&actions[2], Action::SetTimer(Timer::B, d) if d.as_millis() == 32_000));
    // The queue is drained by a poll.
    assert!(tx.poll_actions().is_empty());
}

#[test]
fn invite_timer_a_doubles_interval() {
    let mut tx = InviteClientTransaction::new(create_invite(), false).unwrap();
    tx.poll_actions();
    tx.handle_timeout(Timer::A);
    let actions = tx.poll_actions();
    assert!(actions.iter().any(|a| matches!(a, Action::SetTimer(Timer::A, d) if d.as_millis() == 1000)));
    tx.handle_timeout(Timer::A);
    let actions = tx.poll_actions();
    assert!(actions.iter().any(|a| matches!(a, Action::SetTimer(Timer::A, d) if d.as_millis() == 2000)));
}

#[test]
fn invite_failure_sends_ack() {
    let mut tx = InviteClientTransaction::new(create_invite(), false).unwrap();
    tx.poll_actions();
    tx.handle_response(create_invite_response(486));
    let actions = tx.poll_actions();
    let sent: Vec<&Vec<u8>> = actions
        .iter()
        .filter_map(|a| match a {
            Action::Send(b) => Some(b),
            _ => None,
        })
        .collect();
    assert_eq!(sent.len(), 1);
    let text = String::from_utf8(sent[0].clone()).unwrap();
    assert!(text.starts_with("ACK sip:bob@example.com SIP/2.0"));
    assert!(matches!(
        actions.iter().find(|a| matches!(a, Action::SetTimer(Timer::D, _))),
        Some(Action::SetTimer(Timer::D, d)) if d.as_millis() == 33_000
    ));
}

#[test]
fn invite_terminated_ignores_responses_and_timers() {
    let mut tx = InviteClientTransaction::new(create_invite(), true).unwrap();
    tx.handle_response(create_invite_response(200));
    assert_eq!(tx.state(), State::Terminated);
    tx.poll_actions();
    tx.handle_response(create_invite_response(404));
    tx.handle_timeout(Timer::B);
    assert_eq!(tx.state(), State::Terminated);
    assert!(tx.poll_actions().is_empty());
}

#[test]
fn invite_transport_error_terminates() {
    let mut tx = InviteClientTransaction::new(create_invite(), false).unwrap();
    tx.poll_actions();
    tx.handle_transport_error();
    assert_eq!(tx.state(), State::Terminated);
    let actions = tx.poll_actions();
    assert!(actions.iter().any(|a| matches!(a, Action::Event(Event::TransportError))));
}

#[test]
fn invite_rejects_non_invite() {
    assert!(InviteClientTransaction::new(create_register(), false).is_none());
}

#[test]
fn transaction_id_matches_request_and_response() {
    let req = create_invite();
    let resp = create_invite_response(200);
    let a = TransactionId::from_request(&req).unwrap();
    let b = TransactionId::from_request(&create_invite()).unwrap();
    assert!(a.same(&b));
    let tx = InviteClientTransaction::new(req, false).unwrap();
    assert!(tx.id().same(&a));
    // The response copies the request's Via, so its branch and method agree.
    if let Some(c) = TransactionId::from_response(&resp) {
        assert!(c.same(&a));
    }
    let reg = TransactionId::from_request(&create_register()).unwrap();
    assert!(!reg.same(&a));
}

// ---- non-INVITE client transaction ----

#[test]
fn non_invite_test_new_transaction() {
    let req = create_register();
    let tx = NonInviteClientTransaction::new(req, false).unwrap();
    assert_eq!(tx.state(), NiState::Trying);
    assert!(!tx.is_terminated());
}

#[test]
fn test_reject_invite() {
    let invite = SipRequest::builder()
        .method(Method::Invite)
        .uri("sip:bob@example.com")
        .via("192.168.1.1", 5060, "UDP", "z9hG4bKtest")
        .from("sip:alice@example.com", "fromtag")
        .to("sip:bob@example.com")
        .call_id("test@example.com")
        .cseq(1)
        .build()
        .unwrap();
    let tx = NonInviteClientTransaction::new(invite, false);
    assert!(tx.is_none());
}

#[test]
fn non_invite_test_provisional_response() {
    let req = create_register();
    let mut tx = NonInviteClientTransaction::new(req, false).unwrap();
    tx.poll_actions();

    let resp = create_register_response(100);
    tx.handle_response(resp);

    assert_eq!(tx.state(), NiState::Proceeding);
    let actions = tx.poll_actions();
    assert!(actions.iter().any(|a| matches!(a, NiAction::Event(NiEvent::Provisional(_)))));
}

#[test]
fn non_invite_test_success_response() {
    let req = create_register();
    let mut tx = NonInviteClientTransaction::new(req, false).unwrap();
    tx.poll_actions();

    let resp = create_register_response(200);
    tx.handle_response(resp);

    assert_eq!(tx.state(), NiState::Completed);
    let actions = tx.poll_actions();
    assert!(actions.iter().any(|a| matches!(a, NiAction::Event(NiEvent::FinalResponse(_)))));
    assert!(actions.iter().any(|a| matches!(a, NiAction::SetTimer(Timer::K, _))));
}

#[test]
fn test_failure_response() {
    let req = create_register();
    let mut tx = NonInviteClientTransaction::new(req, false).unwrap();
    tx.poll_actions();

    let resp = create_register_response(401);
    tx.handle_response(resp);

    assert_eq!(tx.state(), NiState::Completed);
}

#[test]
fn test_timer_f_timeout() {
    let req = create_register();
    let mut tx = NonInviteClientTransaction::new(req, true).unwrap();
    tx.poll_actions();

    tx.handle_timeout(Timer::F);

    assert_eq!(tx.state(), NiState::Terminated);
    let actions = tx.poll_actions();
    assert!(actions.iter().any(|a| matches!(a, NiAction::Event(NiEvent::Timeout))));
}

#[test]
fn test_timer_e_retransmit() {
    let req = create_register();
    let mut tx = NonInviteClientTransaction::new(req, false).unwrap();
    tx.poll_actions();

    tx.handle_timeout(Timer::E);

    assert_eq!(tx.state(), NiState::Trying);
    let actions = tx.poll_actions();
    assert!(actions.iter().any(|a| matches!(a, NiAction::Send(_))));
}

#[test]
fn test_timer_k_terminates() {
    let req = create_register();
    let mut tx = NonInviteClientTransaction::new(req, false).unwrap();
    tx.poll_actions();

    let resp = create_register_response(200);
    tx.handle_response(resp);
    tx.poll_actions();

    assert_eq!(tx.state(), NiState::Completed);

    tx.handle_timeout(Timer::K);
    assert_eq!(tx.state(), NiState::Terminated);
}

#[test]
fn test_reliable_transport_immediate_terminate() {
    let req = create_register();
    let mut tx = NonInviteClientTransaction::new(req, true).unwrap();
    tx.poll_actions();

    let resp = create_register_response(200);
    tx.handle_response(resp);

    assert_eq!(tx.state(), NiState::Terminated);
}

#[test]
fn non_invite_late_responses_ignored() {
    let mut tx = NonInviteClientTransaction::new(create_register(), false).unwrap();
    tx.handle_response(create_register_response(200));
    tx.poll_actions();
    tx.handle_response(create_register_response(500));
    assert_eq!(tx.state(), NiState::Completed);
    assert!(tx.poll_actions().is_empty());
}

#[test]
fn non_invite_timer_e_in_proceeding_doubles() {
    let mut tx = NonInviteClientTransaction::new(create_register(), false).unwrap();
    tx.poll_actions();
    tx.handle_response(create_register_response(100));
    tx.poll_actions();
    tx.handle_timeout(Timer::E);
    let actions = tx.poll_actions();
    assert!(actions.iter().any(|a| matches!(a, NiAction::Send(_))));
    assert!(actions.iter().any(|a| matches!(a, NiAction::SetTimer(Timer::E, d) if d.as_millis() == 1000)));
}

// ---- manager handles ----

#[test]
fn handles_are_allocated_in_order() {
    let mut next: u64 = 1;
    let a = alloc_handle(&mut next);
    let b = alloc_handle(&mut next);
    assert_eq!(a, TransactionHandle(1));
    assert_eq!(b, TransactionHandle(2));
    assert_eq!(next, 3);
    assert!(TransactionType::InviteClient.is_client());
    assert!(TransactionType::NonInviteClient.is_client());
    assert!(!TransactionType::InviteServer.is_client());
    assert!(!TransactionType::NonInviteServer.is_client());
}
