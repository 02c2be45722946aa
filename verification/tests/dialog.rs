use rsiprtp::dialog::invite::{Action, Event, InviteDialog, Role, TerminationReason};
use rsiprtp::dialog::manager::{DialogHandle, DialogManager, ManagerAction, ManagerEvent};
use rsiprtp::dialog::state::{DialogId, DialogInfo, DialogState, RouteSet};
use rsiprtp::sip::message::{Method, SipRequest, SipResponse};

fn make_invite() -> SipRequest {
    SipRequest::builder()
        .method(Method::Invite)
        .uri("sip:bob@example.com")
        .via("192.168.1.1", 5060, "UDP", "z9hG4bKtest")
        .from("sip:alice@example.com", "fromtag")
        .to("sip:bob@example.com")
        .call_id("test@example.com")
        .cseq(1)
        .contact("sip:alice@192.168.1.1:5060")
        .build()
        .unwrap()
}

fn make_state_response(request: &SipRequest) -> SipResponse {
    SipResponse::builder()
        .status(200, "OK")
        .from_request(request)
        .to_tag("totag")
        .contact("sip:bob@192.168.1.2:5060")
        .build()
        .unwrap()
}

fn make_response(request: &SipRequest, code: u16) -> SipResponse {
    SipResponse::builder()
        .status(code, "Test")
        .from_request(request)
        .to_tag("totag")
        .contact("sip:bob@192.168.1.2:5060")
        .build()
        .unwrap()
}

// ---- state ----

#[test]
fn test_dialog_id_from_response_uac() {
    let invite = make_invite();
    let response = make_state_response(&invite);
    let id = DialogId::from_response_uac(&response).unwrap();

    assert_eq!(id.call_id, "test@example.com");
    assert_eq!(id.local_tag, "fromtag");
    assert_eq!(id.remote_tag, "totag");
}

#[test]
fn test_dialog_id_from_request_uas() {
    let invite = make_invite();
    let id = DialogId::from_request_uas(&invite, "mytag").unwrap();

    assert_eq!(id.call_id, "test@example.com");
    assert_eq!(id.local_tag, "mytag");
    assert_eq!(id.remote_tag, "fromtag");
}

#[test]
fn test_dialog_info_from_response() {
    let invite = make_invite();
    let response = make_state_response(&invite);
    let info = DialogInfo::from_invite_response_uac(&invite, &response, DialogState::Confirmed).unwrap();

    assert_eq!(info.state, DialogState::Confirmed);
    assert_eq!(info.local_seq, 1);
    assert!(info.remote_seq.is_none());
}

#[test]
fn test_next_local_seq() {
    let invite = make_invite();
    let response = make_state_response(&invite);
    let mut info = DialogInfo::from_invite_response_uac(&invite, &response, DialogState::Confirmed).unwrap();

    assert_eq!(info.next_local_seq(), 2);
    assert_eq!(info.next_local_seq(), 3);
}

#[test]
fn test_update_remote_seq() {
    let invite = make_invite();
    let response = make_state_response(&invite);
    let mut info = DialogInfo::from_invite_response_uac(&invite, &response, DialogState::Confirmed).unwrap();

    assert!(info.update_remote_seq(1));
    assert!(info.update_remote_seq(2));
    assert!(!info.update_remote_seq(1));
    assert!(!info.update_remote_seq(2));
}

#[test]
fn dialog_id_from_request_uac_uses_from_tag() {
    let invite = make_invite();
    let id = DialogId::from_request_uac(&invite, "theirs").unwrap();
    assert_eq!(id.call_id, "test@example.com");
    assert_eq!(id.local_tag, "fromtag");
    assert_eq!(id.remote_tag, "theirs");
    assert!(id.same(&DialogId::new("test@example.com", "fromtag", "theirs")));
    assert!(!id.same(&DialogId::new("test@example.com", "fromtag", "other")));
}

#[test]
fn dialog_info_fields_uac_and_uas() {
    let invite = make_invite();
    let response = make_state_response(&invite);
    let uac = DialogInfo::from_invite_response_uac(&invite, &response, DialogState::Early).unwrap();
    assert_eq!(uac.id.remote_tag, "totag");
    assert_eq!(uac.local_uri, "sip:alice@example.com");
    assert_eq!(uac.remote_uri, "sip:bob@example.com");
    assert_eq!(uac.remote_target, "sip:bob@192.168.1.2:5060");
    assert!(uac.route_set.is_empty());
    assert!(!uac.secure);

    let uas = DialogInfo::from_invite_uas(&invite, "mine", "sip:me@host", DialogState::Early).unwrap();
    assert_eq!(uas.id.local_tag, "mine");
    assert_eq!(uas.id.remote_tag, "fromtag");
    assert_eq!(uas.local_seq, 0);
    assert_eq!(uas.remote_seq, Some(1));
    assert_eq!(uas.local_uri, "sip:bob@example.com");
    assert_eq!(uas.remote_uri, "sip:alice@example.com");
    assert_eq!(uas.remote_target, "sip:alice@192.168.1.1:5060");
}

#[test]
fn dialog_info_needs_contact() {
    let invite = SipRequest::builder()
        .method(Method::Invite)
        .uri("sip:bob@example.com")
        .via("192.168.1.1", 5060, "UDP", "z9hG4bKtest")
        .from("sip:alice@example.com", "fromtag")
        .to("sip:bob@example.com")
        .call_id("test@example.com")
        .cseq(1)
        .build()
        .unwrap();
    assert!(DialogInfo::from_invite_uas(&invite, "mine", "sip:me@host", DialogState::Early).is_none());
}

#[test]
fn secure_dialog_over_tls() {
    let invite = SipRequest::builder()
        .method(Method::Invite)
        .uri("sip:bob@example.com")
        .via("192.168.1.1", 5061, "TLS", "z9hG4bKtls")
        .from("sip:alice@example.com", "fromtag")
        .to("sip:bob@example.com")
        .call_id("tls@example.com")
        .cseq(1)
        .contact("sip:alice@192.168.1.1:5061")
        .build()
        .unwrap();
    let uas = DialogInfo::from_invite_uas(&invite, "mine", "sip:me@host", DialogState::Early).unwrap();
    assert!(uas.secure);
}

#[test]
fn route_set_from_record_route_values() {
    let values = vec![
        "Record-Route: <sip:p1.example.com;lr>, <sip:p2.example.com;lr>".to_string(),
        "Record-Route: <sip:p3.example.com>".to_string(),
    ];
    let forward = RouteSet::from_record_route_values(&values, false);
    assert_eq!(forward.len(), 3);
    assert_eq!(forward.routes()[0], "<sip:p1.example.com;lr>");
    assert_eq!(forward.routes()[1], "<sip:p2.example.com;lr>");
    assert_eq!(forward.routes()[2], "<sip:p3.example.com>");
    assert!(forward.is_loose_routing());

    let reversed = RouteSet::from_record_route_values(&values, true);
    assert_eq!(reversed.routes()[0], "<sip:p3.example.com>");
    assert_eq!(reversed.routes()[2], "<sip:p1.example.com;lr>");
    assert!(!reversed.is_loose_routing());

    let strict = RouteSet::from_record_route_values(&["<sip:p9.example.com>".to_string()], false);
    assert_eq!(strict.len(), 1);
    assert!(!strict.is_loose_routing());

    let empty = RouteSet::from_record_route_values(&[], true);
    assert!(empty.is_empty());
    assert!(!empty.is_loose_routing());
    assert!(RouteSet::new().is_empty());
}

// ---- INVITE dialog ----

#[test]
fn test_uac_dialog_creation() {
    let invite = make_invite();
    let dialog = InviteDialog::new_uac(invite);

    assert_eq!(dialog.role(), Role::Uac);
    assert_eq!(dialog.state(), DialogState::Early);
}

#[test]
fn test_uac_dialog_established_on_200() {
    let invite = make_invite();
    let mut dialog = InviteDialog::new_uac(invite.clone());

    let response = make_response(&invite, 200);
    dialog.handle_response(response);

    assert_eq!(dialog.state(), DialogState::Confirmed);
    let actions = dialog.poll_actions();
    assert!(actions.iter().any(|a| matches!(a, Action::Event(Event::Established))));
}

#[test]
fn test_uac_dialog_rejected() {
    let invite = make_invite();
    let mut dialog = InviteDialog::new_uac(invite.clone());

    let response = make_response(&invite, 486);
    dialog.handle_response(response);

    assert_eq!(dialog.state(), DialogState::Terminated);
}

#[test]
fn test_uas_dialog_creation() {
    let invite = make_invite();
    let dialog = InviteDialog::new_uas(invite, "mytag", "sip:me@192.168.1.2:5060").unwrap();

    assert_eq!(dialog.role(), Role::Uas);
    assert_eq!(dialog.state(), DialogState::Early);
}

#[test]
fn test_uas_dialog_established_on_200() {
    let invite = make_invite();
    let mut dialog = InviteDialog::new_uas(invite.clone(), "mytag", "sip:me@192.168.1.2:5060").unwrap();

    let response = SipResponse::builder()
        .status(200, "OK")
        .from_request(&invite)
        .to_tag("mytag")
        .contact("sip:bob@192.168.1.2:5060")
        .build()
        .unwrap();

    dialog.send_response(response);

    assert_eq!(dialog.state(), DialogState::Confirmed);
}

#[test]
fn test_bye_terminates_dialog() {
    let invite = make_invite();
    let mut dialog = InviteDialog::new_uac(invite.clone());

    let response = make_response(&invite, 200);
    dialog.handle_response(response);
    dialog.poll_actions();

    let bye = SipRequest::builder()
        .method(Method::Bye)
        .uri("sip:alice@example.com")
        .via("192.168.1.2", 5060, "UDP", "z9hG4bKbye")
        .from("sip:bob@example.com", "totag")
        .to("sip:alice@example.com")
        .to_tag("fromtag")
        .call_id("test@example.com")
        .cseq(1)
        .build()
        .unwrap();

    dialog.handle_request(bye);
    assert_eq!(dialog.state(), DialogState::Terminated);
}

#[test]
fn uac_provisional_and_session_progress() {
    let invite = make_invite();
    let mut dialog = InviteDialog::new_uac(invite.clone());
    dialog.handle_response(make_response(&invite, 100));
    assert!(dialog.poll_actions().is_empty());
    dialog.handle_response(make_response(&invite, 183));
    let actions = dialog.poll_actions();
    assert_eq!(actions.len(), 2);
    assert!(matches!(actions[0], Action::Event(Event::SessionProgress(_))));
    assert!(matches!(actions[1], Action::Event(Event::Provisional(_))));
    assert_eq!(dialog.state(), DialogState::Early);
    assert_eq!(dialog.id().remote_tag, "totag");
}

#[test]
fn uac_reinvite_requires_increasing_cseq() {
    let invite = make_invite();
    let mut dialog = InviteDialog::new_uac(invite.clone());
    dialog.handle_response(make_response(&invite, 200));
    dialog.poll_actions();
    let reinvite = |seq: u32| {
        SipRequest::builder()
            .method(Method::Invite)
            .uri("sip:alice@example.com")
            .via("192.168.1.2", 5060, "UDP", "z9hG4bKre")
            .from("sip:bob@example.com", "totag")
            .to("sip:alice@example.com")
            .to_tag("fromtag")
            .call_id("test@example.com")
            .cseq(seq)
            .build()
            .unwrap()
    };
    dialog.handle_request(reinvite(5));
    assert!(matches!(dialog.poll_actions()[0], Action::Event(Event::ReInvite(_))));
    dialog.handle_request(reinvite(5));
    assert!(dialog.poll_actions().is_empty());
    assert_eq!(dialog.info().remote_seq, Some(5));
}

#[test]
fn uas_cancel_and_rejection() {
    let invite = make_invite();
    let mut dialog = InviteDialog::new_uas(invite.clone(), "mytag", "sip:me@host").unwrap();
    let cancel = SipRequest::builder()
        .method(Method::Cancel)
        .uri("sip:bob@example.com")
        .via("192.168.1.1", 5060, "UDP", "z9hG4bKtest")
        .from("sip:alice@example.com", "fromtag")
        .to("sip:bob@example.com")
        .call_id("test@example.com")
        .cseq(1)
        .build()
        .unwrap();
    dialog.handle_request(cancel);
    assert!(dialog.is_terminated());
    let actions = dialog.poll_actions();
    assert!(matches!(actions[0], Action::Event(Event::Terminated(TerminationReason::Cancelled))));

    let mut other = InviteDialog::new_uas(invite.clone(), "mytag", "sip:me@host").unwrap();
    let busy = SipResponse::builder()
        .status(486, "Busy Here")
        .from_request(&invite)
        .to_tag("mytag")
        .build()
        .unwrap();
    other.send_response(busy);
    assert!(other.is_terminated());
    let actions = other.poll_actions();
    assert!(matches!(actions[0], Action::SendResponse(_)));
    assert!(matches!(actions[1], Action::Event(Event::Terminated(TerminationReason::Rejected(486)))));
}

#[test]
fn uac_send_bye_builds_request() {
    let invite = make_invite();
    let mut dialog = InviteDialog::new_uac(invite.clone());
    assert!(dialog.send_bye().is_none());
    dialog.handle_response(make_response(&invite, 200));
    dialog.poll_actions();
    let bye = dialog.send_bye().unwrap();
    assert_eq!(bye.method(), Method::Bye);
    assert_eq!(bye.uri(), "sip:bob@192.168.1.2:5060");
    assert_eq!(bye.cseq().unwrap(), 2);
    assert_eq!(bye.call_id().unwrap(), "test@example.com");
    assert_eq!(bye.from_tag().unwrap(), "fromtag");
    assert_eq!(bye.to_tag().unwrap(), "totag");
    assert!(bye.via_branch().unwrap().starts_with("z9hG4bK"));
    assert_eq!(dialog.state(), DialogState::Terminating);
    let actions = dialog.poll_actions();
    assert!(matches!(actions[0], Action::SendRequest(_)));
    assert!(!dialog.is_ack_complete());
    dialog.ack_sent();
    assert!(dialog.is_ack_complete());
}

// ---- manager ----

#[test]
fn test_create_uac_dialog() {
    let mut mgr = DialogManager::new("sip:me@192.168.1.1:5060");
    let invite = make_invite();

    let handle = mgr.create_dialog(invite).unwrap();
    assert!(handle.0 > 0);

    let dialog = mgr.dialog(handle).unwrap();
    assert_eq!(dialog.role(), Role::Uac);
}

#[test]
fn test_handle_response_establishes_dialog() {
    let mut mgr = DialogManager::new("sip:me@192.168.1.1:5060");
    let invite = make_invite();

    let handle = mgr.create_dialog(invite.clone()).unwrap();
    let response = make_response(&invite, 200);

    let result_handle = mgr.handle_response(response).unwrap();
    assert_eq!(result_handle, handle);

    let dialog = mgr.dialog(handle).unwrap();
    assert_eq!(dialog.state(), DialogState::Confirmed);
}

#[test]
fn test_incoming_invite_creates_dialog() {
    let mut mgr = DialogManager::new("sip:me@192.168.1.2:5060");
    let invite = make_invite();

    let handle = mgr.handle_request(invite).unwrap();

    let dialog = mgr.dialog(handle).unwrap();
    assert_eq!(dialog.role(), Role::Uas);
    assert_eq!(dialog.state(), DialogState::Early);

    let actions = mgr.poll_actions();
    assert!(actions.iter().any(|a| matches!(a, ManagerAction::Event(_, ManagerEvent::IncomingInvite(_)))));
}

#[test]
fn test_send_200_establishes_dialog() {
    let mut mgr = DialogManager::new("sip:me@192.168.1.2:5060");
    let invite = make_invite();

    let handle = mgr.handle_request(invite.clone()).unwrap();
    mgr.poll_actions();

    let response = SipResponse::builder()
        .status(200, "OK")
        .from_request(&invite)
        .to_tag("localtag")
        .contact("sip:bob@192.168.1.2:5060")
        .build()
        .unwrap();

    mgr.send_response(handle, response);

    let dialog = mgr.dialog(handle).unwrap();
    assert_eq!(dialog.state(), DialogState::Confirmed);
}

#[test]
fn manager_routes_bye_and_cleans_up() {
    let mut mgr = DialogManager::new("sip:me@192.168.1.1:5060");
    let invite = make_invite();
    let handle = mgr.create_dialog(invite.clone()).unwrap();
    mgr.handle_response(make_response(&invite, 200)).unwrap();
    let actions = mgr.poll_actions();
    assert!(actions.iter().any(|a| matches!(a, ManagerAction::Event(h, ManagerEvent::Established) if *h == handle)));

    let bye = SipRequest::builder()
        .method(Method::Bye)
        .uri("sip:alice@example.com")
        .via("192.168.1.2", 5060, "UDP", "z9hG4bKbye")
        .from("sip:bob@example.com", "totag")
        .to("sip:alice@example.com")
        .to_tag("fromtag")
        .call_id("test@example.com")
        .cseq(1)
        .build()
        .unwrap();
    assert_eq!(mgr.handle_request(bye), Some(handle));
    let actions = mgr.poll_actions();
    assert!(actions.iter().any(|a| matches!(a, ManagerAction::Event(_, ManagerEvent::ByeReceived(_)))));
    assert!(mgr.dialog(handle).unwrap().is_terminated());

    mgr.cleanup_terminated();
    assert!(mgr.dialog(handle).is_none());
}

#[test]
fn manager_ignores_unknown() {
    let mut mgr = DialogManager::new("sip:me@host");
    let register = SipRequest::builder()
        .method(Method::Register)
        .uri("sip:example.com")
        .via("192.168.1.1", 5060, "UDP", "z9hG4bKreg")
        .from("sip:alice@example.com", "fromtag")
        .to("sip:alice@example.com")
        .call_id("reg@example.com")
        .cseq(1)
        .build()
        .unwrap();
    assert!(mgr.create_dialog(register.clone()).is_none());
    assert!(mgr.handle_request(register).is_none());
    let invite = make_invite();
    assert!(mgr.handle_response(make_response(&invite, 200)).is_none());
    assert!(mgr.dialog(DialogHandle(7)).is_none());
    assert!(mgr.send_bye(DialogHandle(7)).is_none());
    assert!(mgr.poll_actions().is_empty());
}

#[test]
fn manager_send_bye_queues_request() {
    let mut mgr = DialogManager::new("sip:me@192.168.1.1:5060");
    let invite = make_invite();
    let handle = mgr.create_dialog(invite.clone()).unwrap();
    mgr.handle_response(make_response(&invite, 200)).unwrap();
    mgr.poll_actions();
    mgr.ack_sent(handle);
    assert!(mgr.dialog(handle).unwrap().is_ack_complete());
    let bye = mgr.send_bye(handle).unwrap();
    assert_eq!(bye.method(), Method::Bye);
    let actions = mgr.poll_actions();
    assert_eq!(actions.len(), 1);
    assert!(matches!(actions[0], ManagerAction::SendRequest(_)));
    assert_eq!(mgr.dialog(handle).unwrap().state(), DialogState::Terminating);
}

#[test]
fn settled_dialog_ignores_responses() {
    let invite = make_invite();
    let mut dialog = InviteDialog::new_uac(invite.clone());
    dialog.handle_response(make_response(&invite, 200));
    dialog.poll_actions();
    dialog.handle_response(make_response(&invite, 180));
    dialog.handle_response(make_response(&invite, 486));
    assert_eq!(dialog.state(), DialogState::Confirmed);
    assert!(dialog.poll_actions().is_empty());
}

#[test]
fn termination_is_final() {
    let invite = make_invite();
    let mut dialog = InviteDialog::new_uac(invite.clone());
    dialog.handle_response(make_response(&invite, 603));
    assert!(dialog.is_terminated());
    dialog.handle_response(make_response(&invite, 200));
    let reinvite = SipRequest::builder()
        .method(Method::Invite)
        .uri("sip:alice@example.com")
        .via("192.168.1.2", 5060, "UDP", "z9hG4bKre")
        .from("sip:bob@example.com", "totag")
        .to("sip:alice@example.com")
        .to_tag("fromtag")
        .call_id("test@example.com")
        .cseq(9)
        .build()
        .unwrap();
    dialog.handle_request(reinvite);
    assert!(dialog.is_terminated());
}

#[test]
fn confirmed_dialog_is_routable() {
    let mut mgr = DialogManager::new("sip:me@192.168.1.1:5060");
    let invite = make_invite();
    let handle = mgr.create_dialog(invite.clone()).unwrap();
    mgr.handle_response(make_response(&invite, 200)).unwrap();
    // A later response with the same identifiers still finds the dialog.
    assert_eq!(mgr.handle_response(make_response(&invite, 200)), Some(handle));
    let second = mgr.handle_request(make_invite()).unwrap();
    assert_ne!(second, handle);
    assert_eq!(mgr.dialog(second).unwrap().role(), Role::Uas);
    assert_eq!(mgr.dialog(handle).unwrap().role(), Role::Uac);
}
