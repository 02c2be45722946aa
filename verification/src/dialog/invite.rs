//! INVITE dialog state machine.
//!
//! Handles the lifecycle of an INVITE-initiated dialog, including:
//! - Dialog establishment via INVITE/2xx/ACK
//! - In-dialog requests (re-INVITE, BYE, etc.)
//! - Dialog termination
use crate::dialog::state::{
    cseq_num_of, is_uac_info, is_uas_info, remote_seq_in_order, uac_info_ready, uas_info_ready, DialogId,
    DialogInfo, DialogState, RouteSet,
};
use crate::sip::message::{
    empty_request_builder, from_uri_of, generate_branch, is_lower_hex, request_built, to_uri_of, wire_method,
    with_from, with_to, with_uri, Method, RequestBuilderView, RequestView, ResponseView, SipRequest, SipResponse,
};
use vstd::prelude::*;

verus! {

/// Role in the dialog.
#[derive(Debug, Clone, Copy, PartialEq, Eq, Structural)]
pub enum Role {
    /// User Agent Client - initiated the dialog.
    Uac,
    /// User Agent Server - received the initial INVITE.
    Uas,
}

/// Reason for dialog termination.
#[derive(Debug, Clone)]
pub enum TerminationReason {
    /// Normal BYE.
    ByeSent,
    /// Remote BYE.
    ByeReceived,
    /// INVITE rejected.
    Rejected(u16),
    /// INVITE cancelled.
    Cancelled,
    /// Error.
    Error(String),
}

/// Output action from the dialog.
#[derive(Debug, Clone)]
pub enum Action {
    /// Send a request to the network.
    SendRequest(SipRequest),
    /// Send a response to the network.
    SendResponse(SipResponse),
    /// Emit an event to the user.
    Event(Event),
}

/// Event emitted to the user.
#[derive(Debug, Clone)]
pub enum Event {
    /// Dialog established (2xx received/sent).
    Established,
    /// Provisional response received/sent.
    Provisional(SipResponse),
    /// Re-INVITE received.
    ReInvite(SipRequest),
    /// BYE received.
    ByeReceived(SipRequest),
    /// Dialog terminated.
    Terminated(TerminationReason),
    /// Session progress (183 with SDP).
    SessionProgress(SipResponse),
}

/// An event as plain values.
pub enum EventView {
    Established,
    Provisional(ResponseView),
    ReInvite(RequestView),
    ByeReceived(RequestView),
    Terminated(TerminationReason),
    SessionProgress(ResponseView),
}

/// An action as plain values.
pub enum ActionView {
    SendRequest(RequestView),
    SendResponse(ResponseView),
    Event(EventView),
}

impl View for Event {
    type V = EventView;

    open spec fn view(&self) -> EventView {
        match self {
            Event::Established => EventView::Established,
            Event::Provisional(r) => EventView::Provisional(r@),
            Event::ReInvite(q) => EventView::ReInvite(q@),
            Event::ByeReceived(q) => EventView::ByeReceived(q@),
            Event::Terminated(t) => EventView::Terminated(*t),
            Event::SessionProgress(r) => EventView::SessionProgress(r@),
        }
    }
}

impl View for Action {
    type V = ActionView;

    open spec fn view(&self) -> ActionView {
        match self {
            Action::SendRequest(q) => ActionView::SendRequest(q@),
            Action::SendResponse(r) => ActionView::SendResponse(r@),
            Action::Event(e) => ActionView::Event(e@),
        }
    }
}

/// The views of a list of actions.
pub open spec fn actions_view(v: Seq<Action>) -> Seq<ActionView> {
    Seq::new(v.len(), |i: int| v[i]@)
}

/// The form of a Via branch this dialog generates: the magic cookie `z9hG4bK` and 32
/// lower-case hexadecimal digits.
pub open spec fn branch_form(b: Seq<char>) -> bool {
    &&& b.len() == 39
    &&& b.take(7) == "z9hG4bK"@
    &&& is_lower_hex(b.skip(7))
}

/// The builder of an in-dialog request with the given method, CSeq number and Via branch:
/// to the remote target, From our URI and tag, To the remote URI and tag, on the dialog's
/// Call-ID.
pub open spec fn in_dialog_builder(info: DialogInfo, method: Method, cseq: u32, branch: Seq<char>) -> RequestBuilderView {
    let b0 = RequestBuilderView { method: Some(wire_method(method)), ..empty_request_builder() };
    let b1 = with_uri(b0, info.remote_target@);
    let b2 = RequestBuilderView {
        via_host: Some("0.0.0.0"@),
        via_port: Some(5060u16),
        via_transport: Some("UDP"@),
        via_branch: Some(branch),
        ..b1
    };
    let b3 = with_from(b2, info.local_uri@, info.id.local_tag@);
    let b4 = with_to(b3, info.remote_uri@);
    let b5 = RequestBuilderView { to_tag: Some(info.id.remote_tag@), ..b4 };
    let b6 = RequestBuilderView { call_id: Some(info.id.call_id@), ..b5 };
    RequestBuilderView { cseq: Some(cseq), ..b6 }
}

/// The dialog a UAC starts with before any response: empty identifiers, the INVITE's CSeq
/// (1 when it cannot be read), its From and To URIs (empty when they cannot be read).
pub open spec fn is_placeholder_info(i: DialogInfo, q: RequestView) -> bool {
    &&& i.id.call_id@ == Seq::<char>::empty()
    &&& i.id.local_tag@ == Seq::<char>::empty()
    &&& i.id.remote_tag@ == Seq::<char>::empty()
    &&& i.state == DialogState::Early
    &&& i.local_seq == (match cseq_num_of(q.headers) {
        Some(n) => n,
        None => 1u32,
    })
    &&& i.remote_seq is None
    &&& i.local_uri@ == (match from_uri_of(q.headers) {
        Some(u) => u,
        None => Seq::<char>::empty(),
    })
    &&& i.remote_uri@ == (match to_uri_of(q.headers) {
        Some(u) => u,
        None => Seq::<char>::empty(),
    })
    &&& i.remote_target@ == Seq::<char>::empty()
    &&& i.route_set.spec_routes() == Seq::<Seq<char>>::empty()
    &&& !i.route_set.spec_loose()
    &&& !i.secure
}

/// INVITE dialog (Sans-IO).
#[derive(Debug)]
pub struct InviteDialog {
    /// Dialog info.
    info: DialogInfo,
    /// Our role.
    role: Role,
    /// Original INVITE request (for reference).
    invite: SipRequest,
    /// Pending actions.
    actions: Vec<Action>,
    /// Whether ACK has been sent/received.
    ack_sent: bool,
}

/// A response's effect on a dialog (see `InviteDialog::handle_response`): `o` before, `f` after.
pub open spec fn response_step(o: InviteDialog, p: ResponseView, f: InviteDialog) -> bool {
    let code = p.status_code;
    let q = o.spec_invite();
    &&& f.spec_role() == o.spec_role()
    &&& f.spec_invite() == q
    &&& f.spec_ack() == o.spec_ack()
    &&& if o.spec_role() != Role::Uac || o.spec_info().state != DialogState::Early || code <= 100 {
        f.spec_info() == o.spec_info() && f.spec_actions() == o.spec_actions()
    } else if code < 200 {
        &&& uac_info_ready(q, p) ==> is_uac_info(f.spec_info(), q, p, DialogState::Early)
        &&& !uac_info_ready(q, p) ==> f.spec_info() == o.spec_info()
        &&& f.spec_actions() == o.spec_actions() + (if code == 183 {
            seq![ActionView::Event(EventView::SessionProgress(p))]
        } else {
            Seq::empty()
        }) + seq![ActionView::Event(EventView::Provisional(p))]
    } else if code < 300 {
        &&& uac_info_ready(q, p) ==> is_uac_info(f.spec_info(), q, p, DialogState::Confirmed)
        &&& !uac_info_ready(q, p) ==> f.spec_info() == DialogInfo {
            state: DialogState::Confirmed,
            ..o.spec_info()
        }
        &&& f.spec_actions() == o.spec_actions().push(ActionView::Event(EventView::Established))
    } else {
        &&& f.spec_info() == DialogInfo { state: DialogState::Terminated, ..o.spec_info() }
        &&& f.spec_actions() == o.spec_actions().push(
            ActionView::Event(EventView::Terminated(TerminationReason::Rejected(code))),
        )
    }
}

/// An incoming request's effect on a dialog (see `InviteDialog::handle_request`).
pub open spec fn request_step(o: InviteDialog, q: RequestView, f: InviteDialog) -> bool {
    let st = o.spec_info().state;
    &&& f.spec_role() == o.spec_role()
    &&& f.spec_invite() == o.spec_invite()
    &&& match cseq_num_of(q.headers) {
        None => f == o,
        Some(n) => if q.method == Method::Bye {
            &&& f.spec_info() == DialogInfo { state: DialogState::Terminated, ..o.spec_info() }
            &&& f.spec_ack() == o.spec_ack()
            &&& f.spec_actions() == o.spec_actions() + seq![
                ActionView::Event(EventView::ByeReceived(q)),
                ActionView::Event(EventView::Terminated(TerminationReason::ByeReceived)),
            ]
        } else if q.method == Method::Invite {
            &&& f.spec_ack() == o.spec_ack()
            &&& if st == DialogState::Confirmed && remote_seq_in_order(o.spec_info().remote_seq, n) {
                &&& f.spec_info() == DialogInfo { remote_seq: Some(n), ..o.spec_info() }
                &&& f.spec_actions() == o.spec_actions().push(ActionView::Event(EventView::ReInvite(q)))
            } else {
                f.spec_info() == o.spec_info() && f.spec_actions() == o.spec_actions()
            }
        } else if q.method == Method::Ack {
            &&& f.spec_info() == o.spec_info()
            &&& f.spec_actions() == o.spec_actions()
            &&& f.spec_ack() == (o.spec_ack() || (o.spec_role() == Role::Uas && st
                == DialogState::Confirmed))
        } else if q.method == Method::Cancel {
            &&& f.spec_ack() == o.spec_ack()
            &&& if st == DialogState::Early && o.spec_role() == Role::Uas {
                &&& f.spec_info() == DialogInfo { state: DialogState::Terminated, ..o.spec_info() }
                &&& f.spec_actions() == o.spec_actions().push(
                    ActionView::Event(EventView::Terminated(TerminationReason::Cancelled)),
                )
            } else {
                f.spec_info() == o.spec_info() && f.spec_actions() == o.spec_actions()
            }
        } else {
            f == o
        },
    }
}

/// The effect of sending a response on a dialog (see `InviteDialog::send_response`).
pub open spec fn response_sent_step(o: InviteDialog, p: ResponseView, f: InviteDialog) -> bool {
    let code = p.status_code;
    let st = o.spec_info().state;
    &&& f.spec_role() == o.spec_role()
    &&& f.spec_invite() == o.spec_invite()
    &&& f.spec_ack() == o.spec_ack()
    &&& if o.spec_role() != Role::Uas {
        f.spec_info() == o.spec_info() && f.spec_actions() == o.spec_actions()
    } else if 200 <= code < 300 && st == DialogState::Early {
        &&& f.spec_info() == DialogInfo { state: DialogState::Confirmed, ..o.spec_info() }
        &&& f.spec_actions() == o.spec_actions() + seq![
            ActionView::SendResponse(p),
            ActionView::Event(EventView::Established),
        ]
    } else if code >= 300 && st == DialogState::Early {
        &&& f.spec_info() == DialogInfo { state: DialogState::Terminated, ..o.spec_info() }
        &&& f.spec_actions() == o.spec_actions() + seq![
            ActionView::SendResponse(p),
            ActionView::Event(EventView::Terminated(TerminationReason::Rejected(code))),
        ]
    } else {
        &&& f.spec_info() == o.spec_info()
        &&& f.spec_actions() == o.spec_actions().push(ActionView::SendResponse(p))
    }
}

/// Whether `d` is the dialog `InviteDialog::new_uac` makes of the INVITE `q`.
pub open spec fn is_new_uac(d: InviteDialog, q: RequestView) -> bool {
    &&& is_placeholder_info(d.spec_info(), q)
    &&& d.spec_role() == Role::Uac
    &&& d.spec_invite() == q
    &&& d.spec_actions() == Seq::<ActionView>::empty()
    &&& !d.spec_ack()
}

/// Whether `d` is the dialog `InviteDialog::new_uas` makes of the INVITE `q` with our tag.
pub open spec fn is_new_uas(d: InviteDialog, q: RequestView, local_tag: Seq<char>) -> bool {
    &&& is_uas_info(d.spec_info(), q, local_tag, DialogState::Early)
    &&& d.spec_role() == Role::Uas
    &&& d.spec_invite() == q
    &&& d.spec_actions() == Seq::<ActionView>::empty()
    &&& !d.spec_ack()
}

/// The view of an optional request.
pub open spec fn opt_request(r: Option<SipRequest>) -> Option<RequestView> {
    match r {
        Some(q) => Some(q@),
        None => None,
    }
}

/// Sending a BYE (see `InviteDialog::send_bye`): `o` before, `f` after, `r` the BYE.
pub open spec fn bye_step(o: InviteDialog, f: InviteDialog, r: Option<RequestView>) -> bool {
    if o.spec_info().state != DialogState::Confirmed {
        r is None && f == o
    } else {
        let n = (o.spec_info().local_seq + 1) as u32;
        &&& f.spec_info() == DialogInfo { state: DialogState::Terminating, local_seq: n, ..o.spec_info() }
        &&& f.spec_role() == o.spec_role()
        &&& f.spec_invite() == o.spec_invite()
        &&& f.spec_ack() == o.spec_ack()
        &&& exists|b: Seq<char>| #[trigger]
            branch_form(b) && match request_built(in_dialog_builder(f.spec_info(), Method::Bye, n, b)) {
                Ok(q) => r == Some(q) && f.spec_actions() == o.spec_actions().push(ActionView::SendRequest(q)),
                Err(_) => r is None && f.spec_actions() == o.spec_actions(),
            }
    }
}

/// Whether two dialogs agree in everything but their pending actions.
pub open spec fn same_dialog(a: InviteDialog, b: InviteDialog) -> bool {
    &&& a.spec_info() == b.spec_info()
    &&& a.spec_role() == b.spec_role()
    &&& a.spec_invite() == b.spec_invite()
    &&& a.spec_ack() == b.spec_ack()
}

impl InviteDialog {
    /// The dialog information.
    pub closed spec fn spec_info(&self) -> DialogInfo {
        self.info
    }

    /// Our role.
    pub closed spec fn spec_role(&self) -> Role {
        self.role
    }

    /// The INVITE that began the dialog.
    pub closed spec fn spec_invite(&self) -> RequestView {
        self.invite@
    }

    /// The pending actions, oldest first.
    pub closed spec fn spec_actions(&self) -> Seq<ActionView> {
        actions_view(self.actions@)
    }

    /// Whether the ACK has been sent (UAC) or received (UAS).
    pub closed spec fn spec_ack(&self) -> bool {
        self.ack_sent
    }

    /// Create a new UAC dialog from an outgoing INVITE.
    ///
    /// The dialog is not yet established - call `handle_response` with responses.
    pub fn new_uac(invite: SipRequest) -> (d: Self)
        ensures
            is_new_uac(d, invite@),
    {
        let local_seq = match invite.cseq() {
            Ok(n) => n,
            Err(_) => 1,
        };
        let local_uri = match invite.from_uri() {
            Ok(u) => u,
            Err(_) => String::new(),
        };
        let remote_uri = match invite.to_uri() {
            Ok(u) => u,
            Err(_) => String::new(),
        };
        proof {
            reveal_strlit("");
        }
        let info = DialogInfo {
            id: DialogId::new("", "", ""),
            state: DialogState::Early,
            local_seq,
            remote_seq: None,
            local_uri,
            remote_uri,
            remote_target: String::new(),
            route_set: RouteSet::new(),
            secure: false,
        };
        let d = InviteDialog { info, role: Role::Uac, invite, actions: Vec::new(), ack_sent: false };
        assert(d.spec_info().id.call_id@ == Seq::<char>::empty());
        assert(d.spec_info().local_seq == (match cseq_num_of(invite@.headers) { Some(n) => n, None => 1u32 }));
        assert(d.spec_info().local_uri@ == (match from_uri_of(invite@.headers) { Some(u) => u, None => Seq::<char>::empty() }));
        assert(d.spec_info().remote_uri@ == (match to_uri_of(invite@.headers) { Some(u) => u, None => Seq::<char>::empty() }));
        assert(d.spec_actions() =~= Seq::<ActionView>::empty());
        d
    }

    /// Create a new UAS dialog from an incoming INVITE, with our tag; none when the INVITE
    /// lacks a part that the dialog is made of.
    ///
    /// Call `send_response` to send responses.
    pub fn new_uas(invite: SipRequest, local_tag: &str, local_contact: &str) -> (r: Option<Self>)
        ensures
            uas_info_ready(invite@) ==> (r matches Some(d) && is_new_uas(d, invite@, local_tag@)),
            !uas_info_ready(invite@) ==> r is None,
    {
        let info = match DialogInfo::from_invite_uas(&invite, local_tag, local_contact, DialogState::Early) {
            Some(i) => i,
            None => return None,
        };
        let d = InviteDialog { info, role: Role::Uas, invite, actions: Vec::new(), ack_sent: false };
        assert(d.spec_actions() =~= Seq::<ActionView>::empty());
        Some(d)
    }

    /// Get the dialog ID.
    pub fn id(&self) -> (i: &DialogId)
        ensures
            *i == self.spec_info().id,
    {
        &self.info.id
    }

    /// Get the dialog state.
    pub fn state(&self) -> (s: DialogState)
        ensures
            s == self.spec_info().state,
    {
        self.info.state
    }

    /// Get the dialog info.
    pub fn info(&self) -> (i: &DialogInfo)
        ensures
            *i == self.spec_info(),
    {
        &self.info
    }

    /// Get our role.
    pub fn role(&self) -> (r: Role)
        ensures
            r == self.spec_role(),
    {
        self.role
    }

    /// Check if dialog is terminated.
    pub fn is_terminated(&self) -> (b: bool)
        ensures
            b == (self.spec_info().state == DialogState::Terminated),
    {
        self.info.state == DialogState::Terminated
    }

    /// Handle a response (UAC only, while the dialog is early). A provisional response other
    /// than 100 takes the dialog's identity from the response when it can (a 183 also reports
    /// session progress) and is reported; a 2xx confirms the dialog; a 3xx-6xx rejects it.
    /// Anything else leaves the dialog as it was.
    pub fn handle_response(&mut self, response: SipResponse)
        ensures
            response_step(*old(self), response@, *final(self)),
    {
        if self.role != Role::Uac {
            return;
        }
        let code = response.status_code();
        if self.info.state != DialogState::Early {
            return;
        }
        let ghost before = self.spec_actions();
        if 100 <= code && code < 200 {
            if code != 100 {
                match DialogInfo::from_invite_response_uac(&self.invite, &response, DialogState::Early) {
                    Some(new_info) => {
                        self.info = new_info;
                    },
                    None => {},
                }
                if code == 183 {
                    let copy = response.clone();
                    self.actions.push(Action::Event(Event::SessionProgress(copy)));
                }
                let ghost mid = self.spec_actions();
                self.actions.push(Action::Event(Event::Provisional(response)));
                assert(self.spec_actions() =~= mid.push(ActionView::Event(EventView::Provisional(response@))));
                assert(self.spec_actions() =~= before + (if code == 183 {
                    seq![ActionView::Event(EventView::SessionProgress(response@))]
                } else {
                    Seq::empty()
                }) + seq![ActionView::Event(EventView::Provisional(response@))]);
            }
        } else if 200 <= code && code < 300 {
            match DialogInfo::from_invite_response_uac(&self.invite, &response, DialogState::Confirmed) {
                Some(new_info) => {
                    self.info = new_info;
                },
                None => {
                    self.info.state = DialogState::Confirmed;
                },
            }
            self.actions.push(Action::Event(Event::Established));
            assert(self.spec_actions() =~= before.push(ActionView::Event(EventView::Established)));
        } else if code >= 300 {
            self.info.state = DialogState::Terminated;
            self.actions.push(Action::Event(Event::Terminated(TerminationReason::Rejected(code))));
            assert(self.spec_actions() =~= before.push(
                ActionView::Event(EventView::Terminated(TerminationReason::Rejected(code))),
            ));
        }
    }

    /// Handle an incoming request (both UAC and UAS); one whose CSeq cannot be read is ignored.
    /// A BYE terminates the dialog; a re-INVITE on a confirmed dialog with a CSeq above the
    /// last one accepted is reported; an ACK on a confirmed UAS dialog completes it; a CANCEL
    /// terminates an early UAS dialog. Anything else leaves the dialog as it was.
    pub fn handle_request(&mut self, request: SipRequest)
        ensures
            request_step(*old(self), request@, *final(self)),
    {
        let cseq = match request.cseq() {
            Ok(seq) => seq,
            Err(_) => return,
        };
        let ghost before = self.spec_actions();
        match request.method() {
            Method::Bye => {
                self.info.state = DialogState::Terminated;
                let copy = request.clone();
                self.actions.push(Action::Event(Event::ByeReceived(copy)));
                self.actions.push(Action::Event(Event::Terminated(TerminationReason::ByeReceived)));
                assert(self.spec_actions() =~= before + seq![
                    ActionView::Event(EventView::ByeReceived(request@)),
                    ActionView::Event(EventView::Terminated(TerminationReason::ByeReceived)),
                ]);
            },
            Method::Invite => {
                if self.info.state == DialogState::Confirmed && self.info.update_remote_seq(cseq) {
                    self.actions.push(Action::Event(Event::ReInvite(request)));
                    assert(self.spec_actions() =~= before.push(ActionView::Event(EventView::ReInvite(request@))));
                }
            },
            Method::Ack => {
                if self.role == Role::Uas && self.info.state == DialogState::Confirmed {
                    self.ack_sent = true;
                }
            },
            Method::Cancel => {
                if self.info.state == DialogState::Early && self.role == Role::Uas {
                    self.info.state = DialogState::Terminated;
                    self.actions.push(Action::Event(Event::Terminated(TerminationReason::Cancelled)));
                    assert(self.spec_actions() =~= before.push(
                        ActionView::Event(EventView::Terminated(TerminationReason::Cancelled)),
                    ));
                }
            },
            _ => {},
        }
    }

    /// Send a response (UAS only): it is queued for sending; while the dialog is early a 2xx
    /// confirms it and a 3xx-6xx rejects it.
    pub fn send_response(&mut self, response: SipResponse)
        ensures
            response_sent_step(*old(self), response@, *final(self)),
    {
        if self.role != Role::Uas {
            return;
        }
        let code = response.status_code();
        let ghost p = response@;
        let ghost before = self.spec_actions();
        if 200 <= code && code < 300 && self.info.state == DialogState::Early {
            self.info.state = DialogState::Confirmed;
            self.actions.push(Action::SendResponse(response));
            self.actions.push(Action::Event(Event::Established));
            assert(self.spec_actions() =~= before + seq![
                ActionView::SendResponse(p),
                ActionView::Event(EventView::Established),
            ]);
        } else if code >= 300 && self.info.state == DialogState::Early {
            self.info.state = DialogState::Terminated;
            self.actions.push(Action::SendResponse(response));
            self.actions.push(Action::Event(Event::Terminated(TerminationReason::Rejected(code))));
            assert(self.spec_actions() =~= before + seq![
                ActionView::SendResponse(p),
                ActionView::Event(EventView::Terminated(TerminationReason::Rejected(code))),
            ]);
        } else {
            self.actions.push(Action::SendResponse(response));
            assert(self.spec_actions() =~= before.push(ActionView::SendResponse(p)));
        }
    }

    /// Send a BYE to terminate a confirmed dialog: the dialog moves to Terminating and takes
    /// the next local CSeq, and a BYE with a fresh Via branch is built and queued. None when
    /// the dialog is not confirmed (nothing changes) or when the BYE cannot be built.
    pub fn send_bye(&mut self) -> (r: Option<SipRequest>)
        requires
            old(self).spec_info().state == DialogState::Confirmed ==> old(self).spec_info().local_seq < u32::MAX,
        ensures
            bye_step(*old(self), *final(self), opt_request(r)),
    {
        if self.info.state != DialogState::Confirmed {
            return None;
        }
        self.info.state = DialogState::Terminating;
        let cseq = self.info.next_local_seq();
        let branch = generate_branch();
        let ghost before = self.spec_actions();
        match Self::build_in_dialog_request(&self.info, Method::Bye, cseq, branch.as_str()) {
            Some(bye) => {
                let copy = bye.clone();
                self.actions.push(Action::SendRequest(copy));
                assert(self.spec_actions() =~= before.push(ActionView::SendRequest(bye@)));
                assert(branch_form(branch@));
                Some(bye)
            },
            None => {
                assert(branch_form(branch@));
                None
            },
        }
    }

    /// Build an in-dialog request with the given method, CSeq and Via branch; none when the
    /// dialog's URIs cannot be read.
    fn build_in_dialog_request(info: &DialogInfo, method: Method, cseq: u32, branch: &str) -> (r: Option<SipRequest>)
        ensures
            match request_built(in_dialog_builder(*info, method, cseq, branch@)) {
                Ok(q) => r matches Some(x) && x@ == q,
                Err(_) => r is None,
            },
    {
        proof {
            reveal_strlit("0.0.0.0");
            reveal_strlit("UDP");
        }
        let b = SipRequest::builder().method(method).uri(info.remote_target.as_str()).via(
            "0.0.0.0",
            5060,
            "UDP",
            branch,
        ).from(info.local_uri.as_str(), info.id.local_tag.as_str()).to(info.remote_uri.as_str()).to_tag(
            info.id.remote_tag.as_str(),
        ).call_id(info.id.call_id.as_str()).cseq(cseq);
        match b.build() {
            Ok(q) => Some(q),
            Err(_) => None,
        }
    }

    /// Drain pending actions, oldest first.
    pub fn poll_actions(&mut self) -> (v: Vec<Action>)
        ensures
            actions_view(v@) == old(self).spec_actions(),
            final(self).spec_actions() == Seq::<ActionView>::empty(),
            final(self).spec_info() == old(self).spec_info(),
            final(self).spec_role() == old(self).spec_role(),
            final(self).spec_invite() == old(self).spec_invite(),
            final(self).spec_ack() == old(self).spec_ack(),
    {
        let mut out: Vec<Action> = Vec::new();
        std::mem::swap(&mut out, &mut self.actions);
        assert(self.spec_actions() =~= Seq::<ActionView>::empty());
        out
    }

    /// Mark ACK as sent (UAC side).
    pub fn ack_sent(&mut self)
        ensures
            final(self).spec_ack(),
            final(self).spec_info() == old(self).spec_info(),
            final(self).spec_role() == old(self).spec_role(),
            final(self).spec_invite() == old(self).spec_invite(),
            final(self).spec_actions() == old(self).spec_actions(),
    {
        self.ack_sent = true;
    }

    /// Check if ACK has been sent/received.
    pub fn is_ack_complete(&self) -> (b: bool)
        ensures
            b == self.spec_ack(),
    {
        self.ack_sent
    }
}

} // verus!

verus! {

/// Once a dialog has left the early state, a response changes nothing in it.
pub proof fn lemma_settled_dialog_ignores_responses(o: InviteDialog, p: ResponseView, f: InviteDialog)
    requires
        response_step(o, p, f),
        o.spec_info().state != DialogState::Early,
    ensures
        f.spec_info() == o.spec_info(),
        f.spec_actions() == o.spec_actions(),
{
}

/// A terminated dialog stays terminated, whatever request arrives or response comes or goes.
pub proof fn lemma_termination_is_final(
    o: InviteDialog,
    q: RequestView,
    p: ResponseView,
    f1: InviteDialog,
    f2: InviteDialog,
    f3: InviteDialog,
)
    requires
        o.spec_info().state == DialogState::Terminated,
        request_step(o, q, f1),
        response_step(o, p, f2),
        response_sent_step(o, p, f3),
    ensures
        f1.spec_info().state == DialogState::Terminated,
        f2.spec_info().state == DialogState::Terminated,
        f3.spec_info().state == DialogState::Terminated,
{
}

/// A final response settles an early UAC dialog: a 2xx confirms it, a 3xx-6xx ends it.
pub proof fn lemma_final_response_settles_uac(o: InviteDialog, p: ResponseView, f: InviteDialog)
    requires
        response_step(o, p, f),
        o.spec_role() == Role::Uac,
        o.spec_info().state == DialogState::Early,
        p.status_code >= 200,
    ensures
        p.status_code < 300 ==> f.spec_info().state == DialogState::Confirmed,
        p.status_code >= 300 ==> f.spec_info().state == DialogState::Terminated,
{
}

/// A BYE whose CSeq can be read ends the dialog, in whatever state and role.
pub proof fn lemma_bye_ends_dialog(o: InviteDialog, q: RequestView, f: InviteDialog)
    requires
        request_step(o, q, f),
        q.method == Method::Bye,
        cseq_num_of(q.headers) is Some,
    ensures
        f.spec_info().state == DialogState::Terminated,
{
}

/// Sending a 2xx confirms an early UAS dialog, and sending a 3xx-6xx ends it.
pub proof fn lemma_final_response_settles_uas(o: InviteDialog, p: ResponseView, f: InviteDialog)
    requires
        response_sent_step(o, p, f),
        o.spec_role() == Role::Uas,
        o.spec_info().state == DialogState::Early,
        p.status_code >= 200,
    ensures
        p.status_code < 300 ==> f.spec_info().state == DialogState::Confirmed,
        p.status_code >= 300 ==> f.spec_info().state == DialogState::Terminated,
{
}

} // verus!
