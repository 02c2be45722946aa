//! INVITE client transaction state machine (RFC 3261 section 17.1.1), without I/O: it is
//! fed responses, timer firings and transport errors, and hands back the actions to perform.
//!
//! ```text
//!   Calling --1xx--> Proceeding --2xx--> Terminated
//!      |                 |
//!      +---300-699-------+--> Completed --Timer D--> Terminated
//! ```
use crate::sip::message::{
    cseq_of, empty_request_builder, from_tag_of, from_uri_of, header_value, request_built, request_text,
    to_uri_of, via_branch_of, with_from, with_to, with_uri, Method, RequestBuilderView, RequestView,
    ResponseView, SipRequest, SipResponse,
};
use crate::time::Duration;
use crate::transaction::timer::{Timer, TimerValues};
use vstd::prelude::*;
use vstd::utf8::encode_utf8;

verus! {

/// Transaction ID for matching responses to requests: the Via branch and the method.
#[derive(Debug, Clone, PartialEq, Eq, Hash)]
pub struct TransactionId {
    /// Via branch parameter.
    pub branch: String,
    /// CSeq method.
    pub method: Method,
}

impl TransactionId {
    /// Create a transaction ID from a request: its Via branch and its method.
    pub fn from_request(req: &SipRequest) -> (r: Option<Self>)
        ensures
            match via_branch_of(req@.headers) {
                Some(b) => r matches Some(t) && t.branch@ == b && t.method == req@.method,
                None => r is None,
            },
    {
        match req.via_branch() {
            Ok(branch) => Some(TransactionId { branch, method: req.method() }),
            Err(_) => None,
        }
    }

    /// Create a transaction ID from a response: its Via branch and its CSeq method.
    pub fn from_response(resp: &SipResponse) -> (r: Option<Self>)
        ensures
            match (via_branch_of(resp@.headers), cseq_of(resp@.headers)) {
                (Some(b), Some((_, m))) => r matches Some(t) && t.branch@ == b && t.method == m,
                _ => r is None,
            },
    {
        let branch = match resp.via_branch() {
            Ok(b) => b,
            Err(_) => return None,
        };
        match resp.cseq_method() {
            Ok(method) => Some(TransactionId { branch, method }),
            Err(_) => None,
        }
    }

    /// Whether two identifiers are the same.
    pub fn same(&self, other: &TransactionId) -> (b: bool)
        ensures
            b == (self.branch@ == other.branch@ && self.method == other.method),
    {
        crate::text::str_eq(self.branch.as_str(), other.branch.as_str()) && self.method == other.method
    }
}

/// State of the INVITE client transaction.
#[derive(Debug, Clone, Copy, PartialEq, Eq, Structural)]
pub enum State {
    /// Initial state - INVITE has been sent.
    Calling,
    /// 1xx received - waiting for final response.
    Proceeding,
    /// 3xx-6xx received - waiting for Timer D.
    Completed,
    /// Transaction is finished.
    Terminated,
}

/// Event emitted to the Transaction User.
#[derive(Debug, Clone)]
pub enum Event {
    /// Provisional response received.
    Provisional(SipResponse),
    /// Success response received (2xx) - transaction terminates.
    Success(SipResponse),
    /// Failure response received (3xx-6xx).
    Failure(SipResponse),
    /// Transaction timed out (Timer B fired).
    Timeout,
    /// Transport error.
    TransportError,
}

/// Output action from the transaction.
#[derive(Debug, Clone)]
pub enum Action {
    /// Transmit a message to the network.
    Send(Vec<u8>),
    /// Emit an event to the Transaction User (TU).
    Event(Event),
    /// Set a timer.
    SetTimer(Timer, Duration),
    /// Cancel a timer.
    CancelTimer(Timer),
}

/// An event as plain values.
pub enum EventView {
    Provisional(ResponseView),
    Success(ResponseView),
    Failure(ResponseView),
    Timeout,
    TransportError,
}

/// An action as plain values.
pub enum ActionView {
    Send(Seq<u8>),
    Event(EventView),
    SetTimer(Timer, Duration),
    CancelTimer(Timer),
}

impl View for Event {
    type V = EventView;

    open spec fn view(&self) -> EventView {
        match self {
            Event::Provisional(r) => EventView::Provisional(r@),
            Event::Success(r) => EventView::Success(r@),
            Event::Failure(r) => EventView::Failure(r@),
            Event::Timeout => EventView::Timeout,
            Event::TransportError => EventView::TransportError,
        }
    }
}

impl View for Action {
    type V = ActionView;

    open spec fn view(&self) -> ActionView {
        match self {
            Action::Send(b) => ActionView::Send(b@),
            Action::Event(e) => ActionView::Event(e@),
            Action::SetTimer(t, d) => ActionView::SetTimer(*t, *d),
            Action::CancelTimer(t) => ActionView::CancelTimer(*t),
        }
    }
}

/// The views of a list of actions.
pub open spec fn actions_view(v: Seq<Action>) -> Seq<ActionView> {
    Seq::new(v.len(), |i: int| v[i]@)
}

/// The wire bytes of a request.
pub open spec fn request_bytes(q: RequestView) -> Seq<u8> {
    encode_utf8(request_text(q))
}

/// The builder of the ACK for a non-2xx final response to `q` (RFC 3261 17.1.1.3): the same
/// request URI, Via branch, From, To URI, Call-ID and CSeq number, the method ACK.
pub open spec fn ack_builder(
    q: RequestView,
    branch: Seq<char>,
    from_uri: Seq<char>,
    from_tag: Seq<char>,
    to_uri: Seq<char>,
    call_id: Seq<char>,
    cseq: u32,
) -> RequestBuilderView {
    let b1 = with_uri(RequestBuilderView { method: Some(Method::Ack), ..empty_request_builder() }, q.uri);
    let b2 = RequestBuilderView {
        via_host: Some("placeholder"@),
        via_port: Some(5060u16),
        via_transport: Some("UDP"@),
        via_branch: Some(branch),
        ..b1
    };
    let b3 = with_to(with_from(b2, from_uri, from_tag), to_uri);
    RequestBuilderView { call_id: Some(call_id), cseq: Some(cseq), ..b3 }
}

/// The ACK for a non-2xx final response to the INVITE `q`, when the INVITE's headers can be
/// read and the ACK built.
pub open spec fn ack_for(q: RequestView) -> Option<RequestView> {
    match (
        via_branch_of(q.headers),
        from_tag_of(q.headers),
        header_value(q.headers, "Call-ID"@),
        from_uri_of(q.headers),
        to_uri_of(q.headers),
        cseq_of(q.headers),
    ) {
        (Some(b), Some(ft), Some(c), Some(fu), Some(tu), Some((n, _))) => match request_built(
            ack_builder(q, b, fu, ft, tu, c, n),
        ) {
            Ok(a) => Some(a),
            Err(_) => None,
        },
        _ => None,
    }
}

/// The action sending the ACK for `q`, if there is one.
pub open spec fn ack_actions(q: RequestView) -> Seq<ActionView> {
    match ack_for(q) {
        Some(a) => seq![ActionView::Send(request_bytes(a))],
        None => Seq::empty(),
    }
}

/// Timer D for an unreliable transport: 33 seconds.
pub open spec fn timer_d_value() -> Duration {
    Duration { nanos: 33_000_000_000 }
}

/// What a response with status `code` does in state `s`: the next state and the actions, in
/// order.
pub open spec fn on_response(
    s: State,
    reliable: bool,
    code: u16,
    resp: ResponseView,
    q: RequestView,
) -> (State, Seq<ActionView>) {
    let failure = ack_actions(q) + seq![ActionView::Event(EventView::Failure(resp))] + if reliable {
        Seq::empty()
    } else {
        seq![ActionView::SetTimer(Timer::D, timer_d_value())]
    };
    let after_failure = if reliable { State::Terminated } else { State::Completed };
    match s {
        State::Calling => if 100 <= code < 200 {
            (
                State::Proceeding,
                (if reliable { Seq::empty() } else { seq![ActionView::CancelTimer(Timer::A)] }) + seq![
                    ActionView::Event(EventView::Provisional(resp)),
                ],
            )
        } else if 200 <= code < 300 {
            (
                State::Terminated,
                seq![
                    ActionView::CancelTimer(Timer::A),
                    ActionView::CancelTimer(Timer::B),
                    ActionView::Event(EventView::Success(resp)),
                ],
            )
        } else if code >= 300 {
            (after_failure, seq![ActionView::CancelTimer(Timer::A), ActionView::CancelTimer(Timer::B)] + failure)
        } else {
            (s, Seq::empty())
        },
        State::Proceeding => if 100 <= code < 200 {
            (State::Proceeding, seq![ActionView::Event(EventView::Provisional(resp))])
        } else if 200 <= code < 300 {
            (State::Terminated, seq![ActionView::CancelTimer(Timer::B), ActionView::Event(EventView::Success(resp))])
        } else if code >= 300 {
            (after_failure, seq![ActionView::CancelTimer(Timer::B)] + failure)
        } else {
            (s, Seq::empty())
        },
        State::Completed => if code >= 300 {
            (s, ack_actions(q))
        } else {
            (s, Seq::empty())
        },
        State::Terminated => (s, Seq::empty()),
    }
}

/// What a timer firing does in state `s`: the next state and whether the transaction timed
/// out (Timer A's retransmission is handled on its own).
pub open spec fn on_timeout(s: State, t: Timer) -> State {
    match (s, t) {
        (State::Calling, Timer::B) | (State::Proceeding, Timer::B) => State::Terminated,
        (State::Completed, Timer::D) => State::Terminated,
        _ => s,
    }
}

/// INVITE client transaction (Sans-IO).
#[derive(Debug)]
pub struct InviteClientTransaction {
    id: TransactionId,
    state: State,
    request: SipRequest,
    timers: TimerValues,
    reliable: bool,
    retransmit_interval: Duration,
    actions: Vec<Action>,
}

/// Build an ACK for a non-2xx final response.
fn build_ack_for_non_2xx(invite: &SipRequest) -> (r: Option<SipRequest>)
    ensures
        match ack_for(invite@) {
            Some(a) => r matches Some(x) && x@ == a,
            None => r is None,
        },
{
    let branch = match invite.via_branch() {
        Ok(b) => b,
        Err(_) => return None,
    };
    let from_tag = match invite.from_tag() {
        Ok(t) => t,
        Err(_) => return None,
    };
    let call_id = match invite.call_id() {
        Ok(c) => c,
        Err(_) => return None,
    };
    let from_uri = match invite.from_uri() {
        Ok(u) => u,
        Err(_) => return None,
    };
    let to_uri = match invite.to_uri() {
        Ok(u) => u,
        Err(_) => return None,
    };
    let cseq = match invite.cseq() {
        Ok(n) => n,
        Err(_) => return None,
    };
    let b = SipRequest::builder().method(Method::Ack).uri(invite.uri()).via("placeholder", 5060, "UDP", branch.as_str()).from(
        from_uri.as_str(),
        from_tag.as_str(),
    ).to(to_uri.as_str()).call_id(call_id.as_str()).cseq(cseq);
    match b.build() {
        Ok(a) => Some(a),
        Err(_) => None,
    }
}

impl InviteClientTransaction {
    /// The state.
    pub closed spec fn spec_state(&self) -> State {
        self.state
    }

    /// The request.
    pub closed spec fn spec_request(&self) -> RequestView {
        self.request@
    }

    /// Whether the transport is reliable.
    pub closed spec fn spec_reliable(&self) -> bool {
        self.reliable
    }

    /// The current Timer A interval.
    pub closed spec fn spec_interval(&self) -> Duration {
        self.retransmit_interval
    }

    /// The pending actions.
    pub closed spec fn spec_actions(&self) -> Seq<ActionView> {
        actions_view(self.actions@)
    }

    /// The transaction's identifier.
    pub closed spec fn spec_id(&self) -> (Seq<char>, Method) {
        (self.id.branch@, self.id.method)
    }

    /// The transaction's invariant: default timers, and a Timer A interval between T1 and T2.
    pub closed spec fn wf(&self) -> bool {
        &&& self.timers.t1.nanos == 500_000_000
        &&& self.timers.t2.nanos == 4_000_000_000
        &&& self.timers.t4.nanos == 5_000_000_000
        &&& self.retransmit_interval.nanos <= 4_000_000_000
    }

    /// Create a new INVITE client transaction: none for a request that is not an INVITE or
    /// whose Via branch cannot be read. The request is sent, Timer A is set (unreliable
    /// transports only) and Timer B is set.
    pub fn new(request: SipRequest, reliable: bool) -> (r: Option<Self>)
        ensures
            request@.method != Method::Invite ==> r is None,
            request@.method == Method::Invite ==> match via_branch_of(request@.headers) {
                None => r is None,
                Some(b) => r matches Some(t) && t.wf() && t.spec_state() == State::Calling && t.spec_request()
                    == request@ && t.spec_reliable() == reliable && t.spec_id() == (b, Method::Invite)
                    && t.spec_interval() == Duration { nanos: 500_000_000 } && t.spec_actions() == seq![
                    ActionView::Send(request_bytes(request@)),
                ] + (if reliable {
                    Seq::empty()
                } else {
                    seq![ActionView::SetTimer(Timer::A, Duration { nanos: 500_000_000 })]
                }) + seq![ActionView::SetTimer(Timer::B, Duration { nanos: 32_000_000_000 })],
            },
    {
        if request.method() != Method::Invite {
            return None;
        }
        let id = match TransactionId::from_request(&request) {
            Some(id) => id,
            None => return None,
        };
        let timers = TimerValues::default();
        let retransmit_interval = timers.timer_a();
        let mut actions: Vec<Action> = Vec::new();
        actions.push(Action::Send(request.to_bytes()));
        if !reliable {
            actions.push(Action::SetTimer(Timer::A, retransmit_interval));
        }
        actions.push(Action::SetTimer(Timer::B, timers.timer_b()));
        let tx = InviteClientTransaction { id, state: State::Calling, request, timers, reliable, retransmit_interval, actions };
        assert(tx.spec_actions() =~= seq![ActionView::Send(request_bytes(tx.request@))] + (if reliable {
            Seq::empty()
        } else {
            seq![ActionView::SetTimer(Timer::A, Duration { nanos: 500_000_000 })]
        }) + seq![ActionView::SetTimer(Timer::B, Duration { nanos: 32_000_000_000 })]);
        Some(tx)
    }

    /// Get the transaction ID.
    pub fn id(&self) -> (i: &TransactionId)
        ensures
            (i.branch@, i.method) == self.spec_id(),
    {
        &self.id
    }

    /// Get the current state.
    pub fn state(&self) -> (s: State)
        ensures
            s == self.spec_state(),
    {
        self.state
    }

    /// Check if the transaction is terminated.
    pub fn is_terminated(&self) -> (b: bool)
        ensures
            b == (self.spec_state() == State::Terminated),
    {
        self.state == State::Terminated
    }

    /// Handle a timer firing: Timer A in Calling retransmits the INVITE and doubles its interval
    /// (up to T2); Timer B in Calling or Proceeding times the transaction out; Timer D in
    /// Completed terminates it; any other firing is ignored.
    pub fn handle_timeout(&mut self, timer: Timer)
        requires
            old(self).wf(),
        ensures
            final(self).wf(),
            final(self).spec_request() == old(self).spec_request(),
            final(self).spec_reliable() == old(self).spec_reliable(),
            final(self).spec_id() == old(self).spec_id(),
            old(self).spec_state() == State::Calling && timer == Timer::A ==> {
                let next = Duration {
                    nanos: if old(self).spec_interval().nanos * 2 <= 4_000_000_000 {
                        (old(self).spec_interval().nanos * 2) as u128
                    } else {
                        4_000_000_000u128
                    },
                };
                &&& final(self).spec_state() == State::Calling
                &&& final(self).spec_interval() == next
                &&& final(self).spec_actions() == old(self).spec_actions() + seq![
                    ActionView::Send(request_bytes(old(self).spec_request())),
                    ActionView::SetTimer(Timer::A, next),
                ]
            },
            !(old(self).spec_state() == State::Calling && timer == Timer::A) ==> {
                &&& final(self).spec_state() == on_timeout(old(self).spec_state(), timer)
                &&& final(self).spec_interval() == old(self).spec_interval()
                &&& final(self).spec_actions() == old(self).spec_actions() + if timer == Timer::B
                    && (old(self).spec_state() == State::Calling || old(self).spec_state() == State::Proceeding) {
                    seq![ActionView::Event(EventView::Timeout)]
                } else {
                    Seq::empty()
                }
            },
    {
        let ghost before = self.spec_actions();
        match (self.state, timer) {
            (State::Calling, Timer::A) => {
                self.actions.push(Action::Send(self.request.to_bytes()));
                self.retransmit_interval = self.timers.next_retransmit(self.retransmit_interval);
                self.actions.push(Action::SetTimer(Timer::A, self.retransmit_interval));
            },
            (State::Calling, Timer::B) | (State::Proceeding, Timer::B) => {
                self.state = State::Terminated;
                self.actions.push(Action::Event(Event::Timeout));
            },
            (State::Completed, Timer::D) => {
                self.state = State::Terminated;
            },
            _ => {},
        }
        proof {
            if old(self).spec_state() == State::Calling && timer == Timer::A {
                assert(self.spec_actions() =~= before + seq![
                    ActionView::Send(request_bytes(old(self).spec_request())),
                    ActionView::SetTimer(Timer::A, self.retransmit_interval),
                ]);
            } else {
                assert(self.spec_actions() =~= before + if timer == Timer::B && (old(self).spec_state()
                    == State::Calling || old(self).spec_state() == State::Proceeding) {
                    seq![ActionView::Event(EventView::Timeout)]
                } else {
                    Seq::empty()
                });
            }
        }
    }

    /// Handle a response from the network (see `on_response`).
    #[verifier::rlimit(60)]
    pub fn handle_response(&mut self, response: SipResponse)
        requires
            old(self).wf(),
        ensures
            final(self).wf(),
            final(self).spec_request() == old(self).spec_request(),
            final(self).spec_reliable() == old(self).spec_reliable(),
            final(self).spec_id() == old(self).spec_id(),
            final(self).spec_interval() == old(self).spec_interval(),
            ({
                let (s, acts) = on_response(
                    old(self).spec_state(),
                    old(self).spec_reliable(),
                    response@.status_code,
                    response@,
                    old(self).spec_request(),
                );
                final(self).spec_state() == s && final(self).spec_actions() == old(self).spec_actions() + acts
            }),
    {
        let code = response.status_code();
        let ghost before = self.spec_actions();
        let ghost resp = response@;
        match self.state {
            State::Calling => {
                if 100 <= code && code < 200 {
                    self.state = State::Proceeding;
                    if !self.reliable {
                        self.actions.push(Action::CancelTimer(Timer::A));
                    }
                    self.actions.push(Action::Event(Event::Provisional(response)));
                } else if 200 <= code && code < 300 {
                    self.state = State::Terminated;
                    self.actions.push(Action::CancelTimer(Timer::A));
                    self.actions.push(Action::CancelTimer(Timer::B));
                    self.actions.push(Action::Event(Event::Success(response)));
                } else if code >= 300 {
                    self.actions.push(Action::CancelTimer(Timer::A));
                    self.actions.push(Action::CancelTimer(Timer::B));
                    self.fail(response);
                }
            },
            State::Proceeding => {
                if 100 <= code && code < 200 {
                    self.actions.push(Action::Event(Event::Provisional(response)));
                } else if 200 <= code && code < 300 {
                    self.state = State::Terminated;
                    self.actions.push(Action::CancelTimer(Timer::B));
                    self.actions.push(Action::Event(Event::Success(response)));
                } else if code >= 300 {
                    self.actions.push(Action::CancelTimer(Timer::B));
                    self.fail(response);
                }
            },
            State::Completed => {
                if code >= 300 {
                    self.send_ack();
                }
            },
            State::Terminated => {},
        }
        proof {
            let (s, acts) = on_response(old(self).spec_state(), old(self).spec_reliable(), code, resp, old(self).spec_request());
            assert(self.spec_actions() =~= before + acts);
        }
    }

    /// A non-2xx final response: the ACK, the failure event, and Timer D (or termination on a
    /// reliable transport).
    fn fail(&mut self, response: SipResponse)
        requires
            old(self).wf(),
        ensures
            final(self).wf(),
            final(self).request@ == old(self).request@,
            final(self).reliable == old(self).reliable,
            final(self).id == old(self).id,
            final(self).retransmit_interval == old(self).retransmit_interval,
            final(self).state == if old(self).reliable { State::Terminated } else { State::Completed },
            final(self).spec_actions() == old(self).spec_actions() + ack_actions(old(self).request@) + seq![
                ActionView::Event(EventView::Failure(response@)),
            ] + if old(self).reliable {
                Seq::empty()
            } else {
                seq![ActionView::SetTimer(Timer::D, timer_d_value())]
            },
    {
        self.state = State::Completed;
        let ghost before = self.spec_actions();
        self.send_ack();
        let ghost with_ack = self.spec_actions();
        self.actions.push(Action::Event(Event::Failure(response)));
        let timer_d = if self.reliable { Duration::zero() } else { self.timers.timer_d() };
        if timer_d.is_zero() {
            self.state = State::Terminated;
        } else {
            self.actions.push(Action::SetTimer(Timer::D, timer_d));
        }
        assert(self.spec_actions() =~= before + ack_actions(old(self).request@) + seq![
            ActionView::Event(EventView::Failure(response@)),
        ] + if old(self).reliable {
            Seq::empty()
        } else {
            seq![ActionView::SetTimer(Timer::D, timer_d_value())]
        });
    }

    /// Queue the ACK for a non-2xx response, if it can be built.
    fn send_ack(&mut self)
        ensures
            final(self).request@ == old(self).request@,
            final(self).reliable == old(self).reliable,
            final(self).id == old(self).id,
            final(self).state == old(self).state,
            final(self).timers == old(self).timers,
            final(self).retransmit_interval == old(self).retransmit_interval,
            final(self).spec_actions() == old(self).spec_actions() + ack_actions(old(self).request@),
    {
        match build_ack_for_non_2xx(&self.request) {
            Some(ack) => {
                self.actions.push(Action::Send(ack.to_bytes()));
            },
            None => {},
        }
        assert(self.spec_actions() =~= old(self).spec_actions() + ack_actions(old(self).request@));
    }

    /// Drain pending actions, oldest first.
    pub fn poll_actions(&mut self) -> (v: Vec<Action>)
        requires
            old(self).wf(),
        ensures
            final(self).wf(),
            actions_view(v@) == old(self).spec_actions(),
            final(self).spec_actions() == Seq::<ActionView>::empty(),
            final(self).spec_state() == old(self).spec_state(),
            final(self).spec_request() == old(self).spec_request(),
            final(self).spec_reliable() == old(self).spec_reliable(),
            final(self).spec_id() == old(self).spec_id(),
            final(self).spec_interval() == old(self).spec_interval(),
    {
        let mut out: Vec<Action> = Vec::new();
        std::mem::swap(&mut out, &mut self.actions);
        assert(self.spec_actions() =~= Seq::<ActionView>::empty());
        out
    }

    /// Handle a transport error: in Calling or Proceeding the transaction terminates and
    /// reports the error.
    pub fn handle_transport_error(&mut self)
        requires
            old(self).wf(),
        ensures
            final(self).wf(),
            final(self).spec_request() == old(self).spec_request(),
            final(self).spec_reliable() == old(self).spec_reliable(),
            final(self).spec_id() == old(self).spec_id(),
            final(self).spec_interval() == old(self).spec_interval(),
            (old(self).spec_state() == State::Calling || old(self).spec_state() == State::Proceeding) ==> (
                final(self).spec_state() == State::Terminated
                && final(self).spec_actions() == old(self).spec_actions() + seq![ActionView::Event(EventView::TransportError)]),
            !(old(self).spec_state() == State::Calling || old(self).spec_state() == State::Proceeding) ==> (
                final(self).spec_state() == old(self).spec_state()
                && final(self).spec_actions() == old(self).spec_actions()),
    {
        match self.state {
            State::Calling | State::Proceeding => {
                self.state = State::Terminated;
                self.actions.push(Action::Event(Event::TransportError));
                assert(self.spec_actions() =~= old(self).spec_actions() + seq![
                    ActionView::Event(EventView::TransportError),
                ]);
            },
            _ => {},
        }
    }
}

/// Once terminated, the transaction stays terminated whatever response arrives.
pub proof fn lemma_terminated_absorbs_responses(reliable: bool, code: u16, resp: ResponseView, q: RequestView)
    ensures
        on_response(State::Terminated, reliable, code, resp, q) == (State::Terminated, Seq::<ActionView>::empty()),
{
}

/// Once terminated, the transaction stays terminated whatever timer fires.
pub proof fn lemma_terminated_absorbs_timers(t: Timer)
    ensures
        on_timeout(State::Terminated, t) == State::Terminated,
{
}

/// A 2xx response in Calling or Proceeding ends the transaction and reports success.
pub proof fn lemma_success_terminates(s: State, reliable: bool, code: u16, resp: ResponseView, q: RequestView)
    requires
        s == State::Calling || s == State::Proceeding,
        200 <= code < 300,
    ensures
        on_response(s, reliable, code, resp, q).0 == State::Terminated,
        on_response(s, reliable, code, resp, q).1.last() == ActionView::Event(EventView::Success(resp)),
{
}

/// On a reliable transport a final failure ends the transaction at once (Timer D is zero).
pub proof fn lemma_reliable_failure_terminates(s: State, code: u16, resp: ResponseView, q: RequestView)
    requires
        s == State::Calling || s == State::Proceeding,
        code >= 300,
    ensures
        on_response(s, true, code, resp, q).0 == State::Terminated,
{
}

} // verus!
