//! Non-INVITE client transaction state machine (RFC 3261 section 17.1.2), without I/O.
//!
//! ```text
//!   Trying --1xx--> Proceeding --200-699--> Completed --Timer K--> Terminated
//!      +--------------200-699-----------------^
//! ```
use crate::sip::message::{via_branch_of, Method, RequestView, ResponseView, SipRequest, SipResponse};
use crate::time::Duration;
use crate::transaction::client::invite::{request_bytes, TransactionId};
use crate::transaction::timer::{Timer, TimerValues};
use vstd::prelude::*;

verus! {

/// State of the non-INVITE client transaction.
#[derive(Debug, Clone, Copy, PartialEq, Eq, Structural)]
pub enum State {
    /// Initial state - request has been sent.
    Trying,
    /// 1xx received - waiting for final response.
    Proceeding,
    /// Final response received - waiting for Timer K.
    Completed,
    /// Transaction is finished.
    Terminated,
}

/// Event emitted to the Transaction User.
#[derive(Debug, Clone)]
pub enum Event {
    /// Provisional response received.
    Provisional(SipResponse),
    /// Final response received (2xx-6xx).
    FinalResponse(SipResponse),
    /// Transaction timed out (Timer F fired).
    Timeout,
    /// Transport error.
    TransportError,
}

/// Output action from the transaction.
#[derive(Debug, Clone)]
pub enum Action {
    /// Transmit a message to the network.
    Send(Vec<u8>),
    /// Emit an event to the Transaction User (TU).
    Event(Event),
    /// Set a timer.
    SetTimer(Timer, Duration),
    /// Cancel a timer.
    CancelTimer(Timer),
}

/// An event as plain values.
pub enum EventView {
    Provisional(ResponseView),
    FinalResponse(ResponseView),
    Timeout,
    TransportError,
}

/// An action as plain values.
pub enum ActionView {
    Send(Seq<u8>),
    Event(EventView),
    SetTimer(Timer, Duration),
    CancelTimer(Timer),
}

impl View for Event {
    type V = EventView;

    open spec fn view(&self) -> EventView {
        match self {
            Event::Provisional(r) => EventView::Provisional(r@),
            Event::FinalResponse(r) => EventView::FinalResponse(r@),
            Event::Timeout => EventView::Timeout,
            Event::TransportError => EventView::TransportError,
        }
    }
}

impl View for Action {
    type V = ActionView;

    open spec fn view(&self) -> ActionView {
        match self {
            Action::Send(b) => ActionView::Send(b@),
            Action::Event(e) => ActionView::Event(e@),
            Action::SetTimer(t, d) => ActionView::SetTimer(*t, *d),
            Action::CancelTimer(t) => ActionView::CancelTimer(*t),
        }
    }
}

/// The views of a list of actions.
pub open spec fn actions_view(v: Seq<Action>) -> Seq<ActionView> {
    Seq::new(v.len(), |i: int| v[i]@)
}

/// Timer K for an unreliable transport: T4, 5 seconds.
pub open spec fn timer_k_value() -> Duration {
    Duration { nanos: 5_000_000_000 }
}

/// What a response with status `code` does in state `s`: the next state and the actions.
pub open spec fn on_response(s: State, reliable: bool, code: u16, resp: ResponseView) -> (State, Seq<ActionView>) {
    let final_actions = (if reliable { Seq::empty() } else { seq![ActionView::CancelTimer(Timer::E)] }) + seq![
        ActionView::CancelTimer(Timer::F),
        ActionView::Event(EventView::FinalResponse(resp)),
    ] + if reliable {
        Seq::empty()
    } else {
        seq![ActionView::SetTimer(Timer::K, timer_k_value())]
    };
    let after_final = if reliable { State::Terminated } else { State::Completed };
    match s {
        State::Trying | State::Proceeding => if 100 <= code < 200 {
            (State::Proceeding, seq![ActionView::Event(EventView::Provisional(resp))])
        } else if code >= 200 {
            (after_final, final_actions)
        } else {
            (s, Seq::empty())
        },
        State::Completed | State::Terminated => (s, Seq::empty()),
    }
}

/// What a timer firing other than a retransmission does in state `s`.
pub open spec fn on_timeout(s: State, t: Timer) -> State {
    match (s, t) {
        (State::Trying, Timer::F) | (State::Proceeding, Timer::F) => State::Terminated,
        (State::Completed, Timer::K) => State::Terminated,
        _ => s,
    }
}

/// Non-INVITE client transaction (Sans-IO).
#[derive(Debug)]
pub struct NonInviteClientTransaction {
    id: TransactionId,
    state: State,
    request: SipRequest,
    timers: TimerValues,
    reliable: bool,
    retransmit_interval: Duration,
    actions: Vec<Action>,
}

impl NonInviteClientTransaction {
    /// The state.
    pub closed spec fn spec_state(&self) -> State {
        self.state
    }

    /// The request.
    pub closed spec fn spec_request(&self) -> RequestView {
        self.request@
    }

    /// Whether the transport is reliable.
    pub closed spec fn spec_reliable(&self) -> bool {
        self.reliable
    }

    /// The current Timer E interval.
    pub closed spec fn spec_interval(&self) -> Duration {
        self.retransmit_interval
    }

    /// The pending actions.
    pub closed spec fn spec_actions(&self) -> Seq<ActionView> {
        actions_view(self.actions@)
    }

    /// The transaction's identifier.
    pub closed spec fn spec_id(&self) -> (Seq<char>, Method) {
        (self.id.branch@, self.id.method)
    }

    /// The transaction's invariant: default timers, and a Timer E interval no longer than T2.
    pub closed spec fn wf(&self) -> bool {
        &&& self.timers.t1.nanos == 500_000_000
        &&& self.timers.t2.nanos == 4_000_000_000
        &&& self.timers.t4.nanos == 5_000_000_000
        &&& self.retransmit_interval.nanos <= 4_000_000_000
    }

    /// Create a new non-INVITE client transaction: none for an INVITE or for a request whose
    /// Via branch cannot be read. The request is sent, Timer E is set (unreliable transports
    /// only) and Timer F is set.
    pub fn new(request: SipRequest, reliable: bool) -> (r: Option<Self>)
        ensures
            request@.method == Method::Invite ==> r is None,
            request@.method != Method::Invite ==> match via_branch_of(request@.headers) {
                None => r is None,
                Some(b) => r matches Some(t) && t.wf() && t.spec_state() == State::Trying && t.spec_request()
                    == request@ && t.spec_reliable() == reliable && t.spec_id() == (b, request@.method)
                    && t.spec_interval() == (Duration { nanos: 500_000_000 }) && t.spec_actions() == seq![
                    ActionView::Send(request_bytes(request@)),
                ] + (if reliable {
                    Seq::empty()
                } else {
                    seq![ActionView::SetTimer(Timer::E, Duration { nanos: 500_000_000 })]
                }) + seq![ActionView::SetTimer(Timer::F, Duration { nanos: 32_000_000_000 })],
            },
    {
        if request.method() == Method::Invite {
            return None;
        }
        let id = match TransactionId::from_request(&request) {
            Some(id) => id,
            None => return None,
        };
        let timers = TimerValues::default();
        let retransmit_interval = timers.timer_e();
        let mut actions: Vec<Action> = Vec::new();
        actions.push(Action::Send(request.to_bytes()));
        if !reliable {
            actions.push(Action::SetTimer(Timer::E, retransmit_interval));
        }
        actions.push(Action::SetTimer(Timer::F, timers.timer_f()));
        let tx = NonInviteClientTransaction {
            id,
            state: State::Trying,
            request,
            timers,
            reliable,
            retransmit_interval,
            actions,
        };
        assert(tx.spec_actions() =~= seq![ActionView::Send(request_bytes(tx.request@))] + (if reliable {
            Seq::empty()
        } else {
            seq![ActionView::SetTimer(Timer::E, Duration { nanos: 500_000_000 })]
        }) + seq![ActionView::SetTimer(Timer::F, Duration { nanos: 32_000_000_000 })]);
        Some(tx)
    }

    /// Get the transaction ID.
    pub fn id(&self) -> (i: &TransactionId)
        ensures
            (i.branch@, i.method) == self.spec_id(),
    {
        &self.id
    }

    /// Get the current state.
    pub fn state(&self) -> (s: State)
        ensures
            s == self.spec_state(),
    {
        self.state
    }

    /// Check if the transaction is terminated.
    pub fn is_terminated(&self) -> (b: bool)
        ensures
            b == (self.spec_state() == State::Terminated),
    {
        self.state == State::Terminated
    }

    /// Handle a timer firing: Timer E in Trying or Proceeding retransmits the request and
    /// doubles its interval (up to T2); Timer F there times the transaction out; Timer K in
    /// Completed terminates it; any other firing is ignored.
    pub fn handle_timeout(&mut self, timer: Timer)
        requires
            old(self).wf(),
        ensures
            final(self).wf(),
            final(self).spec_request() == old(self).spec_request(),
            final(self).spec_reliable() == old(self).spec_reliable(),
            final(self).spec_id() == old(self).spec_id(),
            (old(self).spec_state() == State::Trying || old(self).spec_state() == State::Proceeding) && timer
                == Timer::E ==> {
                let next = Duration {
                    nanos: if old(self).spec_interval().nanos * 2 <= 4_000_000_000 {
                        (old(self).spec_interval().nanos * 2) as u128
                    } else {
                        4_000_000_000u128
                    },
                };
                &&& final(self).spec_state() == old(self).spec_state()
                &&& final(self).spec_interval() == next
                &&& final(self).spec_actions() == old(self).spec_actions() + seq![
                    ActionView::Send(request_bytes(old(self).spec_request())),
                    ActionView::SetTimer(Timer::E, next),
                ]
            },
            !((old(self).spec_state() == State::Trying || old(self).spec_state() == State::Proceeding) && timer
                == Timer::E) ==> {
                &&& final(self).spec_state() == on_timeout(old(self).spec_state(), timer)
                &&& final(self).spec_interval() == old(self).spec_interval()
                &&& final(self).spec_actions() == old(self).spec_actions() + if timer == Timer::F
                    && (old(self).spec_state() == State::Trying || old(self).spec_state() == State::Proceeding) {
                    seq![ActionView::Event(EventView::Timeout)]
                } else {
                    Seq::empty()
                }
            },
    {
        let ghost before = self.spec_actions();
        match (self.state, timer) {
            (State::Trying, Timer::E) | (State::Proceeding, Timer::E) => {
                self.actions.push(Action::Send(self.request.to_bytes()));
                self.retransmit_interval = self.timers.next_retransmit(self.retransmit_interval);
                self.actions.push(Action::SetTimer(Timer::E, self.retransmit_interval));
            },
            (State::Trying, Timer::F) | (State::Proceeding, Timer::F) => {
                self.state = State::Terminated;
                self.actions.push(Action::Event(Event::Timeout));
            },
            (State::Completed, Timer::K) => {
                self.state = State::Terminated;
            },
            _ => {},
        }
        proof {
            if (old(self).spec_state() == State::Trying || old(self).spec_state() == State::Proceeding) && timer
                == Timer::E {
                assert(self.spec_actions() =~= before + seq![
                    ActionView::Send(request_bytes(old(self).spec_request())),
                    ActionView::SetTimer(Timer::E, self.retransmit_interval),
                ]);
            } else {
                assert(self.spec_actions() =~= before + if timer == Timer::F && (old(self).spec_state()
                    == State::Trying || old(self).spec_state() == State::Proceeding) {
                    seq![ActionView::Event(EventView::Timeout)]
                } else {
                    Seq::empty()
                });
            }
        }
    }

    /// Handle a response from the network (see `on_response`).
    pub fn handle_response(&mut self, response: SipResponse)
        requires
            old(self).wf(),
        ensures
            final(self).wf(),
            final(self).spec_request() == old(self).spec_request(),
            final(self).spec_reliable() == old(self).spec_reliable(),
            final(self).spec_id() == old(self).spec_id(),
            final(self).spec_interval() == old(self).spec_interval(),
            ({
                let (s, acts) = on_response(old(self).spec_state(), old(self).spec_reliable(), response@.status_code, response@);
                final(self).spec_state() == s && final(self).spec_actions() == old(self).spec_actions() + acts
            }),
    {
        let code = response.status_code();
        let ghost before = self.spec_actions();
        let ghost resp = response@;
        match self.state {
            State::Trying | State::Proceeding => {
                if 100 <= code && code < 200 {
                    self.state = State::Proceeding;
                    self.actions.push(Action::Event(Event::Provisional(response)));
                } else if code >= 200 {
                    self.state = State::Completed;
                    if !self.reliable {
                        self.actions.push(Action::CancelTimer(Timer::E));
                    }
                    self.actions.push(Action::CancelTimer(Timer::F));
                    self.actions.push(Action::Event(Event::FinalResponse(response)));
                    let timer_k = self.timers.timer_k(self.reliable);
                    if timer_k.is_zero() {
                        self.state = State::Terminated;
                    } else {
                        self.actions.push(Action::SetTimer(Timer::K, timer_k));
                    }
                }
            },
            State::Completed | State::Terminated => {},
        }
        proof {
            let (s, acts) = on_response(old(self).spec_state(), old(self).spec_reliable(), code, resp);
            assert(self.spec_actions() =~= before + acts);
        }
    }

    /// Drain pending actions, oldest first.
    pub fn poll_actions(&mut self) -> (v: Vec<Action>)
        requires
            old(self).wf(),
        ensures
            final(self).wf(),
            actions_view(v@) == old(self).spec_actions(),
            final(self).spec_actions() == Seq::<ActionView>::empty(),
            final(self).spec_state() == old(self).spec_state(),
            final(self).spec_request() == old(self).spec_request(),
            final(self).spec_reliable() == old(self).spec_reliable(),
            final(self).spec_id() == old(self).spec_id(),
            final(self).spec_interval() == old(self).spec_interval(),
    {
        let mut out: Vec<Action> = Vec::new();
        std::mem::swap(&mut out, &mut self.actions);
        assert(self.spec_actions() =~= Seq::<ActionView>::empty());
        out
    }

    /// Handle a transport error: in Trying or Proceeding the transaction terminates and
    /// reports the error.
    pub fn handle_transport_error(&mut self)
        requires
            old(self).wf(),
        ensures
            final(self).wf(),
            final(self).spec_request() == old(self).spec_request(),
            final(self).spec_reliable() == old(self).spec_reliable(),
            final(self).spec_id() == old(self).spec_id(),
            final(self).spec_interval() == old(self).spec_interval(),
            (old(self).spec_state() == State::Trying || old(self).spec_state() == State::Proceeding) ==> (
                final(self).spec_state() == State::Terminated
                && final(self).spec_actions() == old(self).spec_actions() + seq![ActionView::Event(EventView::TransportError)]),
            !(old(self).spec_state() == State::Trying || old(self).spec_state() == State::Proceeding) ==> (
                final(self).spec_state() == old(self).spec_state()
                && final(self).spec_actions() == old(self).spec_actions()),
    {
        match self.state {
            State::Trying | State::Proceeding => {
                self.state = State::Terminated;
                self.actions.push(Action::Event(Event::TransportError));
                assert(self.spec_actions() =~= old(self).spec_actions() + seq![
                    ActionView::Event(EventView::TransportError),
                ]);
            },
            _ => {},
        }
    }
}

/// A final response in Trying or Proceeding completes the transaction (ends it at once on a
/// reliable transport) and is handed to the transaction user.
pub proof fn lemma_final_response_completes(s: State, reliable: bool, code: u16, resp: ResponseView)
    requires
        s == State::Trying || s == State::Proceeding,
        code >= 200,
    ensures
        on_response(s, reliable, code, resp).0 == (if reliable { State::Terminated } else { State::Completed }),
        on_response(s, reliable, code, resp).1.contains(ActionView::Event(EventView::FinalResponse(resp))),
{
    let acts = on_response(s, reliable, code, resp).1;
    let k: int = if reliable { 1 } else { 2 };
    assert(acts[k] == ActionView::Event(EventView::FinalResponse(resp)));
}

/// Completed and Terminated ignore every response.
pub proof fn lemma_late_responses_ignored(s: State, reliable: bool, code: u16, resp: ResponseView)
    requires
        s == State::Completed || s == State::Terminated,
    ensures
        on_response(s, reliable, code, resp) == (s, Seq::<ActionView>::empty()),
{
}

} // verus!
