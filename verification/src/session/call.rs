//! Calls: the signaling state of one call, its dialog, and the events it reports.
use crate::config::CodecConfig;
use crate::dialog::state::DialogId;
use std::sync::Arc;
use vstd::prelude::*;

verus! {

/// Simplified dialog info for call tracking: which dialog a call belongs to, without the
/// dialog's own state machine.
#[derive(Debug, Clone)]
pub struct Dialog {
    id: DialogId,
    local_uri: String,
    remote_uri: String,
    local_cseq: u32,
}

/// A call's dialog as plain values.
pub struct DialogView {
    pub call_id: Seq<char>,
    pub local_tag: Seq<char>,
    pub remote_tag: Seq<char>,
    pub local_uri: Seq<char>,
    pub remote_uri: Seq<char>,
    pub local_cseq: u32,
}

impl View for Dialog {
    type V = DialogView;

    closed spec fn view(&self) -> DialogView {
        DialogView {
            call_id: self.id.call_id@,
            local_tag: self.id.local_tag@,
            remote_tag: self.id.remote_tag@,
            local_uri: self.local_uri@,
            remote_uri: self.remote_uri@,
            local_cseq: self.local_cseq,
        }
    }
}

impl Dialog {
    /// Create a new dialog for a UAC (caller): the From tag is the local tag.
    pub fn new_uac(
        call_id: String,
        from_tag: String,
        to_tag: String,
        local_uri: String,
        remote_uri: String,
        cseq: u32,
    ) -> (d: Self)
        ensures
            d@ == (DialogView {
                call_id: call_id@,
                local_tag: from_tag@,
                remote_tag: to_tag@,
                local_uri: local_uri@,
                remote_uri: remote_uri@,
                local_cseq: cseq,
            }),
    {
        Dialog {
            id: DialogId::new(call_id.as_str(), from_tag.as_str(), to_tag.as_str()),
            local_uri,
            remote_uri,
            local_cseq: cseq,
        }
    }

    /// Create a new dialog for a UAS (callee): the To tag is the local tag.
    pub fn new_uas(
        call_id: String,
        from_tag: String,
        to_tag: String,
        local_uri: String,
        remote_uri: String,
        cseq: u32,
    ) -> (d: Self)
        ensures
            d@ == (DialogView {
                call_id: call_id@,
                local_tag: to_tag@,
                remote_tag: from_tag@,
                local_uri: local_uri@,
                remote_uri: remote_uri@,
                local_cseq: cseq,
            }),
    {
        Dialog {
            id: DialogId::new(call_id.as_str(), to_tag.as_str(), from_tag.as_str()),
            local_uri,
            remote_uri,
            local_cseq: cseq,
        }
    }

    /// Get the dialog ID.
    pub fn id(&self) -> (i: &DialogId)
        ensures
            i.call_id@ == self@.call_id,
            i.local_tag@ == self@.local_tag,
            i.remote_tag@ == self@.remote_tag,
    {
        &self.id
    }

    /// Get the local URI.
    pub fn local_uri(&self) -> (s: &str)
        ensures
            s@ == self@.local_uri,
    {
        self.local_uri.as_str()
    }

    /// Get the remote URI.
    pub fn remote_uri(&self) -> (s: &str)
        ensures
            s@ == self@.remote_uri,
    {
        self.remote_uri.as_str()
    }

    /// Get the local CSeq.
    pub fn local_cseq(&self) -> (c: u32)
        ensures
            c == self@.local_cseq,
    {
        self.local_cseq
    }

    /// Increment and return the next CSeq.
    pub fn next_cseq(&mut self) -> (c: u32)
        requires
            old(self)@.local_cseq < u32::MAX,
        ensures
            c == old(self)@.local_cseq + 1,
            final(self)@ == (DialogView { local_cseq: c, ..old(self)@ }),
    {
        self.local_cseq = self.local_cseq + 1;
        self.local_cseq
    }
}

/// Call state.
#[derive(Debug, Clone, Copy, PartialEq, Eq, Structural)]
pub enum CallState {
    /// Initial state before any signaling.
    Idle,
    /// INVITE sent, waiting for response.
    Inviting,
    /// 18x received, ringing.
    Ringing,
    /// Early media established (18x with SDP).
    EarlyMedia,
    /// 200 OK received, call established.
    Established,
    /// BYE sent or received, terminating.
    Terminating,
    /// Call ended.
    Terminated,
}

/// Direction of the call.
#[derive(Debug, Clone, Copy, PartialEq, Eq, Structural)]
pub enum CallDirection {
    /// We originated the call (UAC).
    Outbound,
    /// We received the call (UAS).
    Inbound,
}

/// Call configuration.
#[derive(Debug, Clone)]
pub struct CallConfig {
    /// Local SIP URI (sip:user@host).
    pub local_uri: String,
    /// Local display name.
    pub local_name: Option<String>,
    /// Supported codecs.
    pub codecs: Vec<CodecConfig>,
    /// RTP port range start.
    pub rtp_port_start: u16,
    /// RTP port range end.
    pub rtp_port_end: u16,
}

impl Default for CallConfig {
    fn default() -> (c: Self)
        ensures
            c.local_uri@ == "sip:user@127.0.0.1"@,
            c.local_name is None,
            c.codecs@.len() == 2,
            c.codecs@[0].name@ == "PCMU"@ && c.codecs@[0].payload_type == 0,
            c.codecs@[1].name@ == "PCMA"@ && c.codecs@[1].payload_type == 8,
            c.rtp_port_start == 10000,
            c.rtp_port_end == 20000,
    {
        CallConfig {
            local_uri: "sip:user@127.0.0.1".to_string(),
            local_name: None,
            codecs: vec![CodecConfig::pcmu(), CodecConfig::pcma()],
            rtp_port_start: 10000,
            rtp_port_end: 20000,
        }
    }
}

/// Reason for call ending.
#[derive(Debug, Clone, Copy, PartialEq, Eq, Structural)]
pub enum CallEndReason {
    /// Normal hangup.
    NormalClearing,
    /// Remote rejected.
    Rejected,
    /// Remote busy.
    Busy,
    /// No answer timeout.
    NoAnswer,
    /// Network error.
    NetworkError,
    /// Call canceled.
    Canceled,
    /// Other error.
    Error,
}

/// Events emitted by a call.
#[derive(Debug, Clone)]
pub enum CallEvent {
    /// Call state changed.
    StateChanged(CallState),
    /// Remote is ringing.
    Ringing,
    /// Early media available.
    EarlyMedia,
    /// Call answered and media ready.
    Answered,
    /// Call ended.
    Ended(CallEndReason),
    /// Audio samples received.
    AudioReceived(Vec<i16>),
    /// DTMF digit received.
    DtmfReceived(char),
}

/// A call event as plain values.
pub enum EventView {
    StateChanged(CallState),
    Ringing,
    EarlyMedia,
    Answered,
    Ended(CallEndReason),
    AudioReceived(Seq<i16>),
    DtmfReceived(char),
}

impl View for CallEvent {
    type V = EventView;

    open spec fn view(&self) -> EventView {
        match self {
            CallEvent::StateChanged(s) => EventView::StateChanged(*s),
            CallEvent::Ringing => EventView::Ringing,
            CallEvent::EarlyMedia => EventView::EarlyMedia,
            CallEvent::Answered => EventView::Answered,
            CallEvent::Ended(r) => EventView::Ended(*r),
            CallEvent::AudioReceived(a) => EventView::AudioReceived(a@),
            CallEvent::DtmfReceived(c) => EventView::DtmfReceived(*c),
        }
    }
}

/// The views of a list of events.
pub open spec fn events_view(v: Seq<CallEvent>) -> Seq<EventView> {
    Seq::new(v.len(), |i: int| v[i]@)
}

/// Call identifier.
#[derive(Debug, Clone, PartialEq, Eq, Hash)]
pub struct CallId(pub String);

/// A random (version 4) UUID in its hyphenated form (`uuid::Uuid::new_v4().to_string()`):
/// 36 characters; only the form is stated, as the digits are random.
#[verifier::external_body]
fn uuid_hyphenated() -> (s: String)
    ensures
        s@.len() == 36,
{
    uuid::Uuid::new_v4().to_string()
}

impl CallId {
    /// Create a new unique call ID: a random UUID.
    pub fn new() -> (c: Self)
        ensures
            c.0@.len() == 36,
    {
        CallId(uuid_hyphenated())
    }

    /// The identifier's text.
    pub fn to_text(&self) -> (s: String)
        ensures
            s@ == self.0@,
    {
        self.0.clone()
    }
}

impl Default for CallId {
    fn default() -> (c: Self)
        ensures
            c.0@.len() == 36,
    {
        Self::new()
    }
}

/// A SIP call: its signaling state, direction, remote party, dialog and pending events.
#[derive(Debug)]
pub struct Call {
    id: CallId,
    state: CallState,
    direction: CallDirection,
    config: Arc<CallConfig>,
    remote_uri: String,
    dialog: Option<Dialog>,
    events: Vec<CallEvent>,
}

/// A call as plain values.
pub struct CallView {
    pub id: Seq<char>,
    pub state: CallState,
    pub direction: CallDirection,
    pub remote_uri: Seq<char>,
    pub dialog: Option<DialogView>,
    pub events: Seq<EventView>,
}

impl View for Call {
    type V = CallView;

    closed spec fn view(&self) -> CallView {
        CallView {
            id: self.id.0@,
            state: self.state,
            direction: self.direction,
            remote_uri: self.remote_uri@,
            dialog: match self.dialog {
                Some(d) => Some(d@),
                None => None,
            },
            events: events_view(self.events@),
        }
    }
}

/// The events that a transition to `to` from `from` adds: a state change, when the state
/// changes.
pub open spec fn state_change(from: CallState, to: CallState) -> Seq<EventView> {
    if from != to { seq![EventView::StateChanged(to)] } else { Seq::empty() }
}

impl Call {
    /// Create a new outbound call, idle.
    pub fn new_outbound(config: Arc<CallConfig>, remote_uri: String) -> (c: Self)
        ensures
            c@.id.len() == 36,
            c@.state == CallState::Idle,
            c@.direction == CallDirection::Outbound,
            c@.remote_uri == remote_uri@,
            c@.dialog is None,
            c@.events == Seq::<EventView>::empty(),
            c.spec_config() == config,
    {
        let c = Call {
            id: CallId::new(),
            state: CallState::Idle,
            direction: CallDirection::Outbound,
            config,
            remote_uri,
            dialog: None,
            events: Vec::new(),
        };
        assert(c@.events =~= Seq::<EventView>::empty());
        c
    }

    /// Create a new inbound call, ringing, in the given dialog.
    pub fn new_inbound(config: Arc<CallConfig>, remote_uri: String, dialog: Dialog) -> (c: Self)
        ensures
            c@.id.len() == 36,
            c@.state == CallState::Ringing,
            c@.direction == CallDirection::Inbound,
            c@.remote_uri == remote_uri@,
            c@.dialog == Some(dialog@),
            c@.events == seq![EventView::StateChanged(CallState::Ringing)],
            c.spec_config() == config,
    {
        let c = Call {
            id: CallId::new(),
            state: CallState::Ringing,
            direction: CallDirection::Inbound,
            config,
            remote_uri,
            dialog: Some(dialog),
            events: vec![CallEvent::StateChanged(CallState::Ringing)],
        };
        assert(c@.events =~= seq![EventView::StateChanged(CallState::Ringing)]);
        c
    }

    /// The call's configuration.
    pub closed spec fn spec_config(&self) -> Arc<CallConfig> {
        self.config
    }

    /// Get the call ID.
    pub fn id(&self) -> (i: &CallId)
        ensures
            i.0@ == self@.id,
    {
        &self.id
    }

    /// Get the call state.
    pub fn state(&self) -> (s: CallState)
        ensures
            s == self@.state,
    {
        self.state
    }

    /// Get the call direction.
    pub fn direction(&self) -> (d: CallDirection)
        ensures
            d == self@.direction,
    {
        self.direction
    }

    /// Get the remote URI.
    pub fn remote_uri(&self) -> (s: &str)
        ensures
            s@ == self@.remote_uri,
    {
        self.remote_uri.as_str()
    }

    /// Get the call configuration.
    pub fn config(&self) -> (c: &CallConfig)
        ensures
            *c == *self.spec_config(),
    {
        &self.config
    }

    /// Get the dialog ID (if established).
    pub fn dialog_id(&self) -> (r: Option<&DialogId>)
        ensures
            match self@.dialog {
                Some(d) => r matches Some(i) && i.call_id@ == d.call_id && i.local_tag@ == d.local_tag
                    && i.remote_tag@ == d.remote_tag,
                None => r is None,
            },
    {
        match &self.dialog {
            Some(d) => Some(d.id()),
            None => None,
        }
    }

    /// Set the dialog for this call.
    pub fn set_dialog(&mut self, dialog: Dialog)
        ensures
            final(self)@ == (CallView { dialog: Some(dialog@), ..old(self)@ }),
            final(self).spec_config() == old(self).spec_config(),
    {
        self.dialog = Some(dialog);
    }

    /// Transition to a new state; a change of state is reported as an event.
    pub fn set_state(&mut self, state: CallState)
        ensures
            final(self)@ == (CallView {
                state,
                events: old(self)@.events + state_change(old(self)@.state, state),
                ..old(self)@
            }),
            final(self).spec_config() == old(self).spec_config(),
    {
        if self.state != state {
            self.state = state;
            self.events.push(CallEvent::StateChanged(state));
        }
        assert(self@.events =~= old(self)@.events + state_change(old(self)@.state, state));
    }

    /// Handle an 18x response: early media when it carries SDP, ringing otherwise.
    pub fn handle_provisional(&mut self, has_sdp: bool)
        ensures
            has_sdp ==> final(self)@ == (CallView {
                state: CallState::EarlyMedia,
                events: old(self)@.events + state_change(old(self)@.state, CallState::EarlyMedia)
                    + seq![EventView::EarlyMedia],
                ..old(self)@
            }),
            !has_sdp ==> final(self)@ == (CallView {
                state: CallState::Ringing,
                events: old(self)@.events + state_change(old(self)@.state, CallState::Ringing) + seq![
                    EventView::Ringing,
                ],
                ..old(self)@
            }),
            final(self).spec_config() == old(self).spec_config(),
    {
        if has_sdp {
            self.set_state(CallState::EarlyMedia);
            self.events.push(CallEvent::EarlyMedia);
        } else {
            self.set_state(CallState::Ringing);
            self.events.push(CallEvent::Ringing);
        }
        assert(self@.events =~= old(self)@.events + state_change(old(self)@.state, self@.state) + seq![
            if has_sdp { EventView::EarlyMedia } else { EventView::Ringing },
        ]);
    }

    /// Handle 200 OK: the call is established.
    pub fn handle_answer(&mut self)
        ensures
            final(self)@ == (CallView {
                state: CallState::Established,
                events: old(self)@.events + state_change(old(self)@.state, CallState::Established) + seq![
                    EventView::Answered,
                ],
                ..old(self)@
            }),
            final(self).spec_config() == old(self).spec_config(),
    {
        self.set_state(CallState::Established);
        self.events.push(CallEvent::Answered);
        assert(self@.events =~= old(self)@.events + state_change(old(self)@.state, CallState::Established) + seq![
            EventView::Answered,
        ]);
    }

    /// Handle the end of the call: it is terminated, and the reason is reported.
    pub fn handle_ended(&mut self, reason: CallEndReason)
        ensures
            final(self)@ == (CallView {
                state: CallState::Terminated,
                events: old(self)@.events + state_change(old(self)@.state, CallState::Terminated) + seq![
                    EventView::Ended(reason),
                ],
                ..old(self)@
            }),
            final(self).spec_config() == old(self).spec_config(),
    {
        self.set_state(CallState::Terminated);
        self.events.push(CallEvent::Ended(reason));
        assert(self@.events =~= old(self)@.events + state_change(old(self)@.state, CallState::Terminated) + seq![
            EventView::Ended(reason),
        ]);
    }

    /// Drain pending events, oldest first.
    pub fn drain_events(&mut self) -> (v: Vec<CallEvent>)
        ensures
            events_view(v@) == old(self)@.events,
            final(self)@ == (CallView { events: Seq::empty(), ..old(self)@ }),
            final(self).spec_config() == old(self).spec_config(),
    {
        let mut out: Vec<CallEvent> = Vec::new();
        std::mem::swap(&mut out, &mut self.events);
        assert(self@.events =~= Seq::<EventView>::empty());
        out
    }

    /// Get the dialog.
    pub fn dialog(&self) -> (r: Option<&Dialog>)
        ensures
            match self@.dialog {
                Some(d) => r matches Some(x) && x@ == d,
                None => r is None,
            },
    {
        match &self.dialog {
            Some(d) => Some(d),
            None => None,
        }
    }

    /// Get mutable dialog.
    pub fn dialog_mut(&mut self) -> (r: Option<&mut Dialog>)
        ensures
            match old(self)@.dialog {
                Some(d) => r matches Some(x) && x@ == d && final(self)@ == (CallView {
                    dialog: Some(final(x)@),
                    ..old(self)@
                }),
                None => r is None && final(self)@ == old(self)@,
            },
            final(self).spec_config() == old(self).spec_config(),
    {
        match &mut self.dialog {
            Some(d) => Some(d),
            None => None,
        }
    }

    /// Check if call is active (established and not terminated).
    pub fn is_active(&self) -> (b: bool)
        ensures
            b == (self@.state == CallState::Established),
    {
        self.state == CallState::Established
    }

    /// Check if call can receive media (early media or established).
    pub fn can_receive_media(&self) -> (b: bool)
        ensures
            b == (self@.state == CallState::EarlyMedia || self@.state == CallState::Established),
    {
        match self.state {
            CallState::EarlyMedia | CallState::Established => true,
            _ => false,
        }
    }
}

} // verus!
