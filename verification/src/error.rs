//! Error types of the stack and their messages.
use crate::text::{dec, push_dec, push_str, string_of};
use vstd::prelude::*;

verus! {

/// Top-level error type for the entire stack.
#[derive(Debug)]
pub enum Error {
    Transport(TransportError),
    Sip(SipError),
    Media(MediaError),
    Session(SessionError),
    Config(ConfigError),
    Io(std::io::Error),
}

/// Transport layer errors.
#[derive(Debug)]
pub enum TransportError {
    Io(std::io::Error),
    ConnectionClosed,
    Timeout,
    DnsError(String),
    TlsError(String),
    MessageTooLarge { size: usize, max: usize },
}

/// SIP protocol errors.
#[derive(Debug, Clone, PartialEq, Eq)]
pub enum SipError {
    Parse(String),
    InvalidHeader(String),
    MissingHeader(String),
    TransactionTimeout,
    TransactionNotFound(String),
    DialogNotFound(String),
    InvalidDialogState { expected: String, actual: String },
    AuthenticationFailed,
    Response { code: u16, reason: String },
    RequestUriMismatch,
}

/// Media layer errors.
#[derive(Debug, Clone, PartialEq, Eq)]
pub enum MediaError {
    Codec(String),
    Rtp(String),
    Srtp(String),
    NoCompatibleCodec,
    IceFailure(String),
    JitterBufferOverflow,
    InvalidPayloadType(u8),
}

/// Session management errors.
#[derive(Debug, Clone, PartialEq, Eq)]
pub enum SessionError {
    CallNotFound(String),
    InvalidStateTransition { from: String, to: String },
    ResourceExhausted(String),
    OperationNotAllowed,
}

/// Configuration errors.
#[derive(Debug, Clone, PartialEq, Eq)]
pub enum ConfigError {
    Invalid(String),
    MissingField(String),
    InvalidUri(String),
    InvalidPortRange { start: u16, end: u16 },
}

/// The message of a SIP error.
pub open spec fn sip_error_text(e: SipError) -> Seq<char> {
    match e {
        SipError::Parse(s) => "Parse error: "@ + s@,
        SipError::InvalidHeader(s) => "Invalid header: "@ + s@,
        SipError::MissingHeader(s) => "Missing required header: "@ + s@,
        SipError::TransactionTimeout => "Transaction timeout"@,
        SipError::TransactionNotFound(s) => "Transaction not found: "@ + s@,
        SipError::DialogNotFound(s) => "Dialog not found: "@ + s@,
        SipError::InvalidDialogState { expected, actual } => "Invalid dialog state: expected "@ + expected@
            + ", got "@ + actual@,
        SipError::AuthenticationFailed => "Authentication failed"@,
        SipError::Response { code, reason } => "SIP response error: "@ + dec(code as nat) + seq![' ']
            + reason@,
        SipError::RequestUriMismatch => "Request URI mismatch"@,
    }
}

/// The message of a media error.
pub open spec fn media_error_text(e: MediaError) -> Seq<char> {
    match e {
        MediaError::Codec(s) => "Codec error: "@ + s@,
        MediaError::Rtp(s) => "RTP error: "@ + s@,
        MediaError::Srtp(s) => "SRTP error: "@ + s@,
        MediaError::NoCompatibleCodec => "No compatible codec found"@,
        MediaError::IceFailure(s) => "ICE failure: "@ + s@,
        MediaError::JitterBufferOverflow => "Jitter buffer overflow"@,
        MediaError::InvalidPayloadType(p) => "Invalid payload type: "@ + dec(p as nat),
    }
}

/// The message of a session error.
pub open spec fn session_error_text(e: SessionError) -> Seq<char> {
    match e {
        SessionError::CallNotFound(s) => "Call not found: "@ + s@,
        SessionError::InvalidStateTransition { from, to } => "Invalid state transition: "@ + from@ + " -> "@
            + to@,
        SessionError::ResourceExhausted(s) => "Resource exhausted: "@ + s@,
        SessionError::OperationNotAllowed => "Operation not allowed in current state"@,
    }
}

/// The message of a configuration error.
pub open spec fn config_error_text(e: ConfigError) -> Seq<char> {
    match e {
        ConfigError::Invalid(s) => "Invalid configuration: "@ + s@,
        ConfigError::MissingField(s) => "Missing required field: "@ + s@,
        ConfigError::InvalidUri(s) => "Invalid URI: "@ + s@,
        ConfigError::InvalidPortRange { start, end } => "Invalid port range: "@ + dec(start as nat) + ".."@
            + dec(end as nat),
    }
}

/// The message of a transport error other than an I/O error.
pub open spec fn transport_error_text(e: TransportError) -> Seq<char> {
    match e {
        TransportError::Io(_) => "IO error: "@,
        TransportError::ConnectionClosed => "Connection closed"@,
        TransportError::Timeout => "Connection timeout"@,
        TransportError::DnsError(s) => "DNS resolution failed: "@ + s@,
        TransportError::TlsError(s) => "TLS error: "@ + s@,
        TransportError::MessageTooLarge { size, max } => "Message too large: "@ + dec(size as nat)
            + " bytes (max "@ + dec(max as nat) + seq![')'],
    }
}

/// Whether `s` starts with `p`.
pub open spec fn has_prefix(s: Seq<char>, p: Seq<char>) -> bool {
    s.len() >= p.len() && s.take(p.len() as int) == p
}

fn push_prefixed(v: &mut Vec<char>, p: &str, t: &String)
    ensures
        final(v)@ == old(v)@ + p@ + t@,
{
    push_str(v, p);
    push_str(v, t.as_str());
}

impl SipError {
    /// The error's message.
    pub fn to_text(&self) -> (s: String)
        ensures
            s@ == sip_error_text(*self),
    {
        let mut v: Vec<char> = Vec::new();
        match self {
            SipError::Parse(s) => push_prefixed(&mut v, "Parse error: ", s),
            SipError::InvalidHeader(s) => push_prefixed(&mut v, "Invalid header: ", s),
            SipError::MissingHeader(s) => push_prefixed(&mut v, "Missing required header: ", s),
            SipError::TransactionTimeout => push_str(&mut v, "Transaction timeout"),
            SipError::TransactionNotFound(s) => push_prefixed(&mut v, "Transaction not found: ", s),
            SipError::DialogNotFound(s) => push_prefixed(&mut v, "Dialog not found: ", s),
            SipError::InvalidDialogState { expected, actual } => {
                push_prefixed(&mut v, "Invalid dialog state: expected ", expected);
                push_prefixed(&mut v, ", got ", actual);
            },
            SipError::AuthenticationFailed => push_str(&mut v, "Authentication failed"),
            SipError::Response { code, reason } => {
                push_str(&mut v, "SIP response error: ");
                push_dec(&mut v, *code as u64);
                v.push(' ');
                push_str(&mut v, reason.as_str());
            },
            SipError::RequestUriMismatch => push_str(&mut v, "Request URI mismatch"),
        }
        string_of(v.as_slice())
    }
}

impl MediaError {
    /// The error's message.
    pub fn to_text(&self) -> (s: String)
        ensures
            s@ == media_error_text(*self),
    {
        let mut v: Vec<char> = Vec::new();
        match self {
            MediaError::Codec(s) => push_prefixed(&mut v, "Codec error: ", s),
            MediaError::Rtp(s) => push_prefixed(&mut v, "RTP error: ", s),
            MediaError::Srtp(s) => push_prefixed(&mut v, "SRTP error: ", s),
            MediaError::NoCompatibleCodec => push_str(&mut v, "No compatible codec found"),
            MediaError::IceFailure(s) => push_prefixed(&mut v, "ICE failure: ", s),
            MediaError::JitterBufferOverflow => push_str(&mut v, "Jitter buffer overflow"),
            MediaError::InvalidPayloadType(p) => {
                push_str(&mut v, "Invalid payload type: ");
                push_dec(&mut v, *p as u64);
            },
        }
        string_of(v.as_slice())
    }
}

impl SessionError {
    /// The error's message.
    pub fn to_text(&self) -> (s: String)
        ensures
            s@ == session_error_text(*self),
    {
        let mut v: Vec<char> = Vec::new();
        match self {
            SessionError::CallNotFound(s) => push_prefixed(&mut v, "Call not found: ", s),
            SessionError::InvalidStateTransition { from, to } => {
                push_prefixed(&mut v, "Invalid state transition: ", from);
                push_prefixed(&mut v, " -> ", to);
            },
            SessionError::ResourceExhausted(s) => push_prefixed(&mut v, "Resource exhausted: ", s),
            SessionError::OperationNotAllowed => push_str(&mut v, "Operation not allowed in current state"),
        }
        string_of(v.as_slice())
    }
}

impl ConfigError {
    /// The error's message.
    pub fn to_text(&self) -> (s: String)
        ensures
            s@ == config_error_text(*self),
    {
        let mut v: Vec<char> = Vec::new();
        match self {
            ConfigError::Invalid(s) => push_prefixed(&mut v, "Invalid configuration: ", s),
            ConfigError::MissingField(s) => push_prefixed(&mut v, "Missing required field: ", s),
            ConfigError::InvalidUri(s) => push_prefixed(&mut v, "Invalid URI: ", s),
            ConfigError::InvalidPortRange { start, end } => {
                push_str(&mut v, "Invalid port range: ");
                push_dec(&mut v, *start as u64);
                push_str(&mut v, "..");
                push_dec(&mut v, *end as u64);
            },
        }
        string_of(v.as_slice())
    }
}

impl TransportError {
    /// The error's message; that of an I/O error is `IO error: ` and the I/O error's own text.
    pub fn to_text(&self) -> (s: String)
        ensures
            match self {
                TransportError::Io(_) => has_prefix(s@, "IO error: "@),
                _ => s@ == transport_error_text(*self),
            },
    {
        let mut v: Vec<char> = Vec::new();
        match self {
            TransportError::Io(e) => {
                push_str(&mut v, "IO error: ");
                let ghost head = v@;
                let t = crate::ice::stun::io_error_text(e);
                push_str(&mut v, t.as_str());
                assert(v@.take(head.len() as int) =~= head);
            },
            TransportError::ConnectionClosed => push_str(&mut v, "Connection closed"),
            TransportError::Timeout => push_str(&mut v, "Connection timeout"),
            TransportError::DnsError(s) => push_prefixed(&mut v, "DNS resolution failed: ", s),
            TransportError::TlsError(s) => push_prefixed(&mut v, "TLS error: ", s),
            TransportError::MessageTooLarge { size, max } => {
                push_str(&mut v, "Message too large: ");
                push_dec(&mut v, *size as u64);
                push_str(&mut v, " bytes (max ");
                push_dec(&mut v, *max as u64);
                v.push(')');
            },
        }
        string_of(v.as_slice())
    }
}

impl Error {
    /// The error's message: the layer's name and the inner error's message.
    pub fn to_text(&self) -> (s: String)
        ensures
            match self {
                Error::Transport(e) => has_prefix(s@, "Transport error: "@) && (!(e is Io) ==> s@
                    == "Transport error: "@ + transport_error_text(*e)),
                Error::Sip(e) => s@ == "SIP error: "@ + sip_error_text(*e),
                Error::Media(e) => s@ == "Media error: "@ + media_error_text(*e),
                Error::Session(e) => s@ == "Session error: "@ + session_error_text(*e),
                Error::Config(e) => s@ == "Configuration error: "@ + config_error_text(*e),
                Error::Io(_) => has_prefix(s@, "IO error: "@),
            },
    {
        let mut v: Vec<char> = Vec::new();
        let ghost head: Seq<char>;
        match self {
            Error::Transport(e) => {
                push_str(&mut v, "Transport error: ");
                proof {
                    head = v@;
                }
                let t = e.to_text();
                push_str(&mut v, t.as_str());
            },
            Error::Sip(e) => {
                push_str(&mut v, "SIP error: ");
                proof {
                    head = v@;
                }
                let t = e.to_text();
                push_str(&mut v, t.as_str());
            },
            Error::Media(e) => {
                push_str(&mut v, "Media error: ");
                proof {
                    head = v@;
                }
                let t = e.to_text();
                push_str(&mut v, t.as_str());
            },
            Error::Session(e) => {
                push_str(&mut v, "Session error: ");
                proof {
                    head = v@;
                }
                let t = e.to_text();
                push_str(&mut v, t.as_str());
            },
            Error::Config(e) => {
                push_str(&mut v, "Configuration error: ");
                proof {
                    head = v@;
                }
                let t = e.to_text();
                push_str(&mut v, t.as_str());
            },
            Error::Io(e) => {
                push_str(&mut v, "IO error: ");
                proof {
                    head = v@;
                }
                let t = crate::ice::stun::io_error_text(e);
                push_str(&mut v, t.as_str());
            },
        }
        assert(v@.take(head.len() as int) =~= head);
        string_of(v.as_slice())
    }
}

impl From<TransportError> for Error {
    fn from(e: TransportError) -> (r: Self) {
        Error::Transport(e)
    }
}

impl vstd::std_specs::convert::FromSpecImpl<TransportError> for Error {
    open spec fn obeys_from_spec() -> bool {
        true
    }

    open spec fn from_spec(e: TransportError) -> Error {
        Error::Transport(e)
    }
}

impl From<SipError> for Error {
    fn from(e: SipError) -> (r: Self) {
        Error::Sip(e)
    }
}

impl vstd::std_specs::convert::FromSpecImpl<SipError> for Error {
    open spec fn obeys_from_spec() -> bool {
        true
    }

    open spec fn from_spec(e: SipError) -> Error {
        Error::Sip(e)
    }
}

impl From<MediaError> for Error {
    fn from(e: MediaError) -> (r: Self) {
        Error::Media(e)
    }
}

impl vstd::std_specs::convert::FromSpecImpl<MediaError> for Error {
    open spec fn obeys_from_spec() -> bool {
        true
    }

    open spec fn from_spec(e: MediaError) -> Error {
        Error::Media(e)
    }
}

impl From<SessionError> for Error {
    fn from(e: SessionError) -> (r: Self) {
        Error::Session(e)
    }
}

impl vstd::std_specs::convert::FromSpecImpl<SessionError> for Error {
    open spec fn obeys_from_spec() -> bool {
        true
    }

    open spec fn from_spec(e: SessionError) -> Error {
        Error::Session(e)
    }
}

impl From<ConfigError> for Error {
    fn from(e: ConfigError) -> (r: Self) {
        Error::Config(e)
    }
}

impl vstd::std_specs::convert::FromSpecImpl<ConfigError> for Error {
    open spec fn obeys_from_spec() -> bool {
        true
    }

    open spec fn from_spec(e: ConfigError) -> Error {
        Error::Config(e)
    }
}

impl From<std::io::Error> for Error {
    fn from(e: std::io::Error) -> (r: Self) {
        Error::Io(e)
    }
}

impl vstd::std_specs::convert::FromSpecImpl<std::io::Error> for Error {
    open spec fn obeys_from_spec() -> bool {
        true
    }

    open spec fn from_spec(e: std::io::Error) -> Error {
        Error::Io(e)
    }
}

impl From<std::io::Error> for TransportError {
    fn from(e: std::io::Error) -> (r: Self) {
        TransportError::Io(e)
    }
}

impl vstd::std_specs::convert::FromSpecImpl<std::io::Error> for TransportError {
    open spec fn obeys_from_spec() -> bool {
        true
    }

    open spec fn from_spec(e: std::io::Error) -> TransportError {
        TransportError::Io(e)
    }
}

} // verus!
