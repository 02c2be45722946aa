//! SIP registration: REGISTER requests with digest authentication and periodic refresh.
use crate::error::{Error, SipError};
use crate::sip::auth::{
    answers, auth_error_text, header_parts, join_comma, DigestChallenge, DigestCredentials, DigestResponse,
};
use crate::sip::message::{
    empty_request_builder, generate_branch, generate_call_id, generate_tag, header_value, is_invalid_header,
    request_built, with_contact, with_from, with_to, with_uri, Method, RequestBuilderView, RequestView,
    SipRequest, SipResponse,
};
use crate::text::{push_dec, push_str, string_of};
use vstd::prelude::*;

verus! {

/// Registration errors.
#[derive(Debug)]
pub enum RegistrationError {
    /// Failed to parse authentication challenge.
    AuthError(String),
    /// Failed to build request.
    RequestError(String),
    /// Registration failed with error response.
    Failed(u16, String),
    /// Registration timeout.
    Timeout,
}

impl RegistrationError {
    /// The error's message.
    pub fn to_text(&self) -> (s: String)
        ensures
            s@ == match self {
                RegistrationError::AuthError(m) => "authentication error: "@ + m@,
                RegistrationError::RequestError(m) => "request error: "@ + m@,
                RegistrationError::Failed(c, r) => "registration failed: "@ + crate::text::dec(*c as nat) + seq![' ']
                    + r@,
                RegistrationError::Timeout => "registration timeout"@,
            },
    {
        let mut v: Vec<char> = Vec::new();
        match self {
            RegistrationError::AuthError(m) => {
                push_str(&mut v, "authentication error: ");
                push_str(&mut v, m.as_str());
            },
            RegistrationError::RequestError(m) => {
                push_str(&mut v, "request error: ");
                push_str(&mut v, m.as_str());
            },
            RegistrationError::Failed(c, r) => {
                push_str(&mut v, "registration failed: ");
                push_dec(&mut v, *c as u64);
                v.push(' ');
                push_str(&mut v, r.as_str());
            },
            RegistrationError::Timeout => push_str(&mut v, "registration timeout"),
        }
        string_of(v.as_slice())
    }
}

/// Registration state.
#[derive(Debug, Clone, Copy, PartialEq, Eq, Structural)]
pub enum RegistrationState {
    /// Not registered.
    Unregistered,
    /// Registration in progress (waiting for response).
    Registering,
    /// Successfully registered.
    Registered,
    /// Refreshing registration.
    Refreshing,
    /// Unregistration in progress.
    Unregistering,
    /// Registration failed.
    Failed,
}

/// Configuration for registration.
#[derive(Debug, Clone)]
pub struct RegistrationConfig {
    /// SIP registrar URI (e.g., "sip:registrar.example.com").
    pub registrar: String,
    /// User AoR (Address of Record, e.g., "sip:alice@example.com").
    pub aor: String,
    /// Contact URI (where to receive calls).
    pub contact: String,
    /// Username for authentication.
    pub username: String,
    /// Password for authentication.
    pub password: String,
    /// Registration expiry in seconds.
    pub expires: u32,
    /// Local SIP address (IP:port).
    pub local_addr: String,
    /// Local SIP port.
    pub local_port: u16,
    /// Transport protocol.
    pub transport: String,
}

impl Default for RegistrationConfig {
    fn default() -> (c: Self)
        ensures
            c.registrar@ == Seq::<char>::empty(),
            c.aor@ == Seq::<char>::empty(),
            c.contact@ == Seq::<char>::empty(),
            c.username@ == Seq::<char>::empty(),
            c.password@ == Seq::<char>::empty(),
            c.expires == 3600,
            c.local_addr@ == "127.0.0.1"@,
            c.local_port == 5060,
            c.transport@ == "UDP"@,
    {
        RegistrationConfig {
            registrar: String::new(),
            aor: String::new(),
            contact: String::new(),
            username: String::new(),
            password: String::new(),
            expires: 3600,
            local_addr: "127.0.0.1".to_string(),
            local_port: 5060,
            transport: "UDP".to_string(),
        }
    }
}

/// The builder of a REGISTER request for the configuration `c`: the registrar as the request
/// URI, the AoR in From (with `from_tag`) and To, the given Call-ID, CSeq, branch and Expires,
/// the contact, and the optional authorization values.
pub open spec fn register_builder(
    c: RegistrationConfig,
    from_tag: Seq<char>,
    call_id: Seq<char>,
    cseq: u32,
    branch: Seq<char>,
    expires: u32,
    auth: Option<Seq<char>>,
    proxy_auth: Option<Seq<char>>,
) -> RequestBuilderView {
    let b1 = RequestBuilderView { method: Some(Method::Register), ..empty_request_builder() };
    let b2 = with_uri(b1, c.registrar@);
    let b3 = RequestBuilderView {
        via_host: Some(c.local_addr@),
        via_port: Some(c.local_port),
        via_transport: Some(c.transport@),
        via_branch: Some(branch),
        ..b2
    };
    let b4 = with_to(with_from(b3, c.aor@, from_tag), c.aor@);
    let b5 = with_contact(RequestBuilderView { call_id: Some(call_id), cseq: Some(cseq), ..b4 }, c.contact@);
    let b6 = RequestBuilderView { expires: Some(expires), ..b5 };
    let b7 = match auth {
        Some(a) => RequestBuilderView { authorization: Some(a), ..b6 },
        None => b6,
    };
    match proxy_auth {
        Some(a) => RequestBuilderView { proxy_authorization: Some(a), ..b7 },
        None => b7,
    }
}

/// What making a REGISTER request gives: the request, or the `RequestError` text of the
/// builder's error.
pub open spec fn register_outcome(b: RequestBuilderView) -> Result<RequestView, Seq<char>> {
    match request_built(b) {
        Ok(q) => Ok(q),
        Err(t) => Err("SIP error: Invalid header: "@ + t),
    }
}

/// Whether `r` is what `register_outcome` describes.
pub open spec fn is_outcome(r: Result<SipRequest, RegistrationError>, o: Result<RequestView, Seq<char>>) -> bool {
    match o {
        Ok(q) => r matches Ok(x) && x@ == q,
        Err(t) => r matches Err(RegistrationError::RequestError(m)) && m@ == t,
    }
}

/// The Authorization value of a digest response.
pub open spec fn auth_value(d: DigestResponse) -> Seq<char> {
    join_comma(header_parts(d))
}

/// The credentials of a configuration.
pub open spec fn credentials_of(c: RegistrationConfig) -> DigestCredentials {
    DigestCredentials { username: c.username, password: c.password }
}

/// SIP registration manager: one registration with a registrar, with authentication
/// challenges and periodic refresh.
#[derive(Debug)]
pub struct RegistrationManager {
    /// Configuration.
    pub config: RegistrationConfig,
    /// Current state.
    pub state: RegistrationState,
    /// Current CSeq number.
    pub cseq: u32,
    /// Call-ID for this registration.
    pub call_id: String,
    /// From tag.
    pub from_tag: String,
    /// Registration expiry time, in microseconds of the wall clock.
    pub expires_at: Option<u64>,
    /// Last challenge (for retry with auth).
    pub last_challenge: Option<DigestChallenge>,
    /// Nonce count for auth.
    pub nc: u32,
}

/// Turns a builder error into a registration error.
fn request_error(e: Error) -> (r: RegistrationError)
    ensures
        forall|t: Seq<char>| is_invalid_header(e, t) ==> (r matches RegistrationError::RequestError(m) && m@
            == "SIP error: Invalid header: "@ + t),
{
    let t = e.to_text();
    proof {
        reveal_strlit("SIP error: ");
        reveal_strlit("Invalid header: ");
        reveal_strlit("SIP error: Invalid header: ");
        assert forall|x: Seq<char>| is_invalid_header(e, x) implies t@ == "SIP error: Invalid header: "@ + x by {
            assert("SIP error: "@ + ("Invalid header: "@ + x) =~= "SIP error: Invalid header: "@ + x);
        }
    }
    RegistrationError::RequestError(t)
}

impl RegistrationManager {
    /// Create a new registration manager, with a fresh Call-ID and From tag.
    pub fn new(config: RegistrationConfig) -> (m: Self)
        ensures
            m.config == config,
            m.state == RegistrationState::Unregistered,
            m.cseq == 1,
            m.expires_at is None,
            m.last_challenge is None,
            m.nc == 0,
            m.call_id@.skip(32) == seq!['@'] + config.local_addr@,
    {
        let call_id = generate_call_id(config.local_addr.as_str());
        let from_tag = generate_tag();
        RegistrationManager {
            config,
            state: RegistrationState::Unregistered,
            cseq: 1,
            call_id,
            from_tag,
            expires_at: None,
            last_challenge: None,
            nc: 0,
        }
    }

    /// Get the current registration state.
    pub fn state(&self) -> (s: RegistrationState)
        ensures
            s == self.state,
    {
        self.state
    }

    /// Check if currently registered.
    pub fn is_registered(&self) -> (b: bool)
        ensures
            b == (self.state == RegistrationState::Registered),
    {
        self.state == RegistrationState::Registered
    }

    /// Whether the registration needs refreshing at `now_us`: once a fifth of the expiry time
    /// is all that is left before it expires.
    pub fn needs_refresh_at(&self, now_us: u64) -> (b: bool)
        ensures
            b == match self.expires_at {
                Some(at) => now_us + (self.config.expires / 5) * 1_000_000 >= at,
                None => false,
            },
    {
        match self.expires_at {
            Some(at) => {
                let margin: u64 = (self.config.expires / 5) as u64 * 1_000_000;
                now_us as u128 + margin as u128 >= at as u128
            },
            None => false,
        }
    }

    /// Check if registration needs refresh now.
    pub fn needs_refresh(&self) -> (b: bool)
        ensures
            self.expires_at is None ==> !b,
    {
        self.needs_refresh_at(crate::time::unix_micros_now())
    }

    /// The REGISTER request with the given branch, CSeq and Expires, and optional
    /// authorization values.
    fn register_request(
        &self,
        branch: &str,
        cseq: u32,
        expires: u32,
        auth: Option<&str>,
        proxy_auth: Option<&str>,
    ) -> (r: Result<SipRequest, RegistrationError>)
        ensures
            is_outcome(
                r,
                register_outcome(
                    register_builder(
                        self.config,
                        self.from_tag@,
                        self.call_id@,
                        cseq,
                        branch@,
                        expires,
                        match auth {
                            Some(a) => Some(a@),
                            None => None,
                        },
                        match proxy_auth {
                            Some(a) => Some(a@),
                            None => None,
                        },
                    ),
                ),
            ),
    {
        let c = &self.config;
        let mut b = SipRequest::builder().method(Method::Register).uri(c.registrar.as_str()).via(
            c.local_addr.as_str(),
            c.local_port,
            c.transport.as_str(),
            branch,
        ).from(c.aor.as_str(), self.from_tag.as_str()).to(c.aor.as_str()).call_id(self.call_id.as_str()).cseq(
            cseq,
        ).contact(c.contact.as_str()).expires(expires);
        match auth {
            Some(a) => b = b.authorization(a),
            None => {},
        }
        match proxy_auth {
            Some(a) => b = b.proxy_authorization(a),
            None => {},
        }
        match b.build() {
            Ok(q) => Ok(q),
            Err(e) => Err(request_error(e)),
        }
    }
}


/// A copy of an optional string.
fn copy_opt(o: &Option<String>) -> (r: Option<String>)
    ensures
        crate::sip::auth::opt_view(r) == crate::sip::auth::opt_view(*o),
{
    match o {
        Some(x) => Some(x.clone()),
        None => None,
    }
}

/// A copy of a challenge.
fn copy_challenge(c: &DigestChallenge) -> (d: DigestChallenge)
    ensures
        d@ == c@,
{
    DigestChallenge {
        realm: c.realm.clone(),
        nonce: c.nonce.clone(),
        opaque: copy_opt(&c.opaque),
        stale: c.stale,
        algorithm: c.algorithm,
        qop: c.qop,
        domain: copy_opt(&c.domain),
    }
}

/// The Authorization value answering `challenge` with the configuration's credentials.
fn answer(config: &RegistrationConfig, challenge: &DigestChallenge) -> (r: (String, Ghost<DigestResponse>))
    ensures
        answers(r.1@, *challenge, credentials_of(*config), "REGISTER"@, config.registrar@, None),
        r.0@ == auth_value(r.1@),
{
    let credentials = DigestCredentials::new(config.username.as_str(), config.password.as_str());
    let response = DigestResponse::from_challenge(challenge, &credentials, "REGISTER", config.registrar.as_str(), None);
    match response {
        Ok(d) => {
            let v = d.to_header_value();
            (v, Ghost(d))
        },
        Err(_) => {
            assert(false);
            (String::new(), Ghost(arbitrary()))
        },
    }
}

impl RegistrationManager {
    /// Create a REGISTER request to initiate or refresh registration: the state becomes
    /// `Refreshing` when registered and `Registering` otherwise, and the CSeq goes up by one.
    pub fn create_register(&mut self) -> (r: Result<SipRequest, RegistrationError>)
        requires
            old(self).cseq < u32::MAX,
        ensures
            *final(self) == (RegistrationManager {
                state: if old(self).state == RegistrationState::Registered {
                    RegistrationState::Refreshing
                } else {
                    RegistrationState::Registering
                },
                cseq: (old(self).cseq + 1) as u32,
                ..*old(self)
            }),
            exists|br: Seq<char>| br.len() == 39 && br.take(7) == "z9hG4bK"@ && #[trigger] is_outcome(
                r,
                register_outcome(
                    register_builder(
                        old(self).config,
                        old(self).from_tag@,
                        old(self).call_id@,
                        final(self).cseq,
                        br,
                        old(self).config.expires,
                        None,
                        None,
                    ),
                ),
            ),
    {
        self.state = if self.state == RegistrationState::Registered {
            RegistrationState::Refreshing
        } else {
            RegistrationState::Registering
        };
        self.cseq = self.cseq + 1;
        let branch = generate_branch();
        let r = self.register_request(branch.as_str(), self.cseq, self.config.expires, None, None);
        r
    }

    /// Create a REGISTER request that answers `challenge`: the CSeq and the nonce count go up
    /// by one.
    pub fn create_register_with_auth(&mut self, challenge: &DigestChallenge) -> (r: Result<
        SipRequest,
        RegistrationError,
    >)
        requires
            old(self).cseq < u32::MAX,
            old(self).nc < u32::MAX,
        ensures
            *final(self) == (RegistrationManager {
                cseq: (old(self).cseq + 1) as u32,
                nc: (old(self).nc + 1) as u32,
                ..*old(self)
            }),
            exists|br: Seq<char>, d: DigestResponse|
                #![trigger answers(d, *challenge, credentials_of(old(self).config), "REGISTER"@, old(self).config.registrar@, None), br.take(7)]
                br.len() == 39 && br.take(7) == "z9hG4bK"@ && answers(
                    d,
                    *challenge,
                    credentials_of(old(self).config),
                    "REGISTER"@,
                    old(self).config.registrar@,
                    None,
                ) && is_outcome(
                    r,
                    register_outcome(
                        register_builder(
                            old(self).config,
                            old(self).from_tag@,
                            old(self).call_id@,
                            final(self).cseq,
                            br,
                            old(self).config.expires,
                            Some(auth_value(d)),
                            None,
                        ),
                    ),
                ),
    {
        self.cseq = self.cseq + 1;
        self.nc = self.nc + 1;
        let branch = generate_branch();
        let (auth, Ghost(d)) = answer(&self.config, challenge);
        let r = self.register_request(branch.as_str(), self.cseq, self.config.expires, Some(auth.as_str()), None);
        assert(answers(d, *challenge, credentials_of(old(self).config), "REGISTER"@, old(self).config.registrar@, None)
            && branch@.take(7) == "z9hG4bK"@);
        r
    }

    /// Create an unREGISTER request (Expires 0), answering the last challenge if there was one:
    /// the state becomes `Unregistering`, the CSeq goes up by one, and so does the nonce count
    /// when a challenge is answered.
    pub fn create_unregister(&mut self) -> (r: Result<SipRequest, RegistrationError>)
        requires
            old(self).cseq < u32::MAX,
            old(self).last_challenge is Some ==> old(self).nc < u32::MAX,
        ensures
            *final(self) == (RegistrationManager {
                state: RegistrationState::Unregistering,
                cseq: (old(self).cseq + 1) as u32,
                nc: if old(self).last_challenge is Some { (old(self).nc + 1) as u32 } else { old(self).nc },
                ..*old(self)
            }),
            old(self).last_challenge is None ==> exists|br: Seq<char>| br.len() == 39 && br.take(7) == "z9hG4bK"@
                && #[trigger] is_outcome(
                r,
                register_outcome(
                    register_builder(
                        old(self).config,
                        old(self).from_tag@,
                        old(self).call_id@,
                        final(self).cseq,
                        br,
                        0,
                        None,
                        None,
                    ),
                ),
            ),
            old(self).last_challenge matches Some(ch) ==> exists|br: Seq<char>, d: DigestResponse|
                #![trigger answers(d, ch, credentials_of(old(self).config), "REGISTER"@, old(self).config.registrar@, None), br.take(7)]
                br.len() == 39 && br.take(7) == "z9hG4bK"@ && answers(
                    d,
                    ch,
                    credentials_of(old(self).config),
                    "REGISTER"@,
                    old(self).config.registrar@,
                    None,
                ) && is_outcome(
                    r,
                    register_outcome(
                        register_builder(
                            old(self).config,
                            old(self).from_tag@,
                            old(self).call_id@,
                            final(self).cseq,
                            br,
                            0,
                            Some(auth_value(d)),
                            None,
                        ),
                    ),
                ),
    {
        self.state = RegistrationState::Unregistering;
        self.cseq = self.cseq + 1;
        let branch = generate_branch();
        match &self.last_challenge {
            Some(challenge) => {
                let (auth, Ghost(d)) = answer(&self.config, challenge);
                let r = self.register_request(branch.as_str(), self.cseq, 0, Some(auth.as_str()), None);
                self.nc = self.nc + 1;
                assert(answers(d, old(self).last_challenge->0, credentials_of(old(self).config), "REGISTER"@, old(self).config.registrar@, None)
                    && branch@.take(7) == "z9hG4bK"@);
                r
            },
            None => self.register_request(branch.as_str(), self.cseq, 0, None, None),
        }
    }
}


/// The `AuthError` text of a challenge that cannot be read.
pub open spec fn challenge_error_text(v: Option<Seq<char>>, missing: Seq<char>) -> Option<Seq<char>> {
    match v {
        None => Some(missing),
        Some(h) => match crate::sip::auth::challenge_decode(h) {
            Err(e) => Some(auth_error_text(e)),
            Ok(_) => None,
        },
    }
}

/// Reads a challenge header value into a challenge, or the registration error.
fn read_challenge(v: Option<String>, missing: &str) -> (r: Result<DigestChallenge, RegistrationError>)
    ensures
        match challenge_error_text(crate::sip::auth::opt_view(v), missing@) {
            Some(t) => r matches Err(RegistrationError::AuthError(m)) && m@ == t,
            None => r matches Ok(c) && v matches Some(h) && crate::sip::auth::challenge_decode(h@) == Ok::<
                crate::sip::auth::ChallengeView,
                crate::sip::auth::AuthErrorView,
            >(c@),
        },
{
    let h = match v {
        Some(h) => h,
        None => return Err(RegistrationError::AuthError(missing.to_string())),
    };
    match DigestChallenge::parse(h.as_str()) {
        Ok(c) => Ok(c),
        Err(e) => Err(RegistrationError::AuthError(e.to_text())),
    }
}

/// What handling the response `p` at the wall-clock time `now_us` does, with `m0` the manager
/// before and `m1` after, and `r` the result: a 200 completes the registration (or the
/// unregistration); a 401 or 407 is answered with the REGISTER that carries credentials for its
/// challenge, or with the error that reading the challenge gives; another error response
/// fails the registration with the response's code and reason; anything else is ignored.
pub open spec fn response_handled(
    m0: RegistrationManager,
    m1: RegistrationManager,
    p: crate::sip::message::ResponseView,
    now_us: u64,
    r: Result<Option<SipRequest>, RegistrationError>,
) -> bool {
    &&& p.status_code == 200 ==> (r matches Ok(None) && m1 == (RegistrationManager {
        state: if m0.state == RegistrationState::Unregistering {
            RegistrationState::Unregistered
        } else {
            RegistrationState::Registered
        },
        expires_at: if m0.state == RegistrationState::Unregistering {
            None
        } else {
            Some((now_us + m0.config.expires * 1_000_000) as u64)
        },
        ..m0
    }))
    &&& p.status_code == 401 ==> match challenge_error_text(
        header_value(p.headers, "WWW-Authenticate"@),
        "401 without WWW-Authenticate"@,
    ) {
        Some(t) => r matches Err(RegistrationError::AuthError(m)) && m@ == t && m1 == m0,
        None => m1.last_challenge matches Some(c) && crate::sip::auth::challenge_decode(
            header_value(p.headers, "WWW-Authenticate"@)->0,
        ) == Ok::<crate::sip::auth::ChallengeView, crate::sip::auth::AuthErrorView>(c@) && m1
            == (RegistrationManager {
            cseq: (m0.cseq + 1) as u32,
            nc: (m0.nc + 1) as u32,
            last_challenge: m1.last_challenge,
            ..m0
        }) && exists|br: Seq<char>, d: DigestResponse|
            #![trigger answers(d, c, credentials_of(m0.config), "REGISTER"@, m0.config.registrar@, None), br.take(7)]
            br.len() == 39 && br.take(7) == "z9hG4bK"@ && answers(
                d,
                c,
                credentials_of(m0.config),
                "REGISTER"@,
                m0.config.registrar@,
                None,
            ) && is_retry(
                r,
                register_outcome(
                    register_builder(
                        m0.config,
                        m0.from_tag@,
                        m0.call_id@,
                        m1.cseq,
                        br,
                        m0.config.expires,
                        Some(auth_value(d)),
                        None,
                    ),
                ),
            ),
    }
    &&& p.status_code == 407 ==> match challenge_error_text(
        header_value(p.headers, "Proxy-Authenticate"@),
        "407 without Proxy-Authenticate"@,
    ) {
        Some(t) => r matches Err(RegistrationError::AuthError(m)) && m@ == t && m1 == m0,
        None => m1.last_challenge matches Some(c) && crate::sip::auth::challenge_decode(
            header_value(p.headers, "Proxy-Authenticate"@)->0,
        ) == Ok::<crate::sip::auth::ChallengeView, crate::sip::auth::AuthErrorView>(c@) && m1
            == (RegistrationManager {
            cseq: (m0.cseq + 1) as u32,
            nc: (m0.nc + 1) as u32,
            last_challenge: m1.last_challenge,
            ..m0
        }) && exists|br: Seq<char>, d: DigestResponse|
            #![trigger answers(d, c, credentials_of(m0.config), "REGISTER"@, m0.config.registrar@, None), br.take(7)]
            br.len() == 39 && br.take(7) == "z9hG4bK"@ && answers(
                d,
                c,
                credentials_of(m0.config),
                "REGISTER"@,
                m0.config.registrar@,
                None,
            ) && is_retry(
                r,
                register_outcome(
                    register_builder(
                        m0.config,
                        m0.from_tag@,
                        m0.call_id@,
                        m1.cseq,
                        br,
                        m0.config.expires,
                        None,
                        Some(auth_value(d)),
                    ),
                ),
            ),
    }
    &&& p.status_code >= 400 && p.status_code != 401 && p.status_code != 407 ==> (r matches Err(
        RegistrationError::Failed(code, reason),
    ) && code == p.status_code && reason@ == crate::sip::message::reason_of(p.status_text)
        && m1 == (RegistrationManager { state: RegistrationState::Failed, ..m0 }))
    &&& p.status_code != 200 && p.status_code < 400 ==> (r matches Ok(None) && m1
        == m0)
}

impl RegistrationManager {
    /// Handle a response to our REGISTER request at the wall-clock time `now_us`.
    ///
    /// A 200 completes the registration (or the unregistration); a 401 or 407 is answered with
    /// a new request carrying credentials for its challenge; another error response fails the
    /// registration; anything else is ignored.
    #[verifier::rlimit(80)]
    #[verifier::spinoff_prover]
    pub fn handle_response_at(&mut self, response: &SipResponse, now_us: u64) -> (r: Result<
        Option<SipRequest>,
        RegistrationError,
    >)
        requires
            old(self).cseq < u32::MAX,
            old(self).nc < u32::MAX,
            now_us + old(self).config.expires * 1_000_000 <= u64::MAX,
        ensures
            response_handled(*old(self), *final(self), response@, now_us, r),
    {
        let status = response.status_code();
        if status == 200 {
            if self.state == RegistrationState::Unregistering {
                self.state = RegistrationState::Unregistered;
                self.expires_at = None;
            } else {
                self.state = RegistrationState::Registered;
                self.expires_at = Some(now_us + self.config.expires as u64 * 1_000_000);
            }
            Ok(None)
        } else if status == 401 {
            let challenge = match read_challenge(response.www_authenticate(), "401 without WWW-Authenticate") {
                Ok(c) => c,
                Err(e) => return Err(e),
            };
            self.last_challenge = Some(copy_challenge(&challenge));
            self.cseq = self.cseq + 1;
            self.nc = self.nc + 1;
            let branch = generate_branch();
            let (auth, Ghost(d)) = answer(&self.config, &challenge);
            let r = self.register_request(branch.as_str(), self.cseq, self.config.expires, Some(auth.as_str()), None);
            assert(answers(d, self.last_challenge->0, credentials_of(old(self).config), "REGISTER"@, old(self).config.registrar@, None)
                && branch@.take(7) == "z9hG4bK"@);
            match r {
                Ok(q) => Ok(Some(q)),
                Err(e) => Err(e),
            }
        } else if status == 407 {
            let challenge = match read_challenge(response.proxy_authenticate(), "407 without Proxy-Authenticate") {
                Ok(c) => c,
                Err(e) => return Err(e),
            };
            self.last_challenge = Some(copy_challenge(&challenge));
            self.cseq = self.cseq + 1;
            self.nc = self.nc + 1;
            let branch = generate_branch();
            let (auth, Ghost(d)) = answer(&self.config, &challenge);
            let r = self.register_request(branch.as_str(), self.cseq, self.config.expires, None, Some(auth.as_str()));
            assert(answers(d, self.last_challenge->0, credentials_of(old(self).config), "REGISTER"@, old(self).config.registrar@, None)
                && branch@.take(7) == "z9hG4bK"@);
            match r {
                Ok(q) => Ok(Some(q)),
                Err(e) => Err(e),
            }
        } else if status >= 400 {
            self.state = RegistrationState::Failed;
            Err(RegistrationError::Failed(status, response.reason()))
        } else {
            Ok(None)
        }
    }

    /// Handle a response to our REGISTER request now (see `handle_response_at`).
    pub fn handle_response(&mut self, response: &SipResponse) -> (r: Result<Option<SipRequest>, RegistrationError>)
        requires
            old(self).cseq < u32::MAX,
            old(self).nc < u32::MAX,
        ensures
            exists|now_us: u64|
                now_us <= u64::MAX / 2 && #[trigger] response_handled(*old(self), *final(self), response@, now_us, r),
    {
        let now = crate::time::unix_micros_now();
        let now = if now > u64::MAX / 2 { u64::MAX / 2 } else { now };
        self.handle_response_at(response, now)
    }

    /// Reset the registration state (e.g., after connection loss).
    pub fn reset(&mut self)
        ensures
            *final(self) == (RegistrationManager {
                state: RegistrationState::Unregistered,
                expires_at: None,
                last_challenge: None,
                nc: 0,
                ..*old(self)
            }),
    {
        self.state = RegistrationState::Unregistered;
        self.expires_at = None;
        self.last_challenge = None;
        self.nc = 0;
    }

    /// Get the registration configuration.
    pub fn config(&self) -> (c: &RegistrationConfig)
        ensures
            *c == self.config,
    {
        &self.config
    }

    /// Get the Call-ID for this registration.
    pub fn call_id(&self) -> (s: &str)
        ensures
            s@ == self.call_id@,
    {
        self.call_id.as_str()
    }
}

/// Whether `r` is the retry that `register_outcome` describes.
pub open spec fn is_retry(r: Result<Option<SipRequest>, RegistrationError>, o: Result<RequestView, Seq<char>>) -> bool {
    match o {
        Ok(q) => r matches Ok(Some(x)) && x@ == q,
        Err(t) => r matches Err(RegistrationError::RequestError(m)) && m@ == t,
    }
}

} // verus!
