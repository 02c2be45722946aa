//! SIP messages: requests and responses as header lists, their builders, their wire text,
//! and the typed readings of single headers that the `rsip` crate performs.
use crate::error::{Error, SipError};
use crate::ice::stun::utf8_lossy;
use crate::text::{chars_of, dec, push_dec, push_str, str_eq, string_of};
use rsip::headers::{ToTypedHeader, UntypedHeader};
use vstd::prelude::*;

verus! {

broadcast use vstd::string::group_string_axioms;

/// SIP method.
#[derive(Debug, Clone, Copy, PartialEq, Eq, Hash, Structural)]
pub enum Method {
    Invite,
    Ack,
    Bye,
    Cancel,
    Register,
    Options,
    Prack,
    Subscribe,
    Notify,
    Publish,
    Info,
    Refer,
    Message,
    Update,
    Other,
}

/// The name of a method as it is displayed.
pub open spec fn method_name(m: Method) -> Seq<char> {
    match m {
        Method::Invite => "INVITE"@,
        Method::Ack => "ACK"@,
        Method::Bye => "BYE"@,
        Method::Cancel => "CANCEL"@,
        Method::Register => "REGISTER"@,
        Method::Options => "OPTIONS"@,
        Method::Prack => "PRACK"@,
        Method::Subscribe => "SUBSCRIBE"@,
        Method::Notify => "NOTIFY"@,
        Method::Publish => "PUBLISH"@,
        Method::Info => "INFO"@,
        Method::Refer => "REFER"@,
        Method::Message => "MESSAGE"@,
        Method::Update => "UPDATE"@,
        Method::Other => "OTHER"@,
    }
}

/// The method that goes on the wire for `m`: a request can carry only the fourteen methods
/// of SIP, and `Other` is sent as `INVITE`.
pub open spec fn wire_method(m: Method) -> Method {
    if m == Method::Other { Method::Invite } else { m }
}

/// The method named by `s` among the fourteen of SIP, or `Other`.
pub open spec fn method_of_name(s: Seq<char>) -> Method {
    if s == "INVITE"@ { Method::Invite }
    else if s == "ACK"@ { Method::Ack }
    else if s == "BYE"@ { Method::Bye }
    else if s == "CANCEL"@ { Method::Cancel }
    else if s == "REGISTER"@ { Method::Register }
    else if s == "OPTIONS"@ { Method::Options }
    else if s == "PRACK"@ { Method::Prack }
    else if s == "SUBSCRIBE"@ { Method::Subscribe }
    else if s == "NOTIFY"@ { Method::Notify }
    else if s == "PUBLISH"@ { Method::Publish }
    else if s == "INFO"@ { Method::Info }
    else if s == "REFER"@ { Method::Refer }
    else if s == "MESSAGE"@ { Method::Message }
    else if s == "UPDATE"@ { Method::Update }
    else { Method::Other }
}

impl Method {
    /// The method's name, as it is displayed.
    pub fn as_str(&self) -> (s: &'static str)
        ensures
            s@ == method_name(*self),
    {
        match self {
            Method::Invite => "INVITE",
            Method::Ack => "ACK",
            Method::Bye => "BYE",
            Method::Cancel => "CANCEL",
            Method::Register => "REGISTER",
            Method::Options => "OPTIONS",
            Method::Prack => "PRACK",
            Method::Subscribe => "SUBSCRIBE",
            Method::Notify => "NOTIFY",
            Method::Publish => "PUBLISH",
            Method::Info => "INFO",
            Method::Refer => "REFER",
            Method::Message => "MESSAGE",
            Method::Update => "UPDATE",
            Method::Other => "OTHER",
        }
    }

    /// The method named by `s`.
    pub fn from_name(s: &str) -> (m: Method)
        ensures
            m == method_of_name(s@),
    {
        if str_eq(s, "INVITE") { Method::Invite }
        else if str_eq(s, "ACK") { Method::Ack }
        else if str_eq(s, "BYE") { Method::Bye }
        else if str_eq(s, "CANCEL") { Method::Cancel }
        else if str_eq(s, "REGISTER") { Method::Register }
        else if str_eq(s, "OPTIONS") { Method::Options }
        else if str_eq(s, "PRACK") { Method::Prack }
        else if str_eq(s, "SUBSCRIBE") { Method::Subscribe }
        else if str_eq(s, "NOTIFY") { Method::Notify }
        else if str_eq(s, "PUBLISH") { Method::Publish }
        else if str_eq(s, "INFO") { Method::Info }
        else if str_eq(s, "REFER") { Method::Refer }
        else if str_eq(s, "MESSAGE") { Method::Message }
        else if str_eq(s, "UPDATE") { Method::Update }
        else { Method::Other }
    }

    /// Check if this method creates a dialog (INVITE or SUBSCRIBE).
    pub fn creates_dialog(&self) -> (b: bool)
        ensures
            b == (*self == Method::Invite || *self == Method::Subscribe),
    {
        match self {
            Method::Invite | Method::Subscribe => true,
            _ => false,
        }
    }

    /// Check if this is an INVITE method.
    pub fn is_invite(&self) -> (b: bool)
        ensures
            b == (*self == Method::Invite),
    {
        match self {
            Method::Invite => true,
            _ => false,
        }
    }
}

/// One header: its name, as `rsip` displays it, and its value.
#[derive(Debug)]
pub struct SipHeader {
    /// Header name (such as `Via` or `Call-ID`).
    pub name: String,
    /// Header value.
    pub value: String,
}

impl Clone for SipHeader {
    fn clone(&self) -> (r: Self)
        ensures
            r == *self,
    {
        SipHeader { name: self.name.clone(), value: self.value.clone() }
    }
}

/// A header list as plain values.
pub open spec fn headers_view(hs: Seq<SipHeader>) -> Seq<(Seq<char>, Seq<char>)> {
    Seq::new(hs.len(), |i: int| (hs[i].name@, hs[i].value@))
}

/// The position of the first header named `name` at or after `i`.
pub open spec fn find_header_from(hs: Seq<(Seq<char>, Seq<char>)>, name: Seq<char>, i: int) -> Option<int>
    decreases hs.len() - i,
{
    if i < 0 || i >= hs.len() {
        None
    } else if hs[i].0 == name {
        Some(i)
    } else {
        find_header_from(hs, name, i + 1)
    }
}

/// The value of the first header named `name`.
pub open spec fn header_value(hs: Seq<(Seq<char>, Seq<char>)>, name: Seq<char>) -> Option<Seq<char>> {
    match find_header_from(hs, name, 0) {
        Some(i) => Some(hs[i].1),
        None => None,
    }
}

/// The display text of one header: `Name: value`.
pub open spec fn header_text(h: (Seq<char>, Seq<char>)) -> Seq<char> {
    h.0 + ": "@ + h.1
}

/// The display texts of the headers named `name`, in order.
pub open spec fn header_texts(hs: Seq<(Seq<char>, Seq<char>)>, name: Seq<char>) -> Seq<Seq<char>>
    decreases hs.len(),
{
    if hs.len() == 0 {
        Seq::empty()
    } else {
        let rest = header_texts(hs.drop_last(), name);
        if hs.last().0 == name { rest.push(header_text(hs.last())) } else { rest }
    }
}

/// The first header of `hs` named `name`, as a position.
fn find_header(hs: &Vec<SipHeader>, name: &str) -> (r: Option<usize>)
    ensures
        r matches Some(k) ==> k < hs@.len() && find_header_from(headers_view(hs@), name@, 0) == Some(k as int),
        r is None ==> find_header_from(headers_view(hs@), name@, 0) is None,
{
    let ghost v = headers_view(hs@);
    let mut i: usize = 0;
    while i < hs.len()
        invariant
            i <= hs.len(),
            v == headers_view(hs@),
            find_header_from(v, name@, 0) == find_header_from(v, name@, i as int),
        decreases hs.len() - i,
    {
        if str_eq(hs[i].name.as_str(), name) {
            return Some(i);
        }
        i += 1;
    }
    None
}

/// The value of the first header named `name`.
fn header_value_of<'a>(hs: &'a Vec<SipHeader>, name: &str) -> (r: Option<&'a String>)
    ensures
        match header_value(headers_view(hs@), name@) {
            Some(v) => r matches Some(s) && s@ == v,
            None => r is None,
        },
{
    match find_header(hs, name) {
        Some(i) => {
            assert(headers_view(hs@)[i as int].1 == hs@[i as int].value@);
            Some(&hs[i].value)
        },
        None => None,
    }
}

} // verus!

verus! {

/// The text that `rsip` displays for the URI that it reads from `s`, or the text of its error.
pub uninterp spec fn sip_uri_text(s: Seq<char>) -> Result<Seq<char>, Seq<char>>;

/// `rsip::Uri::try_from` on `s`: the URI as `rsip` displays it, or the error's text.
#[verifier::external_body]
fn parse_uri(s: &str) -> (r: Result<String, String>)
    ensures
        match r {
            Ok(t) => sip_uri_text(s@) == Ok::<Seq<char>, Seq<char>>(t@),
            Err(e) => sip_uri_text(s@) == Err::<Seq<char>, Seq<char>>(e@),
        },
{
    match rsip::Uri::try_from(s) {
        Ok(u) => Ok(u.to_string()),
        Err(e) => Err(e.to_string()),
    }
}

/// What `rsip` reads from a `From` header value: the URI's text and the tag, if any; or the
/// text of its error.
pub uninterp spec fn sip_from_header(v: Seq<char>) -> Result<(Seq<char>, Option<Seq<char>>), Seq<char>>;

/// `rsip::headers::From::typed` on the value `v`: the URI's display text and the `tag`
/// parameter, or the error's text.
#[verifier::external_body]
fn typed_from(v: &str) -> (r: Result<(String, Option<String>), String>)
    ensures
        match r {
            Ok((u, t)) => sip_from_header(v@) == Ok::<(Seq<char>, Option<Seq<char>>), Seq<char>>(
                (u@, match t { Some(x) => Some(x@), None => None })),
            Err(e) => sip_from_header(v@) == Err::<(Seq<char>, Option<Seq<char>>), Seq<char>>(e@),
        },
{
    match rsip::headers::From::new(v).typed() {
        Ok(f) => Ok((f.uri.to_string(), f.tag().map(|t| t.to_string()))),
        Err(e) => Err(e.to_string()),
    }
}

/// What `rsip` reads from a `To` header value: the URI's text and the tag, if any; or the
/// text of its error.
pub uninterp spec fn sip_to_header(v: Seq<char>) -> Result<(Seq<char>, Option<Seq<char>>), Seq<char>>;

/// `rsip::headers::To::typed` on the value `v`: the URI's display text and the `tag`
/// parameter, or the error's text.
#[verifier::external_body]
fn typed_to(v: &str) -> (r: Result<(String, Option<String>), String>)
    ensures
        match r {
            Ok((u, t)) => sip_to_header(v@) == Ok::<(Seq<char>, Option<Seq<char>>), Seq<char>>(
                (u@, match t { Some(x) => Some(x@), None => None })),
            Err(e) => sip_to_header(v@) == Err::<(Seq<char>, Option<Seq<char>>), Seq<char>>(e@),
        },
{
    match rsip::headers::To::new(v).typed() {
        Ok(f) => Ok((f.uri.to_string(), f.tag().map(|t| t.to_string()))),
        Err(e) => Err(e.to_string()),
    }
}

/// The URI's text that `rsip` reads from a `Contact` header value, if it reads one.
pub uninterp spec fn sip_contact_uri(v: Seq<char>) -> Option<Seq<char>>;

/// `rsip::headers::Contact::typed` on the value `v`: the URI's display text, if it parses.
#[verifier::external_body]
fn typed_contact(v: &str) -> (r: Option<String>)
    ensures
        match r {
            Some(u) => sip_contact_uri(v@) == Some(u@),
            None => sip_contact_uri(v@) is None,
        },
{
    match rsip::headers::Contact::new(v).typed() {
        Ok(c) => Some(c.uri.to_string()),
        Err(_) => None,
    }
}

/// What `rsip` reads from a `Via` header value: the `branch` parameter, if any; or the text of
/// its error.
pub uninterp spec fn sip_via_branch(v: Seq<char>) -> Result<Option<Seq<char>>, Seq<char>>;

/// `rsip::headers::Via::typed` on the value `v`: the `branch` parameter, or the error's text.
#[verifier::external_body]
fn typed_via_branch(v: &str) -> (r: Result<Option<String>, String>)
    ensures
        match r {
            Ok(b) => sip_via_branch(v@) == Ok::<Option<Seq<char>>, Seq<char>>(
                match b { Some(x) => Some(x@), None => None }),
            Err(e) => sip_via_branch(v@) == Err::<Option<Seq<char>>, Seq<char>>(e@),
        },
{
    match rsip::headers::Via::new(v).typed() {
        Ok(t) => Ok(t.branch().map(|b| b.to_string())),
        Err(e) => Err(e.to_string()),
    }
}

/// What `rsip` reads from a `CSeq` header value: the number and the method's name; or the text
/// of its error.
pub uninterp spec fn sip_cseq(v: Seq<char>) -> Result<(u32, Seq<char>), Seq<char>>;

/// `rsip::headers::CSeq::typed` on the value `v`: the sequence number and the method's
/// display name, or the error's text.
#[verifier::external_body]
fn typed_cseq(v: &str) -> (r: Result<(u32, String), String>)
    ensures
        match r {
            Ok((n, m)) => sip_cseq(v@) == Ok::<(u32, Seq<char>), Seq<char>>((n, m@)),
            Err(e) => sip_cseq(v@) == Err::<(u32, Seq<char>), Seq<char>>(e@),
        },
{
    match rsip::headers::CSeq::new(v).typed() {
        Ok(c) => Ok((c.seq, c.method.to_string())),
        Err(e) => Err(e.to_string()),
    }
}

/// The text `rsip` displays for the status code `code`: the number and `rsip`'s name for it.
pub uninterp spec fn sip_status_text(code: u16) -> Seq<char>;

/// `rsip::StatusCode::from(code)`, as it is displayed.
#[verifier::external_body]
fn status_text(code: u16) -> (r: String)
    ensures
        r@ == sip_status_text(code),
{
    rsip::StatusCode::from(code).to_string()
}

/// A message as `rsip` reads it: the request line's parts or the status, the display text of
/// each header, and the body.
pub struct RawMessage {
    /// Whether the message is a request.
    pub is_request: bool,
    /// The status code of a response.
    pub code: u16,
    /// The parts of the first line: method, URI and version of a request; version and
    /// status of a response.
    pub first: Vec<String>,
    /// The display text of each header.
    pub headers: Vec<String>,
    /// The body.
    pub body: Vec<u8>,
}

/// A read message as plain values.
pub struct RawView {
    pub is_request: bool,
    pub code: u16,
    pub first: Seq<Seq<char>>,
    pub headers: Seq<Seq<char>>,
    pub body: Seq<u8>,
}

impl View for RawMessage {
    type V = RawView;

    open spec fn view(&self) -> RawView {
        RawView {
            is_request: self.is_request,
            code: self.code,
            first: Seq::new(self.first@.len(), |i: int| self.first@[i]@),
            headers: Seq::new(self.headers@.len(), |i: int| self.headers@[i]@),
            body: self.body@,
        }
    }
}

/// What `rsip` reads from the bytes `d`, or the text of its error.
pub uninterp spec fn sip_parsed(d: Seq<u8>) -> Result<RawView, Seq<char>>;

/// `rsip::SipMessage::try_from` on `data`, each part taken as the text `rsip` displays.
#[verifier::external_body]
fn parse_raw(data: &[u8]) -> (r: Result<RawMessage, String>)
    ensures
        match r {
            Ok(m) => sip_parsed(data@) == Ok::<RawView, Seq<char>>(m@),
            Err(e) => sip_parsed(data@) == Err::<RawView, Seq<char>>(e@),
        },
        r matches Ok(m) ==> raw_well_formed(m@),
{
    let (is_request, code, first, hs, body) = match rsip::SipMessage::try_from(data) {
        Ok(rsip::SipMessage::Request(q)) => (true, 0, vec![q.method.to_string(), q.uri.to_string(),
            q.version.to_string()], q.headers, q.body),
        Ok(rsip::SipMessage::Response(p)) => (false, p.status_code.code(), vec![p.version.to_string(),
            p.status_code.to_string()], p.headers, p.body),
        Err(e) => return Err(e.to_string()),
    };
    Ok(RawMessage { is_request, code, first, headers: hs.iter().map(|h| h.to_string()).collect(), body })
}

} // verus!

verus! {

/// The display texts of a header list, each followed by CRLF.
pub open spec fn headers_block(hs: Seq<(Seq<char>, Seq<char>)>) -> Seq<char>
    decreases hs.len(),
{
    if hs.len() == 0 {
        Seq::empty()
    } else {
        headers_block(hs.drop_last()) + header_text(hs.last()) + "\r\n"@
    }
}

/// Appends the header block of `hs`.
fn push_headers(v: &mut Vec<char>, hs: &Vec<SipHeader>)
    ensures
        final(v)@ == old(v)@ + headers_block(headers_view(hs@)),
{
    let ghost start = v@;
    let ghost hv = headers_view(hs@);
    let mut i: usize = 0;
    while i < hs.len()
        invariant
            i <= hs.len(),
            hv == headers_view(hs@),
            v@ == start + headers_block(hv.take(i as int)),
        decreases hs.len() - i,
    {
        let ghost before = v@;
        push_str(v, hs[i].name.as_str());
        push_str(v, ": ");
        push_str(v, hs[i].value.as_str());
        push_str(v, "\r\n");
        proof {
            let t = hv.take(i + 1);
            assert(t.drop_last() =~= hv.take(i as int));
            assert(t.last() == (hs@[i as int].name@, hs@[i as int].value@));
            assert(v@ =~= start + headers_block(t));
        }
        i += 1;
    }
    assert(hv.take(hs.len() as int) =~= hv);
}

/// The bytes of `t` as UTF-8.
fn utf8_bytes(t: &[char]) -> (b: Vec<u8>)
    ensures
        b@ == vstd::utf8::encode_utf8(t@),
{
    let s = string_of(t);
    vstd::slice::slice_to_vec(s.as_str().as_bytes())
}

/// The text of the parts of a message after its first line: the header block, the empty
/// line, and the body as `String::from_utf8_lossy` reads it.
pub open spec fn after_start_line(hs: Seq<(Seq<char>, Seq<char>)>, body: Seq<u8>) -> Seq<char> {
    headers_block(hs) + "\r\n"@ + utf8_lossy(body)
}

/// SIP request.
#[derive(Debug)]
pub struct SipRequest {
    method: Method,
    uri: String,
    version: String,
    headers: Vec<SipHeader>,
    body: Vec<u8>,
}

/// A request as plain values.
pub struct RequestView {
    pub method: Method,
    pub uri: Seq<char>,
    pub version: Seq<char>,
    pub headers: Seq<(Seq<char>, Seq<char>)>,
    pub body: Seq<u8>,
}

impl View for SipRequest {
    type V = RequestView;

    closed spec fn view(&self) -> RequestView {
        RequestView {
            method: self.method,
            uri: self.uri@,
            version: self.version@,
            headers: headers_view(self.headers@),
            body: self.body@,
        }
    }
}

/// The wire text of a request.
pub open spec fn request_text(q: RequestView) -> Seq<char> {
    method_name(q.method) + seq![' '] + q.uri + seq![' '] + q.version + "\r\n"@ + after_start_line(q.headers, q.body)
}

/// SIP response.
#[derive(Debug)]
pub struct SipResponse {
    status_code: u16,
    status_text: String,
    version: String,
    headers: Vec<SipHeader>,
    body: Vec<u8>,
}

/// A response as plain values.
pub struct ResponseView {
    pub status_code: u16,
    pub status_text: Seq<char>,
    pub version: Seq<char>,
    pub headers: Seq<(Seq<char>, Seq<char>)>,
    pub body: Seq<u8>,
}

impl View for SipResponse {
    type V = ResponseView;

    closed spec fn view(&self) -> ResponseView {
        ResponseView {
            status_code: self.status_code,
            status_text: self.status_text@,
            version: self.version@,
            headers: headers_view(self.headers@),
            body: self.body@,
        }
    }
}

/// The wire text of a response.
pub open spec fn response_text(p: ResponseView) -> Seq<char> {
    p.version + seq![' '] + p.status_text + "\r\n"@ + after_start_line(p.headers, p.body)
}

impl Clone for SipRequest {
    fn clone(&self) -> (r: Self)
        ensures
            r@ == self@,
    {
        let r = SipRequest {
            method: self.method,
            uri: self.uri.clone(),
            version: self.version.clone(),
            headers: self.headers.clone(),
            body: self.body.clone(),
        };
        assert(headers_view(r.headers@) =~= headers_view(self.headers@));
        assert(r.body@ =~= self.body@);
        r
    }
}

impl Clone for SipResponse {
    fn clone(&self) -> (r: Self)
        ensures
            r@ == self@,
    {
        let r = SipResponse {
            status_code: self.status_code,
            status_text: self.status_text.clone(),
            version: self.version.clone(),
            headers: self.headers.clone(),
            body: self.body.clone(),
        };
        assert(headers_view(r.headers@) =~= headers_view(self.headers@));
        assert(r.body@ =~= self.body@);
        r
    }
}

/// Whether `r` is the error `SipError::MissingHeader(name)`.
pub open spec fn is_missing(r: Error, name: Seq<char>) -> bool {
    r matches Error::Sip(SipError::MissingHeader(n)) && n@ == name
}

/// Whether `r` is the error `SipError::Parse(text)`.
pub open spec fn is_parse_error(r: Error, text: Seq<char>) -> bool {
    r matches Error::Sip(SipError::Parse(n)) && n@ == text
}

/// Whether `r` is the error `SipError::InvalidHeader(text)`.
pub open spec fn is_invalid_header(r: Error, text: Seq<char>) -> bool {
    r matches Error::Sip(SipError::InvalidHeader(n)) && n@ == text
}

fn missing(name: &str) -> (e: Error)
    ensures
        is_missing(e, name@),
{
    Error::Sip(SipError::MissingHeader(name.to_string()))
}

/// The value of the `Call-ID` header.
fn call_id_in(hs: &Vec<SipHeader>) -> (r: Result<String, Error>)
    ensures
        match header_value(headers_view(hs@), "Call-ID"@) {
            Some(v) => r matches Ok(s) && s@ == v,
            None => r matches Err(e) && is_missing(e, "Call-ID"@),
        },
{
    match header_value_of(hs, "Call-ID") {
        Some(v) => Ok(v.clone()),
        None => Err(missing("Call-ID")),
    }
}

/// The `tag` of the `From` header.
fn from_tag_in(hs: &Vec<SipHeader>) -> (r: Result<String, Error>)
    ensures
        match header_value(headers_view(hs@), "From"@) {
            None => r matches Err(e) && is_missing(e, "From"@),
            Some(v) => match sip_from_header(v) {
                Err(t) => r matches Err(e) && is_parse_error(e, t),
                Ok((_, None)) => r matches Err(e) && is_invalid_header(e, "From header missing tag"@),
                Ok((_, Some(t))) => r matches Ok(s) && s@ == t,
            },
        },
{
    let v = match header_value_of(hs, "From") {
        Some(v) => v,
        None => return Err(missing("From")),
    };
    match typed_from(v.as_str()) {
        Err(t) => Err(Error::Sip(SipError::Parse(t))),
        Ok((_, None)) => Err(Error::Sip(SipError::InvalidHeader("From header missing tag".to_string()))),
        Ok((_, Some(t))) => Ok(t),
    }
}

/// The URI of the `From` header.
fn from_uri_in(hs: &Vec<SipHeader>) -> (r: Result<String, Error>)
    ensures
        match header_value(headers_view(hs@), "From"@) {
            None => r matches Err(e) && is_missing(e, "From"@),
            Some(v) => match sip_from_header(v) {
                Err(t) => r matches Err(e) && is_parse_error(e, t),
                Ok((u, _)) => r matches Ok(s) && s@ == u,
            },
        },
{
    let v = match header_value_of(hs, "From") {
        Some(v) => v,
        None => return Err(missing("From")),
    };
    match typed_from(v.as_str()) {
        Err(t) => Err(Error::Sip(SipError::Parse(t))),
        Ok((u, _)) => Ok(u),
    }
}

/// The `tag` of the `To` header, if it has one and parses.
fn to_tag_in(hs: &Vec<SipHeader>) -> (r: Option<String>)
    ensures
        match header_value(headers_view(hs@), "To"@) {
            Some(v) => match sip_to_header(v) {
                Ok((_, Some(t))) => r matches Some(s) && s@ == t,
                _ => r is None,
            },
            None => r is None,
        },
{
    let v = match header_value_of(hs, "To") {
        Some(v) => v,
        None => return None,
    };
    match typed_to(v.as_str()) {
        Ok((_, t)) => t,
        Err(_) => None,
    }
}

/// The URI of the `To` header.
fn to_uri_in(hs: &Vec<SipHeader>) -> (r: Result<String, Error>)
    ensures
        match header_value(headers_view(hs@), "To"@) {
            None => r matches Err(e) && is_missing(e, "To"@),
            Some(v) => match sip_to_header(v) {
                Err(t) => r matches Err(e) && is_parse_error(e, t),
                Ok((u, _)) => r matches Ok(s) && s@ == u,
            },
        },
{
    let v = match header_value_of(hs, "To") {
        Some(v) => v,
        None => return Err(missing("To")),
    };
    match typed_to(v.as_str()) {
        Err(t) => Err(Error::Sip(SipError::Parse(t))),
        Ok((u, _)) => Ok(u),
    }
}

/// The `branch` of the `Via` header.
fn via_branch_in(hs: &Vec<SipHeader>) -> (r: Result<String, Error>)
    ensures
        match header_value(headers_view(hs@), "Via"@) {
            None => r matches Err(e) && is_missing(e, "Via"@),
            Some(v) => match sip_via_branch(v) {
                Err(t) => r matches Err(e) && is_parse_error(e, t),
                Ok(None) => r matches Err(e) && is_invalid_header(e, "Via header missing branch"@),
                Ok(Some(b)) => r matches Ok(s) && s@ == b,
            },
        },
{
    let v = match header_value_of(hs, "Via") {
        Some(v) => v,
        None => return Err(missing("Via")),
    };
    match typed_via_branch(v.as_str()) {
        Err(t) => Err(Error::Sip(SipError::Parse(t))),
        Ok(None) => Err(Error::Sip(SipError::InvalidHeader("Via header missing branch".to_string()))),
        Ok(Some(b)) => Ok(b),
    }
}

/// The number and method of the `CSeq` header.
fn cseq_in(hs: &Vec<SipHeader>) -> (r: Result<(u32, Method), Error>)
    ensures
        match header_value(headers_view(hs@), "CSeq"@) {
            None => r matches Err(e) && is_missing(e, "CSeq"@),
            Some(v) => match sip_cseq(v) {
                Err(t) => r matches Err(e) && is_parse_error(e, t),
                Ok((n, m)) => r matches Ok(x) && x == (n, method_of_name(m)),
            },
        },
{
    let v = match header_value_of(hs, "CSeq") {
        Some(v) => v,
        None => return Err(missing("CSeq")),
    };
    match typed_cseq(v.as_str()) {
        Err(t) => Err(Error::Sip(SipError::Parse(t))),
        Ok((n, m)) => Ok((n, Method::from_name(m.as_str()))),
    }
}

/// The URI of the `Contact` header, if there is one and it parses.
fn contact_uri_in(hs: &Vec<SipHeader>) -> (r: Option<String>)
    ensures
        match header_value(headers_view(hs@), "Contact"@) {
            Some(v) => match sip_contact_uri(v) {
                Some(u) => r matches Some(s) && s@ == u,
                None => r is None,
            },
            None => r is None,
        },
{
    match header_value_of(hs, "Contact") {
        Some(v) => typed_contact(v.as_str()),
        None => None,
    }
}

/// The display texts of the headers named `name`.
fn header_texts_in(hs: &Vec<SipHeader>, name: &str) -> (r: Vec<String>)
    ensures
        Seq::new(r@.len(), |i: int| r@[i]@) == header_texts(headers_view(hs@), name@),
{
    let ghost hv = headers_view(hs@);
    let mut out: Vec<String> = Vec::new();
    let mut i: usize = 0;
    while i < hs.len()
        invariant
            i <= hs.len(),
            hv == headers_view(hs@),
            Seq::new(out@.len(), |k: int| out@[k]@) == header_texts(hv.take(i as int), name@),
        decreases hs.len() - i,
    {
        let ghost before = Seq::new(out@.len(), |k: int| out@[k]@);
        proof {
            let t = hv.take(i + 1);
            assert(t.drop_last() =~= hv.take(i as int));
        }
        if str_eq(hs[i].name.as_str(), name) {
            let mut v: Vec<char> = Vec::new();
            push_str(&mut v, hs[i].name.as_str());
            push_str(&mut v, ": ");
            push_str(&mut v, hs[i].value.as_str());
            out.push(string_of(v.as_slice()));
            assert(Seq::new(out@.len(), |k: int| out@[k]@) =~= before.push(header_text(hv[i as int])));
        }
        i += 1;
    }
    assert(hv.take(hs.len() as int) =~= hv);
    out
}

} // verus!

verus! {

impl SipRequest {
    /// Get the request method.
    pub fn method(&self) -> (m: Method)
        ensures
            m == self@.method,
    {
        self.method
    }

    /// Get the request URI, as `rsip` displays it.
    pub fn uri(&self) -> (u: &str)
        ensures
            u@ == self@.uri,
    {
        self.uri.as_str()
    }

    /// Get the Call-ID header value.
    pub fn call_id(&self) -> (r: Result<String, Error>)
        ensures
        match header_value(self@.headers, "Call-ID"@) {
            Some(v) => r matches Ok(s) && s@ == v,
            None => r matches Err(e) && is_missing(e, "Call-ID"@),
        },
    {
        call_id_in(&self.headers)
    }
    /// Get the From tag.
    pub fn from_tag(&self) -> (r: Result<String, Error>)
        ensures
        match header_value(self@.headers, "From"@) {
            None => r matches Err(e) && is_missing(e, "From"@),
            Some(v) => match sip_from_header(v) {
                Err(t) => r matches Err(e) && is_parse_error(e, t),
                Ok((_, None)) => r matches Err(e) && is_invalid_header(e, "From header missing tag"@),
                Ok((_, Some(t))) => r matches Ok(s) && s@ == t,
            },
        },
    {
        from_tag_in(&self.headers)
    }
    /// Get the To tag (may not exist in requests).
    pub fn to_tag(&self) -> (r: Option<String>)
        ensures
        match header_value(self@.headers, "To"@) {
            Some(v) => match sip_to_header(v) {
                Ok((_, Some(t))) => r matches Some(s) && s@ == t,
                _ => r is None,
            },
            None => r is None,
        },
    {
        to_tag_in(&self.headers)
    }
    /// Get the Via branch parameter.
    pub fn via_branch(&self) -> (r: Result<String, Error>)
        ensures
        match header_value(self@.headers, "Via"@) {
            None => r matches Err(e) && is_missing(e, "Via"@),
            Some(v) => match sip_via_branch(v) {
                Err(t) => r matches Err(e) && is_parse_error(e, t),
                Ok(None) => r matches Err(e) && is_invalid_header(e, "Via header missing branch"@),
                Ok(Some(b)) => r matches Ok(s) && s@ == b,
            },
        },
    {
        via_branch_in(&self.headers)
    }
    /// Get the From URI, as `rsip` displays it.
    pub fn from_uri(&self) -> (r: Result<String, Error>)
        ensures
        match header_value(self@.headers, "From"@) {
            None => r matches Err(e) && is_missing(e, "From"@),
            Some(v) => match sip_from_header(v) {
                Err(t) => r matches Err(e) && is_parse_error(e, t),
                Ok((u, _)) => r matches Ok(s) && s@ == u,
            },
        },
    {
        from_uri_in(&self.headers)
    }
    /// Get the To URI, as `rsip` displays it.
    pub fn to_uri(&self) -> (r: Result<String, Error>)
        ensures
        match header_value(self@.headers, "To"@) {
            None => r matches Err(e) && is_missing(e, "To"@),
            Some(v) => match sip_to_header(v) {
                Err(t) => r matches Err(e) && is_parse_error(e, t),
                Ok((u, _)) => r matches Ok(s) && s@ == u,
            },
        },
    {
        to_uri_in(&self.headers)
    }
    /// Get the Contact URI if present.
    pub fn contact_uri(&self) -> (r: Option<String>)
        ensures
        match header_value(self@.headers, "Contact"@) {
            Some(v) => match sip_contact_uri(v) {
                Some(u) => r matches Some(s) && s@ == u,
                None => r is None,
            },
            None => r is None,
        },
    {
        contact_uri_in(&self.headers)
    }
    /// Get the CSeq number.
    pub fn cseq(&self) -> (r: Result<u32, Error>)
        ensures
        match header_value(self@.headers, "CSeq"@) {
            None => r matches Err(e) && is_missing(e, "CSeq"@),
            Some(v) => match sip_cseq(v) {
                Err(t) => r matches Err(e) && is_parse_error(e, t),
                Ok((n, m)) => r matches Ok(x) && x == n,
            },
        },
    {
        match cseq_in(&self.headers) {
            Ok((n, _)) => Ok(n),
            Err(e) => Err(e),
        }
    }

    /// Get the CSeq method.
    pub fn cseq_method(&self) -> (r: Result<Method, Error>)
        ensures
        match header_value(self@.headers, "CSeq"@) {
            None => r matches Err(e) && is_missing(e, "CSeq"@),
            Some(v) => match sip_cseq(v) {
                Err(t) => r matches Err(e) && is_parse_error(e, t),
                Ok((n, m)) => r matches Ok(x) && x == method_of_name(m),
            },
        },
    {
        match cseq_in(&self.headers) {
            Ok((_, m)) => Ok(m),
            Err(e) => Err(e),
        }
    }

    /// Get the message body.
    pub fn body(&self) -> (b: &[u8])
        ensures
            b@ == self@.body,
    {
        self.body.as_slice()
    }

    /// Get the Content-Type header, as it is displayed (`Content-Type: value`).
    pub fn content_type(&self) -> (r: Option<String>)
        ensures
            match header_value(self@.headers, "Content-Type"@) {
                Some(v) => r matches Some(s) && s@ == "Content-Type: "@ + v,
                None => r is None,
            },
    {
        match header_value_of(&self.headers, "Content-Type") {
            Some(v) => {
                let mut t: Vec<char> = Vec::new();
                push_str(&mut t, "Content-Type: ");
                push_str(&mut t, v.as_str());
                Some(string_of(t.as_slice()))
            },
            None => None,
        }
    }

    /// Get Record-Route headers, each as it is displayed (`Record-Route: value`).
    pub fn record_routes(&self) -> (r: Vec<String>)
        ensures
            Seq::new(r@.len(), |i: int| r@[i]@) == header_texts(self@.headers, "Record-Route"@),
    {
        header_texts_in(&self.headers, "Record-Route")
    }

    /// Get Via headers, each as it is displayed (`Via: value`).
    pub fn via_headers_raw(&self) -> (r: Vec<String>)
        ensures
            Seq::new(r@.len(), |i: int| r@[i]@) == header_texts(self@.headers, "Via"@),
    {
        header_texts_in(&self.headers, "Via")
    }

    /// Convert to bytes: the request line, the headers, an empty line and the body.
    pub fn to_bytes(&self) -> (b: Vec<u8>)
        ensures
            b@ == vstd::utf8::encode_utf8(request_text(self@)),
    {
        let mut v: Vec<char> = Vec::new();
        push_str(&mut v, self.method.as_str());
        v.push(' ');
        push_str(&mut v, self.uri.as_str());
        v.push(' ');
        push_str(&mut v, self.version.as_str());
        push_str(&mut v, "\r\n");
        push_headers(&mut v, &self.headers);
        push_str(&mut v, "\r\n");
        let body = crate::ice::stun::from_utf8_lossy(self.body.as_slice());
        push_str(&mut v, body.as_str());
        assert(v@ =~= request_text(self@));
        utf8_bytes(v.as_slice())
    }
}

impl SipResponse {
    /// Get the status code.
    pub fn status_code(&self) -> (c: u16)
        ensures
            c == self@.status_code,
    {
        self.status_code
    }

    /// Get the reason phrase: the status text after its first space.
    pub fn reason(&self) -> (r: String)
        ensures
            r@ == reason_of(self@.status_text),
    {
        let v = chars_of(self.status_text.as_str());
        match crate::text::find_char(v.as_slice(), 0, v.len(), ' ') {
            Some(k) => {
                assert(v@.subrange(0, v@.len() as int) =~= v@);
                crate::text::string_range(v.as_slice(), k + 1, v.len())
            },
            None => {
                assert(v@.subrange(0, v@.len() as int) =~= v@);
                self.status_text.clone()
            },
        }
    }

    /// Check if this is a provisional response (1xx).
    pub fn is_provisional(&self) -> (b: bool)
        ensures
            b == (100 <= self@.status_code < 200),
    {
        100 <= self.status_code && self.status_code < 200
    }

    /// Check if this is a success response (2xx).
    pub fn is_success(&self) -> (b: bool)
        ensures
            b == (200 <= self@.status_code < 300),
    {
        200 <= self.status_code && self.status_code < 300
    }

    /// Check if this is a failure response (3xx-6xx).
    pub fn is_failure(&self) -> (b: bool)
        ensures
            b == (self@.status_code >= 300),
    {
        self.status_code >= 300
    }

    /// Get the Call-ID header value.
    pub fn call_id(&self) -> (r: Result<String, Error>)
        ensures
        match header_value(self@.headers, "Call-ID"@) {
            Some(v) => r matches Ok(s) && s@ == v,
            None => r matches Err(e) && is_missing(e, "Call-ID"@),
        },
    {
        call_id_in(&self.headers)
    }
    /// Get the From tag.
    pub fn from_tag(&self) -> (r: Result<String, Error>)
        ensures
        match header_value(self@.headers, "From"@) {
            None => r matches Err(e) && is_missing(e, "From"@),
            Some(v) => match sip_from_header(v) {
                Err(t) => r matches Err(e) && is_parse_error(e, t),
                Ok((_, None)) => r matches Err(e) && is_invalid_header(e, "From header missing tag"@),
                Ok((_, Some(t))) => r matches Ok(s) && s@ == t,
            },
        },
    {
        from_tag_in(&self.headers)
    }
    /// Get the To tag (may not exist in requests).
    pub fn to_tag(&self) -> (r: Option<String>)
        ensures
        match header_value(self@.headers, "To"@) {
            Some(v) => match sip_to_header(v) {
                Ok((_, Some(t))) => r matches Some(s) && s@ == t,
                _ => r is None,
            },
            None => r is None,
        },
    {
        to_tag_in(&self.headers)
    }
    /// Get the Via branch parameter.
    pub fn via_branch(&self) -> (r: Result<String, Error>)
        ensures
        match header_value(self@.headers, "Via"@) {
            None => r matches Err(e) && is_missing(e, "Via"@),
            Some(v) => match sip_via_branch(v) {
                Err(t) => r matches Err(e) && is_parse_error(e, t),
                Ok(None) => r matches Err(e) && is_invalid_header(e, "Via header missing branch"@),
                Ok(Some(b)) => r matches Ok(s) && s@ == b,
            },
        },
    {
        via_branch_in(&self.headers)
    }
    /// Get the From URI, as `rsip` displays it.
    pub fn from_uri(&self) -> (r: Result<String, Error>)
        ensures
        match header_value(self@.headers, "From"@) {
            None => r matches Err(e) && is_missing(e, "From"@),
            Some(v) => match sip_from_header(v) {
                Err(t) => r matches Err(e) && is_parse_error(e, t),
                Ok((u, _)) => r matches Ok(s) && s@ == u,
            },
        },
    {
        from_uri_in(&self.headers)
    }
    /// Get the To URI, as `rsip` displays it.
    pub fn to_uri(&self) -> (r: Result<String, Error>)
        ensures
        match header_value(self@.headers, "To"@) {
            None => r matches Err(e) && is_missing(e, "To"@),
            Some(v) => match sip_to_header(v) {
                Err(t) => r matches Err(e) && is_parse_error(e, t),
                Ok((u, _)) => r matches Ok(s) && s@ == u,
            },
        },
    {
        to_uri_in(&self.headers)
    }
    /// Get the Contact URI if present.
    pub fn contact_uri(&self) -> (r: Option<String>)
        ensures
        match header_value(self@.headers, "Contact"@) {
            Some(v) => match sip_contact_uri(v) {
                Some(u) => r matches Some(s) && s@ == u,
                None => r is None,
            },
            None => r is None,
        },
    {
        contact_uri_in(&self.headers)
    }
    /// Get the CSeq number.
    pub fn cseq(&self) -> (r: Result<u32, Error>)
        ensures
        match header_value(self@.headers, "CSeq"@) {
            None => r matches Err(e) && is_missing(e, "CSeq"@),
            Some(v) => match sip_cseq(v) {
                Err(t) => r matches Err(e) && is_parse_error(e, t),
                Ok((n, m)) => r matches Ok(x) && x == n,
            },
        },
    {
        match cseq_in(&self.headers) {
            Ok((n, _)) => Ok(n),
            Err(e) => Err(e),
        }
    }

    /// Get the CSeq method.
    pub fn cseq_method(&self) -> (r: Result<Method, Error>)
        ensures
        match header_value(self@.headers, "CSeq"@) {
            None => r matches Err(e) && is_missing(e, "CSeq"@),
            Some(v) => match sip_cseq(v) {
                Err(t) => r matches Err(e) && is_parse_error(e, t),
                Ok((n, m)) => r matches Ok(x) && x == method_of_name(m),
            },
        },
    {
        match cseq_in(&self.headers) {
            Ok((_, m)) => Ok(m),
            Err(e) => Err(e),
        }
    }

    /// Get the message body.
    pub fn body(&self) -> (b: &[u8])
        ensures
            b@ == self@.body,
    {
        self.body.as_slice()
    }

    /// Get the Content-Type header, as it is displayed (`Content-Type: value`).
    pub fn content_type(&self) -> (r: Option<String>)
        ensures
            match header_value(self@.headers, "Content-Type"@) {
                Some(v) => r matches Some(s) && s@ == "Content-Type: "@ + v,
                None => r is None,
            },
    {
        match header_value_of(&self.headers, "Content-Type") {
            Some(v) => {
                let mut t: Vec<char> = Vec::new();
                push_str(&mut t, "Content-Type: ");
                push_str(&mut t, v.as_str());
                Some(string_of(t.as_slice()))
            },
            None => None,
        }
    }

    /// Get Record-Route headers, each as it is displayed (`Record-Route: value`).
    pub fn record_routes(&self) -> (r: Vec<String>)
        ensures
            Seq::new(r@.len(), |i: int| r@[i]@) == header_texts(self@.headers, "Record-Route"@),
    {
        header_texts_in(&self.headers, "Record-Route")
    }

    /// Get Via headers, each as it is displayed (`Via: value`).
    pub fn via_headers_raw(&self) -> (r: Vec<String>)
        ensures
            Seq::new(r@.len(), |i: int| r@[i]@) == header_texts(self@.headers, "Via"@),
    {
        header_texts_in(&self.headers, "Via")
    }

    /// Get the WWW-Authenticate header value.
    pub fn www_authenticate(&self) -> (r: Option<String>)
        ensures
            match header_value(self@.headers, "WWW-Authenticate"@) {
                Some(v) => r matches Some(s) && s@ == v,
                None => r is None,
            },
    {
        match header_value_of(&self.headers, "WWW-Authenticate") {
            Some(v) => Some(v.clone()),
            None => None,
        }
    }

    /// Get the Proxy-Authenticate header value.
    pub fn proxy_authenticate(&self) -> (r: Option<String>)
        ensures
            match header_value(self@.headers, "Proxy-Authenticate"@) {
                Some(v) => r matches Some(s) && s@ == v,
                None => r is None,
            },
    {
        match header_value_of(&self.headers, "Proxy-Authenticate") {
            Some(v) => Some(v.clone()),
            None => None,
        }
    }

    /// Convert to bytes: the status line, the headers, an empty line and the body.
    pub fn to_bytes(&self) -> (b: Vec<u8>)
        ensures
            b@ == vstd::utf8::encode_utf8(response_text(self@)),
    {
        let mut v: Vec<char> = Vec::new();
        push_str(&mut v, self.version.as_str());
        v.push(' ');
        push_str(&mut v, self.status_text.as_str());
        push_str(&mut v, "\r\n");
        push_headers(&mut v, &self.headers);
        push_str(&mut v, "\r\n");
        let body = crate::ice::stun::from_utf8_lossy(self.body.as_slice());
        push_str(&mut v, body.as_str());
        assert(v@ =~= response_text(self@));
        utf8_bytes(v.as_slice())
    }
}

/// The reason phrase in a status text: what follows its first space, or all of it.
pub open spec fn reason_of(t: Seq<char>) -> Seq<char> {
    match crate::text::find_from(t, ' ', 0) {
        Some(k) => t.subrange(k + 1, t.len() as int),
        None => t,
    }
}

} // verus!

verus! {

/// A header's display text split into its name and value: the name runs to the first colon,
/// and the value starts after the colon and the space that follows it.
pub open spec fn split_header_line(l: Seq<char>) -> (Seq<char>, Seq<char>) {
    match crate::text::find_from(l, ':', 0) {
        None => (l, Seq::empty()),
        Some(k) => (l.take(k), if k + 1 < l.len() && l[k + 1] == ' ' {
            l.skip(k + 2)
        } else {
            l.skip(k + 1)
        }),
    }
}

/// The header list of display texts.
pub open spec fn split_header_lines(ls: Seq<Seq<char>>) -> Seq<(Seq<char>, Seq<char>)> {
    Seq::new(ls.len(), |i: int| split_header_line(ls[i]))
}

/// The request that a read message describes.
pub open spec fn raw_request(m: RawView) -> RequestView {
    RequestView {
        method: method_of_name(m.first[0]),
        uri: m.first[1],
        version: m.first[2],
        headers: split_header_lines(m.headers),
        body: m.body,
    }
}

/// The response that a read message describes.
pub open spec fn raw_response(m: RawView) -> ResponseView {
    ResponseView {
        status_code: m.code,
        status_text: m.first[1],
        version: m.first[0],
        headers: split_header_lines(m.headers),
        body: m.body,
    }
}

/// Whether a read message has the parts of its first line: three for a request, two for a
/// response.
pub open spec fn raw_well_formed(m: RawView) -> bool {
    m.first.len() == if m.is_request { 3int } else { 2int }
}

/// The header of one display text.
fn split_line(l: &String) -> (h: SipHeader)
    ensures
        (h.name@, h.value@) == split_header_line(l@),
{
    let v = chars_of(l.as_str());
    assert(v@.subrange(0, v@.len() as int) =~= v@);
    match crate::text::find_char(v.as_slice(), 0, v.len(), ':') {
        None => SipHeader { name: l.clone(), value: String::new() },
        Some(k) => {
            let start = if k + 1 < v.len() && v[k + 1] == ' ' { k + 2 } else { k + 1 };
            let name = crate::text::string_range(v.as_slice(), 0, k);
            let value = crate::text::string_range(v.as_slice(), start, v.len());
            assert(v@.subrange(0, k as int) =~= v@.take(k as int));
            assert(v@.subrange(start as int, v@.len() as int) =~= v@.skip(start as int));
            SipHeader { name, value }
        },
    }
}

/// The headers of a list of display texts.
fn split_lines(ls: &Vec<String>) -> (hs: Vec<SipHeader>)
    ensures
        headers_view(hs@) == split_header_lines(Seq::new(ls@.len(), |i: int| ls@[i]@)),
{
    let ghost lv = Seq::new(ls@.len(), |i: int| ls@[i]@);
    let mut hs: Vec<SipHeader> = Vec::new();
    let mut i: usize = 0;
    while i < ls.len()
        invariant
            i <= ls.len(),
            lv == Seq::new(ls@.len(), |k: int| ls@[k]@),
            hs@.len() == i,
            forall|k: int| 0 <= k < i ==> (#[trigger] hs@[k].name@, hs@[k].value@) == split_header_line(lv[k]),
        decreases ls.len() - i,
    {
        hs.push(split_line(&ls[i]));
        i += 1;
    }
    assert(headers_view(hs@) =~= split_header_lines(lv));
    hs
}

/// SIP message (either request or response).
#[derive(Debug, Clone)]
pub enum SipMessage {
    Request(SipRequest),
    Response(SipResponse),
}

impl SipMessage {
    /// Parse a SIP message from bytes, as `rsip` reads it.
    pub fn parse(data: &[u8]) -> (r: Result<Self, Error>)
        ensures
            match sip_parsed(data@) {
                Err(t) => r matches Err(e) && is_parse_error(e, t),
                Ok(m) => r matches Ok(x) && (m.is_request ==> (x matches SipMessage::Request(q) && q@ == raw_request(m)))
                    && (!m.is_request ==> (x matches SipMessage::Response(p) && p@ == raw_response(m))),
            },
    {
        match parse_raw(data) {
            Err(t) => Err(Error::Sip(SipError::Parse(t))),
            Ok(m) => Ok(Self::from_raw(m)),
        }
    }

    /// The message that a read message describes: its first line's parts, its headers split
    /// into names and values, and its body.
    pub fn from_raw(m: RawMessage) -> (r: Self)
        requires
            raw_well_formed(m@),
        ensures
            m@.is_request ==> (r matches SipMessage::Request(q) && q@ == raw_request(m@)),
            !m@.is_request ==> (r matches SipMessage::Response(p) && p@ == raw_response(m@)),
    {
        let headers = split_lines(&m.headers);
        if m.is_request {
            let q = SipRequest {
                method: Method::from_name(m.first[0].as_str()),
                uri: m.first[1].clone(),
                version: m.first[2].clone(),
                headers,
                body: m.body,
            };
            SipMessage::Request(q)
        } else {
            let p = SipResponse {
                status_code: m.code,
                status_text: m.first[1].clone(),
                version: m.first[0].clone(),
                headers,
                body: m.body,
            };
            SipMessage::Response(p)
        }
    }

    /// Convert to bytes.
    pub fn to_bytes(&self) -> (b: Vec<u8>)
        ensures
            match self {
                SipMessage::Request(q) => b@ == vstd::utf8::encode_utf8(request_text(q@)),
                SipMessage::Response(p) => b@ == vstd::utf8::encode_utf8(response_text(p@)),
            },
    {
        match self {
            SipMessage::Request(q) => q.to_bytes(),
            SipMessage::Response(p) => p.to_bytes(),
        }
    }

    /// Check if this is a request.
    pub fn is_request(&self) -> (b: bool)
        ensures
            b == (self is Request),
    {
        match self {
            SipMessage::Request(_) => true,
            _ => false,
        }
    }

    /// Check if this is a response.
    pub fn is_response(&self) -> (b: bool)
        ensures
            b == (self is Response),
    {
        match self {
            SipMessage::Response(_) => true,
            _ => false,
        }
    }

    /// Get as request if it is one.
    pub fn as_request(&self) -> (r: Option<&SipRequest>)
        ensures
            match self {
                SipMessage::Request(q) => r == Some(q),
                _ => r is None,
            },
    {
        match self {
            SipMessage::Request(q) => Some(q),
            _ => None,
        }
    }

    /// Get as response if it is one.
    pub fn as_response(&self) -> (r: Option<&SipResponse>)
        ensures
            match self {
                SipMessage::Response(p) => r == Some(p),
                _ => r is None,
            },
    {
        match self {
            SipMessage::Response(p) => Some(p),
            _ => None,
        }
    }
}

/// Whether `s` is written in lower-case hexadecimal digits.
pub open spec fn is_lower_hex(s: Seq<char>) -> bool {
    forall|i: int| 0 <= i < s.len() ==> ('0' <= #[trigger] s[i] <= '9' || 'a' <= s[i] <= 'f')
}

/// A random (version 4) UUID in its simple form: 32 lower-case hexadecimal digits
/// (`uuid::Uuid::new_v4().simple()`); the digits are random, so only their form is stated.
#[verifier::external_body]
pub(crate) fn uuid_simple() -> (s: String)
    ensures
        s@.len() == 32,
        is_lower_hex(s@),
{
    uuid::Uuid::new_v4().simple().to_string()
}

/// Generate a unique branch parameter for a Via header: the magic cookie `z9hG4bK` and a
/// random UUID.
pub fn generate_branch() -> (s: String)
    ensures
        s@.len() == 39,
        s@.take(7) == "z9hG4bK"@,
        is_lower_hex(s@.skip(7)),
{
    let mut v: Vec<char> = Vec::new();
    push_str(&mut v, "z9hG4bK");
    let ghost head = v@;
    let u = uuid_simple();
    push_str(&mut v, u.as_str());
    proof {
        reveal_strlit("z9hG4bK");
    }
    assert(v@.take(7) =~= head);
    assert(v@.skip(7) =~= u@);
    string_of(v.as_slice())
}

/// Generate a tag for From/To headers: a time-based number in hexadecimal.
pub fn generate_tag() -> (s: String)
    ensures
        exists|x: u64| s@ == crate::net::hex_text(x as nat),
{
    let (secs, nanos) = crate::time::unix_time_now();
    let total: u128 = secs as u128 * 1_000_000_000 + nanos as u128;
    let low = (total % 0x1_0000_0000_0000_0000) as u64;
    let x: u64 = low ^ ((secs % 0x1_0000_0000) * 0x1_0000_0000);
    let mut v: Vec<char> = Vec::new();
    crate::net::push_hex(&mut v, x);
    string_of(v.as_slice())
}

/// Generate a unique Call-ID: a random UUID, `@`, and the domain.
pub fn generate_call_id(domain: &str) -> (s: String)
    ensures
        s@.len() == 33 + domain@.len(),
        is_lower_hex(s@.take(32)),
        s@.skip(32) == seq!['@'] + domain@,
{
    let u = uuid_simple();
    let mut v: Vec<char> = Vec::new();
    push_str(&mut v, u.as_str());
    v.push('@');
    push_str(&mut v, domain);
    assert(v@.take(32) =~= u@);
    assert(v@.skip(32) =~= seq!['@'] + domain@);
    string_of(v.as_slice())
}

} // verus!

verus! {

/// Builder for SIP requests.
#[derive(Debug, Default)]
pub struct SipRequestBuilder {
    method: Option<Method>,
    uri: Option<String>,
    uri_error: Option<String>,
    via_branch: Option<String>,
    via_host: Option<String>,
    via_port: Option<u16>,
    via_transport: Option<String>,
    from_uri: Option<String>,
    from_uri_error: Option<String>,
    from_tag: Option<String>,
    from_display: Option<String>,
    to_uri: Option<String>,
    to_uri_error: Option<String>,
    to_tag: Option<String>,
    call_id: Option<String>,
    cseq: Option<u32>,
    contact_uri: Option<String>,
    max_forwards: Option<u32>,
    body: Option<Vec<u8>>,
    content_type: Option<String>,
    authorization: Option<String>,
    proxy_authorization: Option<String>,
    expires: Option<u32>,
}

/// A request builder as plain values.
pub struct RequestBuilderView {
    pub method: Option<Method>,
    pub uri: Option<Seq<char>>,
    pub uri_error: Option<Seq<char>>,
    pub via_branch: Option<Seq<char>>,
    pub via_host: Option<Seq<char>>,
    pub via_port: Option<u16>,
    pub via_transport: Option<Seq<char>>,
    pub from_uri: Option<Seq<char>>,
    pub from_uri_error: Option<Seq<char>>,
    pub from_tag: Option<Seq<char>>,
    pub from_display: Option<Seq<char>>,
    pub to_uri: Option<Seq<char>>,
    pub to_uri_error: Option<Seq<char>>,
    pub to_tag: Option<Seq<char>>,
    pub call_id: Option<Seq<char>>,
    pub cseq: Option<u32>,
    pub contact_uri: Option<Seq<char>>,
    pub max_forwards: Option<u32>,
    pub body: Option<Seq<u8>>,
    pub content_type: Option<Seq<char>>,
    pub authorization: Option<Seq<char>>,
    pub proxy_authorization: Option<Seq<char>>,
    pub expires: Option<u32>,
}

/// The view of an optional string.
pub open spec fn ostr(o: Option<String>) -> Option<Seq<char>> {
    match o {
        Some(s) => Some(s@),
        None => None,
    }
}

impl View for SipRequestBuilder {
    type V = RequestBuilderView;

    closed spec fn view(&self) -> RequestBuilderView {
        RequestBuilderView {
            method: self.method,
            uri: ostr(self.uri),
            uri_error: ostr(self.uri_error),
            via_branch: ostr(self.via_branch),
            via_host: ostr(self.via_host),
            via_port: self.via_port,
            via_transport: ostr(self.via_transport),
            from_uri: ostr(self.from_uri),
            from_uri_error: ostr(self.from_uri_error),
            from_tag: ostr(self.from_tag),
            from_display: ostr(self.from_display),
            to_uri: ostr(self.to_uri),
            to_uri_error: ostr(self.to_uri_error),
            to_tag: ostr(self.to_tag),
            call_id: ostr(self.call_id),
            cseq: self.cseq,
            contact_uri: ostr(self.contact_uri),
            max_forwards: self.max_forwards,
            body: match self.body {
                Some(b) => Some(b@),
                None => None,
            },
            content_type: ostr(self.content_type),
            authorization: ostr(self.authorization),
            proxy_authorization: ostr(self.proxy_authorization),
            expires: self.expires,
        }
    }
}

/// The builder that has nothing set.
pub open spec fn empty_request_builder() -> RequestBuilderView {
    RequestBuilderView {
        method: None,
        uri: None,
        uri_error: None,
        via_branch: None,
        via_host: None,
        via_port: None,
        via_transport: None,
        from_uri: None,
        from_uri_error: None,
        from_tag: None,
        from_display: None,
        to_uri: None,
        to_uri_error: None,
        to_tag: None,
        call_id: None,
        cseq: None,
        contact_uri: None,
        max_forwards: None,
        body: None,
        content_type: None,
        authorization: None,
        proxy_authorization: None,
        expires: None,
    }
}

/// The error text for a URI that `rsip` does not read: the role, the text, and the error.
pub open spec fn uri_error_text(role: Seq<char>, s: Seq<char>, e: Seq<char>) -> Seq<char> {
    "Invalid "@ + role + " URI '"@ + s + "': "@ + e
}

/// The error text, if any, for a URI that `rsip` does not read.
fn uri_error(role: &str, s: &str, e: &String) -> (t: String)
    ensures
        t@ == uri_error_text(role@, s@, e@),
{
    let mut v: Vec<char> = Vec::new();
    push_str(&mut v, "Invalid ");
    push_str(&mut v, role);
    push_str(&mut v, " URI '");
    push_str(&mut v, s);
    push_str(&mut v, "': ");
    push_str(&mut v, e.as_str());
    string_of(v.as_slice())
}

/// The `Via` value that a request builder writes.
pub open spec fn via_value(transport: Seq<char>, host: Seq<char>, port: u16, branch: Seq<char>) -> Seq<char> {
    "SIP/2.0/"@ + transport + seq![' '] + host + seq![':'] + dec(port as nat) + ";branch="@ + branch
}

/// The `From` value that a request builder writes.
pub open spec fn from_value(display: Option<Seq<char>>, uri: Seq<char>, tag: Seq<char>) -> Seq<char> {
    match display {
        Some(d) => seq!['"'] + d + "\" <"@ + uri + ">;tag="@ + tag,
        None => seq!['<'] + uri + ">;tag="@ + tag,
    }
}

/// The `To` value that a request builder writes.
pub open spec fn to_value(uri: Seq<char>, tag: Option<Seq<char>>) -> Seq<char> {
    match tag {
        Some(t) => seq!['<'] + uri + ">;tag="@ + t,
        None => seq!['<'] + uri + seq!['>'],
    }
}

/// An optional header.
pub open spec fn opt_header(name: Seq<char>, v: Option<Seq<char>>) -> Seq<(Seq<char>, Seq<char>)> {
    match v {
        Some(x) => seq![(name, x)],
        None => Seq::empty(),
    }
}

/// The headers of a request that a builder makes, in order.
pub open spec fn built_request_headers(
    b: RequestBuilderView,
    method: Method,
    from_uri: Seq<char>,
    from_tag: Seq<char>,
    to_uri: Seq<char>,
    call_id: Seq<char>,
    cseq: u32,
    via_host: Seq<char>,
    via_branch: Seq<char>,
    body: Seq<u8>,
) -> Seq<(Seq<char>, Seq<char>)> {
    let transport = match b.via_transport {
        Some(t) => t,
        None => "UDP"@,
    };
    let port = match b.via_port {
        Some(p) => p,
        None => 5060u16,
    };
    let mf = match b.max_forwards {
        Some(m) => m,
        None => 70u32,
    };
    seq![
        ("Via"@, via_value(transport, via_host, port, via_branch)),
        ("From"@, from_value(b.from_display, from_uri, from_tag)),
        ("To"@, to_value(to_uri, b.to_tag)),
        ("Call-ID"@, call_id),
        ("CSeq"@, dec(cseq as nat) + seq![' '] + method_name(method)),
        ("Max-Forwards"@, dec(mf as nat)),
    ] + opt_header("Contact"@, match b.contact_uri {
        Some(c) => Some(seq!['<'] + c + seq!['>']),
        None => None,
    }) + opt_header("Authorization"@, b.authorization) + opt_header("Proxy-Authorization"@, b.proxy_authorization)
        + opt_header("Expires"@, match b.expires {
        Some(e) => Some(dec(e as nat)),
        None => None,
    }) + opt_header("Content-Type"@, if body.len() > 0 { b.content_type } else { None }) + seq![
        ("Content-Length"@, dec(body.len())),
    ]
}

/// What building gives: the request, or the text of the `InvalidHeader` error, checking the
/// URIs first and then each required part in turn.
pub open spec fn request_built(b: RequestBuilderView) -> Result<RequestView, Seq<char>> {
    if b.uri_error is Some {
        Err(b.uri_error->0)
    } else if b.from_uri_error is Some {
        Err(b.from_uri_error->0)
    } else if b.to_uri_error is Some {
        Err(b.to_uri_error->0)
    } else if b.method is None {
        Err("Missing method"@)
    } else if b.uri is None {
        Err("Missing request URI"@)
    } else if b.from_uri is None {
        Err("Missing From URI"@)
    } else if b.from_tag is None {
        Err("Missing From tag"@)
    } else if b.to_uri is None {
        Err("Missing To URI"@)
    } else if b.call_id is None {
        Err("Missing Call-ID"@)
    } else if b.cseq is None {
        Err("Missing CSeq"@)
    } else if b.via_host is None {
        Err("Missing Via host"@)
    } else if b.via_branch is None {
        Err("Missing Via branch"@)
    } else {
        let body = match b.body {
            Some(x) => x,
            None => Seq::empty(),
        };
        Ok(RequestView {
            method: b.method->0,
            uri: b.uri->0,
            version: "SIP/2.0"@,
            headers: built_request_headers(
                b,
                b.method->0,
                b.from_uri->0,
                b.from_tag->0,
                b.to_uri->0,
                b.call_id->0,
                b.cseq->0,
                b.via_host->0,
                b.via_branch->0,
                body,
            ),
            body,
        })
    }
}

/// Appends a header whose value is the text `v`.
fn push_header(hs: &mut Vec<SipHeader>, name: &str, v: &Vec<char>)
    ensures
        headers_view(final(hs)@) == headers_view(old(hs)@).push((name@, v@)),
{
    hs.push(SipHeader { name: name.to_string(), value: string_of(v.as_slice()) });
    assert(headers_view(final(hs)@) =~= headers_view(old(hs)@).push((name@, v@)));
}

/// Appends a header whose value is the string `v`, if there is one.
fn push_opt_header(hs: &mut Vec<SipHeader>, name: &str, v: &Option<String>)
    ensures
        headers_view(final(hs)@) == headers_view(old(hs)@) + opt_header(name@, ostr(*v)),
{
    match v {
        Some(x) => {
            hs.push(SipHeader { name: name.to_string(), value: x.clone() });
            assert(headers_view(final(hs)@) =~= headers_view(old(hs)@) + opt_header(name@, ostr(*v)));
        },
        None => {
            assert(headers_view(final(hs)@) =~= headers_view(old(hs)@) + opt_header(name@, ostr(*v)));
        },
    }
}

} // verus!

verus! {

/// The builder once the request URI `s` is set.
pub open spec fn with_uri(b: RequestBuilderView, s: Seq<char>) -> RequestBuilderView {
    match sip_uri_text(s) {
        Ok(t) => RequestBuilderView { uri: Some(t), uri_error: None, ..b },
        Err(e) => RequestBuilderView { uri_error: Some(uri_error_text("request"@, s, e)), ..b },
    }
}

/// The builder once the From URI `s` and tag are set.
pub open spec fn with_from(b: RequestBuilderView, s: Seq<char>, tag: Seq<char>) -> RequestBuilderView {
    match sip_uri_text(s) {
        Ok(t) => RequestBuilderView { from_uri: Some(t), from_uri_error: None, from_tag: Some(tag), ..b },
        Err(e) => RequestBuilderView { from_uri_error: Some(uri_error_text("From"@, s, e)), from_tag: Some(tag), ..b },
    }
}

/// The builder once the To URI `s` is set.
pub open spec fn with_to(b: RequestBuilderView, s: Seq<char>) -> RequestBuilderView {
    match sip_uri_text(s) {
        Ok(t) => RequestBuilderView { to_uri: Some(t), to_uri_error: None, ..b },
        Err(e) => RequestBuilderView { to_uri_error: Some(uri_error_text("To"@, s, e)), ..b },
    }
}

/// The builder once the Contact URI `s` is set.
pub open spec fn with_contact(b: RequestBuilderView, s: Seq<char>) -> RequestBuilderView {
    match sip_uri_text(s) {
        Ok(t) => RequestBuilderView { contact_uri: Some(t), ..b },
        Err(_) => b,
    }
}

impl SipRequestBuilder {
    /// Create a new builder.
    pub fn new() -> (b: Self)
        ensures
            b@ == empty_request_builder(),
    {
        SipRequestBuilder {
            method: None,
            uri: None,
            uri_error: None,
            via_branch: None,
            via_host: None,
            via_port: None,
            via_transport: None,
            from_uri: None,
            from_uri_error: None,
            from_tag: None,
            from_display: None,
            to_uri: None,
            to_uri_error: None,
            to_tag: None,
            call_id: None,
            cseq: None,
            contact_uri: None,
            max_forwards: None,
            body: None,
            content_type: None,
            authorization: None,
            proxy_authorization: None,
            expires: None,
        }
    }

    /// Set the method (a request carries `Other` as `INVITE`).
    pub fn method(self, method: Method) -> (b: Self)
        ensures
            b@ == (RequestBuilderView { method: Some(wire_method(method)), ..self@ }),
    {
        let mut s = self;
        s.method = Some(
            match method {
                Method::Other => Method::Invite,
                m => m,
            },
        );
        s
    }

    /// Set the request URI. A URI that `rsip` does not read is an error that `build` reports.
    pub fn uri(self, uri: &str) -> (b: Self)
        ensures
            b@ == with_uri(self@, uri@),
    {
        let mut s = self;
        match parse_uri(uri) {
            Ok(u) => {
                s.uri = Some(u);
                s.uri_error = None;
            },
            Err(e) => {
                s.uri_error = Some(uri_error("request", uri, &e));
            },
        }
        s
    }

    /// Set the Via header.
    pub fn via(self, host: &str, port: u16, transport: &str, branch: &str) -> (b: Self)
        ensures
            b@ == (RequestBuilderView {
                via_host: Some(host@),
                via_port: Some(port),
                via_transport: Some(transport@),
                via_branch: Some(branch@),
                ..self@
            }),
    {
        let mut s = self;
        s.via_host = Some(host.to_string());
        s.via_port = Some(port);
        s.via_transport = Some(transport.to_string());
        s.via_branch = Some(branch.to_string());
        s
    }

    /// Set the From header. A URI that `rsip` does not read is an error that `build` reports.
    pub fn from(self, uri: &str, tag: &str) -> (b: Self)
        ensures
            b@ == with_from(self@, uri@, tag@),
    {
        let mut s = self;
        match parse_uri(uri) {
            Ok(u) => {
                s.from_uri = Some(u);
                s.from_uri_error = None;
            },
            Err(e) => {
                s.from_uri_error = Some(uri_error("From", uri, &e));
            },
        }
        s.from_tag = Some(tag.to_string());
        s
    }

    /// Set the From display name.
    pub fn from_display(self, name: &str) -> (b: Self)
        ensures
            b@ == (RequestBuilderView { from_display: Some(name@), ..self@ }),
    {
        let mut s = self;
        s.from_display = Some(name.to_string());
        s
    }

    /// Set the To header. A URI that `rsip` does not read is an error that `build` reports.
    pub fn to(self, uri: &str) -> (b: Self)
        ensures
            b@ == with_to(self@, uri@),
    {
        let mut s = self;
        match parse_uri(uri) {
            Ok(u) => {
                s.to_uri = Some(u);
                s.to_uri_error = None;
            },
            Err(e) => {
                s.to_uri_error = Some(uri_error("To", uri, &e));
            },
        }
        s
    }

    /// Set the To tag.
    pub fn to_tag(self, tag: &str) -> (b: Self)
        ensures
            b@ == (RequestBuilderView { to_tag: Some(tag@), ..self@ }),
    {
        let mut s = self;
        s.to_tag = Some(tag.to_string());
        s
    }

    /// Set the Call-ID.
    pub fn call_id(self, call_id: &str) -> (b: Self)
        ensures
            b@ == (RequestBuilderView { call_id: Some(call_id@), ..self@ }),
    {
        let mut s = self;
        s.call_id = Some(call_id.to_string());
        s
    }

    /// Set the CSeq.
    pub fn cseq(self, seq: u32) -> (b: Self)
        ensures
            b@ == (RequestBuilderView { cseq: Some(seq), ..self@ }),
    {
        let mut s = self;
        s.cseq = Some(seq);
        s
    }

    /// Set the Contact header; a URI that `rsip` does not read is ignored.
    pub fn contact(self, uri: &str) -> (b: Self)
        ensures
            b@ == with_contact(self@, uri@),
    {
        let mut s = self;
        match parse_uri(uri) {
            Ok(u) => {
                s.contact_uri = Some(u);
            },
            Err(_) => {},
        }
        s
    }

    /// Set Max-Forwards.
    pub fn max_forwards(self, mf: u32) -> (b: Self)
        ensures
            b@ == (RequestBuilderView { max_forwards: Some(mf), ..self@ }),
    {
        let mut s = self;
        s.max_forwards = Some(mf);
        s
    }

    /// Set the body and its content type.
    pub fn body(self, body: Vec<u8>, content_type: &str) -> (b: Self)
        ensures
            b@ == (RequestBuilderView { body: Some(body@), content_type: Some(content_type@), ..self@ }),
    {
        let mut s = self;
        s.body = Some(body);
        s.content_type = Some(content_type.to_string());
        s
    }

    /// Set the Authorization header for digest authentication.
    pub fn authorization(self, auth: &str) -> (b: Self)
        ensures
            b@ == (RequestBuilderView { authorization: Some(auth@), ..self@ }),
    {
        let mut s = self;
        s.authorization = Some(auth.to_string());
        s
    }

    /// Set the Proxy-Authorization header for proxy digest authentication.
    pub fn proxy_authorization(self, auth: &str) -> (b: Self)
        ensures
            b@ == (RequestBuilderView { proxy_authorization: Some(auth@), ..self@ }),
    {
        let mut s = self;
        s.proxy_authorization = Some(auth.to_string());
        s
    }

    /// Set the Expires header (used for REGISTER).
    pub fn expires(self, seconds: u32) -> (b: Self)
        ensures
            b@ == (RequestBuilderView { expires: Some(seconds), ..self@ }),
    {
        let mut s = self;
        s.expires = Some(seconds);
        s
    }
}

} // verus!

verus! {

fn via_text(transport: &str, host: &str, port: u16, branch: &str) -> (v: Vec<char>)
    ensures
        v@ == via_value(transport@, host@, port, branch@),
{
    let mut v: Vec<char> = Vec::new();
    push_str(&mut v, "SIP/2.0/");
    push_str(&mut v, transport);
    v.push(' ');
    push_str(&mut v, host);
    v.push(':');
    push_dec(&mut v, port as u64);
    push_str(&mut v, ";branch=");
    push_str(&mut v, branch);
    v
}

fn from_text(display: &Option<String>, uri: &str, tag: &str) -> (v: Vec<char>)
    ensures
        v@ == from_value(ostr(*display), uri@, tag@),
{
    let mut v: Vec<char> = Vec::new();
    match display {
        Some(d) => {
            v.push('"');
            push_str(&mut v, d.as_str());
            push_str(&mut v, "\" <");
        },
        None => v.push('<'),
    }
    push_str(&mut v, uri);
    push_str(&mut v, ">;tag=");
    push_str(&mut v, tag);
    v
}

fn to_text(uri: &str, tag: &Option<String>) -> (v: Vec<char>)
    ensures
        v@ == to_value(uri@, ostr(*tag)),
{
    let mut v: Vec<char> = Vec::new();
    v.push('<');
    push_str(&mut v, uri);
    match tag {
        Some(t) => {
            push_str(&mut v, ">;tag=");
            push_str(&mut v, t.as_str());
        },
        None => v.push('>'),
    }
    v
}

fn dec_chars(n: u64) -> (v: Vec<char>)
    ensures
        v@ == dec(n as nat),
{
    let mut v: Vec<char> = Vec::new();
    push_dec(&mut v, n);
    v
}

fn invalid(t: String) -> (e: Error)
    ensures
        is_invalid_header(e, t@),
{
    Error::Sip(SipError::InvalidHeader(t))
}

impl SipRequestBuilder {
    /// Build the request; the errors are `InvalidHeader`, checked in the order of
    /// `request_built`.
    #[verifier::rlimit(60)]
    #[verifier::spinoff_prover]
    pub fn build(self) -> (r: Result<SipRequest, Error>)
        ensures
            match request_built(self@) {
                Ok(q) => r matches Ok(x) && x@ == q,
                Err(t) => r matches Err(e) && is_invalid_header(e, t),
            },
    {
        let ghost b = self@;
        if let Some(e) = self.uri_error {
            return Err(invalid(e));
        }
        if let Some(e) = self.from_uri_error {
            return Err(invalid(e));
        }
        if let Some(e) = self.to_uri_error {
            return Err(invalid(e));
        }
        let method = match self.method {
            Some(m) => m,
            None => return Err(invalid("Missing method".to_string())),
        };
        let uri = match self.uri {
            Some(u) => u,
            None => return Err(invalid("Missing request URI".to_string())),
        };
        let from_uri = match self.from_uri {
            Some(u) => u,
            None => return Err(invalid("Missing From URI".to_string())),
        };
        let from_tag = match self.from_tag {
            Some(t) => t,
            None => return Err(invalid("Missing From tag".to_string())),
        };
        let to_uri = match self.to_uri {
            Some(u) => u,
            None => return Err(invalid("Missing To URI".to_string())),
        };
        let call_id = match self.call_id {
            Some(c) => c,
            None => return Err(invalid("Missing Call-ID".to_string())),
        };
        let cseq = match self.cseq {
            Some(c) => c,
            None => return Err(invalid("Missing CSeq".to_string())),
        };
        let via_host = match self.via_host {
            Some(h) => h,
            None => return Err(invalid("Missing Via host".to_string())),
        };
        let via_branch = match self.via_branch {
            Some(h) => h,
            None => return Err(invalid("Missing Via branch".to_string())),
        };
        let body = match self.body {
            Some(x) => x,
            None => Vec::new(),
        };
        let headers = request_headers(
            &self.via_transport,
            self.via_port,
            self.max_forwards,
            &self.from_display,
            &self.to_tag,
            &self.contact_uri,
            &self.authorization,
            &self.proxy_authorization,
            self.expires,
            &self.content_type,
            method,
            &from_uri,
            &from_tag,
            &to_uri,
            &call_id,
            cseq,
            &via_host,
            &via_branch,
            body.len(),
            Ghost(b),
        );
        Ok(SipRequest { method, uri, version: "SIP/2.0".to_string(), headers, body })
    }
}

/// The header list that `build` writes.
#[verifier::rlimit(60)]
#[verifier::spinoff_prover]
fn request_headers(
    via_transport: &Option<String>,
    via_port: Option<u16>,
    max_forwards: Option<u32>,
    from_display: &Option<String>,
    to_tag: &Option<String>,
    contact_uri: &Option<String>,
    authorization: &Option<String>,
    proxy_authorization: &Option<String>,
    expires: Option<u32>,
    content_type: &Option<String>,
    method: Method,
    from_uri: &String,
    from_tag: &String,
    to_uri: &String,
    call_id: &String,
    cseq: u32,
    via_host: &String,
    via_branch: &String,
    body_len: usize,
    Ghost(b): Ghost<RequestBuilderView>,
) -> (hs: Vec<SipHeader>)
    requires
        b.via_transport == ostr(*via_transport),
        b.via_port == via_port,
        b.max_forwards == max_forwards,
        b.from_display == ostr(*from_display),
        b.to_tag == ostr(*to_tag),
        b.contact_uri == ostr(*contact_uri),
        b.authorization == ostr(*authorization),
        b.proxy_authorization == ostr(*proxy_authorization),
        b.expires == expires,
        b.content_type == ostr(*content_type),
    ensures
        forall|body: Seq<u8>| body.len() == body_len ==> headers_view(hs@) == built_request_headers(
            b,
            method,
            from_uri@,
            from_tag@,
            to_uri@,
            call_id@,
            cseq,
            via_host@,
            via_branch@,
            body,
        ),
{
    let mut hs: Vec<SipHeader> = Vec::new();
    let transport = match via_transport {
        Some(t) => t.clone(),
        None => "UDP".to_string(),
    };
    let port = match via_port {
        Some(p) => p,
        None => 5060,
    };
    let vt = via_text(transport.as_str(), via_host.as_str(), port, via_branch.as_str());
    push_header(&mut hs, "Via", &vt);
    assert(headers_view(hs@) =~= seq![("Via"@, vt@)]);
    let ft = from_text(from_display, from_uri.as_str(), from_tag.as_str());
    push_header(&mut hs, "From", &ft);
    let tt = to_text(to_uri.as_str(), to_tag);
    push_header(&mut hs, "To", &tt);
    assert(headers_view(hs@) =~= seq![("Via"@, vt@), ("From"@, ft@), ("To"@, tt@)]);
    let ci = chars_of(call_id.as_str());
    push_header(&mut hs, "Call-ID", &ci);
    let mut cs = dec_chars(cseq as u64);
    cs.push(' ');
    push_str(&mut cs, method.as_str());
    push_header(&mut hs, "CSeq", &cs);
    let mf = match max_forwards {
        Some(m) => m,
        None => 70,
    };
    let mt = dec_chars(mf as u64);
    push_header(&mut hs, "Max-Forwards", &mt);
    assert(headers_view(hs@) =~= seq![("Via"@, vt@), ("From"@, ft@), ("To"@, tt@), ("Call-ID"@, ci@), ("CSeq"@, cs@), ("Max-Forwards"@, mt@)]);
    let ghost fixed = headers_view(hs@);
    let contact: Option<String> = match contact_uri {
        Some(c) => {
            let mut t: Vec<char> = Vec::new();
            t.push('<');
            push_str(&mut t, c.as_str());
            t.push('>');
            Some(string_of(t.as_slice()))
        },
        None => None,
    };
    push_opt_header(&mut hs, "Contact", &contact);
    push_opt_header(&mut hs, "Authorization", authorization);
    push_opt_header(&mut hs, "Proxy-Authorization", proxy_authorization);
    let exp: Option<String> = match expires {
        Some(e) => Some(string_of(dec_chars(e as u64).as_slice())),
        None => None,
    };
    push_opt_header(&mut hs, "Expires", &exp);
    let ct: Option<String> = if body_len > 0 {
        match content_type {
            Some(c) => Some(c.clone()),
            None => None,
        }
    } else {
        None
    };
    push_opt_header(&mut hs, "Content-Type", &ct);
    push_header(&mut hs, "Content-Length", &dec_chars(body_len as u64));
    proof {
        assert forall|body: Seq<u8>| body.len() == body_len implies headers_view(hs@) == built_request_headers(
            b,
            method,
            from_uri@,
            from_tag@,
            to_uri@,
            call_id@,
            cseq,
            via_host@,
            via_branch@,
            body,
        ) by {
            assert(transport@ == match b.via_transport {
                Some(t) => t,
                None => "UDP"@,
            });
            assert(vt@ == via_value(transport@, via_host@, port, via_branch@));
            assert(ft@ == from_value(b.from_display, from_uri@, from_tag@));
            assert(tt@ == to_value(to_uri@, b.to_tag));
            assert(ci@ == call_id@);
            assert(cs@ == dec(cseq as nat) + seq![' '] + method_name(method));
            assert(mt@ == dec(mf as nat));
            assert(fixed =~= seq![
                ("Via"@, via_value(transport@, via_host@, port, via_branch@)),
                ("From"@, from_value(b.from_display, from_uri@, from_tag@)),
                ("To"@, to_value(to_uri@, b.to_tag)),
                ("Call-ID"@, call_id@),
                ("CSeq"@, dec(cseq as nat) + seq![' '] + method_name(method)),
                ("Max-Forwards"@, dec(mf as nat)),
            ]);
            assert(ostr(contact) == match b.contact_uri {
                Some(c) => Some(seq!['<'] + c + seq!['>']),
                None => None::<Seq<char>>,
            });
            assert(ostr(exp) == match b.expires {
                Some(e) => Some(dec(e as nat)),
                None => None::<Seq<char>>,
            });
            assert(ostr(ct) == if body.len() > 0 { b.content_type } else { None });
            assert(headers_view(hs@) == fixed + opt_header("Contact"@, ostr(contact)) + opt_header(
                "Authorization"@,
                b.authorization,
            ) + opt_header("Proxy-Authorization"@, b.proxy_authorization) + opt_header("Expires"@, ostr(exp))
                + opt_header("Content-Type"@, ostr(ct)) + seq![("Content-Length"@, dec(body.len()))]);
            assert(headers_view(hs@) =~= built_request_headers(
                b,
                method,
                from_uri@,
                from_tag@,
                to_uri@,
                call_id@,
                cseq,
                via_host@,
                via_branch@,
                body,
            ));
        }
    }
    hs
}

} // verus!

verus! {

/// Whether `p` occurs in `s`.
pub open spec fn contains_text(s: Seq<char>, p: Seq<char>) -> bool {
    exists|i: int| 0 <= i && i + p.len() <= s.len() && #[trigger] s.subrange(i, i + p.len()) == p
}

/// Whether `p` occurs in `s` (`str::contains`).
fn contains_str(s: &str, p: &str) -> (b: bool)
    ensures
        b == contains_text(s@, p@),
{
    let v = chars_of(s);
    let w = chars_of(p);
    if w.len() > v.len() {
        return false;
    }
    let last = v.len() - w.len();
    let mut i: usize = 0;
    while i < last
        invariant
            w.len() <= v.len(),
            last == v.len() - w.len(),
            i <= last,
            v@ == s@,
            w@ == p@,
            forall|j: int| 0 <= j < i ==> #[trigger] v@.subrange(j, j + w@.len()) != w@,
        decreases last - i,
    {
        if crate::text::range_eq(v.as_slice(), i, i + w.len(), w.as_slice()) {
            return true;
        }
        i += 1;
    }
    if crate::text::range_eq(v.as_slice(), last, v.len(), w.as_slice()) {
        assert(v@.subrange(last as int, last + w@.len()) == w@);
        return true;
    }
    assert forall|j: int| 0 <= j && j + w@.len() <= v@.len() implies #[trigger] v@.subrange(j, j + w@.len()) != w@ by {
        if j < last {
        } else {
            assert(j == last);
        }
    }
    false
}

/// Builder for SIP responses.
#[derive(Debug, Default)]
pub struct SipResponseBuilder {
    status_code: Option<u16>,
    reason: Option<String>,
    via: Vec<String>,
    from: Option<String>,
    to: Option<String>,
    call_id: Option<String>,
    cseq: Option<String>,
    contact_uri: Option<String>,
    body: Option<Vec<u8>>,
    content_type: Option<String>,
}

/// A response builder as plain values.
pub struct ResponseBuilderView {
    pub status_code: Option<u16>,
    pub reason: Option<Seq<char>>,
    pub via: Seq<Seq<char>>,
    pub from: Option<Seq<char>>,
    pub to: Option<Seq<char>>,
    pub call_id: Option<Seq<char>>,
    pub cseq: Option<Seq<char>>,
    pub contact_uri: Option<Seq<char>>,
    pub body: Option<Seq<u8>>,
    pub content_type: Option<Seq<char>>,
}

impl View for SipResponseBuilder {
    type V = ResponseBuilderView;

    closed spec fn view(&self) -> ResponseBuilderView {
        ResponseBuilderView {
            status_code: self.status_code,
            reason: ostr(self.reason),
            via: Seq::new(self.via@.len(), |i: int| self.via@[i]@),
            from: ostr(self.from),
            to: ostr(self.to),
            call_id: ostr(self.call_id),
            cseq: ostr(self.cseq),
            contact_uri: ostr(self.contact_uri),
            body: match self.body {
                Some(b) => Some(b@),
                None => None,
            },
            content_type: ostr(self.content_type),
        }
    }
}

/// The display text of the first header named `name`, if there is one.
pub open spec fn first_header_text(hs: Seq<(Seq<char>, Seq<char>)>, name: Seq<char>) -> Option<Seq<char>> {
    match header_value(hs, name) {
        Some(v) => Some(header_text((name, v))),
        None => None,
    }
}

/// Keeps `old` where `new` is `None`.
pub open spec fn or_keep(new: Option<Seq<char>>, old: Option<Seq<char>>) -> Option<Seq<char>> {
    match new {
        Some(x) => Some(x),
        None => old,
    }
}

/// The headers of a response that a builder makes, in order.
pub open spec fn built_response_headers(b: ResponseBuilderView, body: Seq<u8>) -> Seq<(Seq<char>, Seq<char>)> {
    Seq::new(b.via.len(), |i: int| ("Via"@, b.via[i])) + opt_header("From"@, b.from) + opt_header("To"@, b.to)
        + opt_header("Call-ID"@, b.call_id) + opt_header("CSeq"@, b.cseq) + opt_header("Contact"@, match b.contact_uri {
        Some(c) => Some(seq!['<'] + c + seq!['>']),
        None => None,
    }) + opt_header("Content-Type"@, if body.len() > 0 { b.content_type } else { None }) + seq![
        ("Content-Length"@, dec(body.len())),
    ]
}

/// What building a response gives: the response, or the text of the `InvalidHeader` error.
pub open spec fn response_built(b: ResponseBuilderView) -> Result<ResponseView, Seq<char>> {
    match b.status_code {
        None => Err("Missing status code"@),
        Some(code) => {
            let body = match b.body {
                Some(x) => x,
                None => Seq::empty(),
            };
            Ok(ResponseView {
                status_code: code,
                status_text: sip_status_text(code),
                version: "SIP/2.0"@,
                headers: built_response_headers(b, body),
                body,
            })
        },
    }
}

fn header_text_of(name: &str, v: &String) -> (t: String)
    ensures
        t@ == header_text((name@, v@)),
{
    let mut c: Vec<char> = Vec::new();
    push_str(&mut c, name);
    push_str(&mut c, ": ");
    push_str(&mut c, v.as_str());
    string_of(c.as_slice())
}

fn first_text_of(hs: &Vec<SipHeader>, name: &str) -> (r: Option<String>)
    ensures
        ostr(r) == first_header_text(headers_view(hs@), name@),
{
    match header_value_of(hs, name) {
        Some(v) => Some(header_text_of(name, v)),
        None => None,
    }
}

impl SipResponseBuilder {
    /// Create a new builder.
    pub fn new() -> (b: Self)
        ensures
            b@ == (ResponseBuilderView {
                status_code: None,
                reason: None,
                via: Seq::empty(),
                from: None,
                to: None,
                call_id: None,
                cseq: None,
                contact_uri: None,
                body: None,
                content_type: None,
            }),
    {
        let b = SipResponseBuilder {
            status_code: None,
            reason: None,
            via: Vec::new(),
            from: None,
            to: None,
            call_id: None,
            cseq: None,
            contact_uri: None,
            body: None,
            content_type: None,
        };
        assert(b@.via =~= Seq::<Seq<char>>::empty());
        b
    }

    /// Set the status code and reason (the reason on the wire is the one `rsip` gives for the
    /// code).
    pub fn status(self, code: u16, reason: &str) -> (b: Self)
        ensures
            b@ == (ResponseBuilderView { status_code: Some(code), reason: Some(reason@), ..self@ }),
    {
        let mut s = self;
        s.status_code = Some(code);
        s.reason = Some(reason.to_string());
        s
    }

    /// Copy headers from a request: every Via header, and the first From, To and CSeq headers,
    /// each as it is displayed (`Name: value`), and the Call-ID value.
    pub fn from_request(self, req: &SipRequest) -> (b: Self)
        ensures
            b@ == (ResponseBuilderView {
                via: self@.via + header_texts(req@.headers, "Via"@),
                from: or_keep(first_header_text(req@.headers, "From"@), self@.from),
                to: or_keep(first_header_text(req@.headers, "To"@), self@.to),
                call_id: or_keep(header_value(req@.headers, "Call-ID"@), self@.call_id),
                cseq: or_keep(first_header_text(req@.headers, "CSeq"@), self@.cseq),
                ..self@
            }),
    {
        let ghost old_via = self@.via;
        let SipResponseBuilder { status_code, reason, via, from, to, call_id, cseq, contact_uri, body, content_type } =
            self;
        let mut via = via;
        let vias = header_texts_in(&req.headers, "Via");
        let mut i: usize = 0;
        while i < vias.len()
            invariant
                i <= vias.len(),
                Seq::new(via@.len(), |k: int| via@[k]@) == old_via + Seq::new(vias@.len(), |k: int| vias@[k]@).take(
                    i as int,
                ),
            decreases vias.len() - i,
        {
            let ghost before = Seq::new(via@.len(), |k: int| via@[k]@);
            let c = vias[i].clone();
            via.push(c);
            assert(Seq::new(via@.len(), |k: int| via@[k]@) =~= before.push(vias@[i as int]@));
            assert(Seq::new(vias@.len(), |k: int| vias@[k]@).take(i + 1) =~= Seq::new(vias@.len(), |k: int| vias@[k]@).take(
                i as int,
            ).push(vias@[i as int]@));
            i += 1;
        }
        assert(Seq::new(vias@.len(), |k: int| vias@[k]@).take(vias.len() as int) =~= Seq::new(vias@.len(), |k: int| vias@[k]@));
        let from = match first_text_of(&req.headers, "From") {
            Some(f) => Some(f),
            None => from,
        };
        let to = match first_text_of(&req.headers, "To") {
            Some(t) => Some(t),
            None => to,
        };
        let call_id = match header_value_of(&req.headers, "Call-ID") {
            Some(c) => Some(c.clone()),
            None => call_id,
        };
        let cseq = match first_text_of(&req.headers, "CSeq") {
            Some(c) => Some(c),
            None => cseq,
        };
        SipResponseBuilder { status_code, reason, via, from, to, call_id, cseq, contact_uri, body, content_type }
    }

    /// Set the To tag: appended as `;tag=...` unless the To header already has one.
    pub fn to_tag(self, tag: &str) -> (b: Self)
        ensures
            match self@.to {
                Some(t) => if contains_text(t, "tag="@) {
                    b@ == self@
                } else {
                    b@ == (ResponseBuilderView { to: Some(t + ";tag="@ + tag@), ..self@ })
                },
                None => b@ == self@,
            },
    {
        let mut s = self;
        let new_to = match &s.to {
            Some(t) => if contains_str(t.as_str(), "tag=") {
                None
            } else {
                let mut c: Vec<char> = Vec::new();
                push_str(&mut c, t.as_str());
                push_str(&mut c, ";tag=");
                push_str(&mut c, tag);
                Some(string_of(c.as_slice()))
            },
            None => None,
        };
        match new_to {
            Some(t) => s.to = Some(t),
            None => {},
        }
        s
    }

    /// Set the Contact header; a URI that `rsip` does not read is ignored.
    pub fn contact(self, uri: &str) -> (b: Self)
        ensures
            match sip_uri_text(uri@) {
                Ok(t) => b@ == (ResponseBuilderView { contact_uri: Some(t), ..self@ }),
                Err(_) => b@ == self@,
            },
    {
        let mut s = self;
        match parse_uri(uri) {
            Ok(u) => s.contact_uri = Some(u),
            Err(_) => {},
        }
        s
    }

    /// Set the body and its content type.
    pub fn body(self, body: Vec<u8>, content_type: &str) -> (b: Self)
        ensures
            b@ == (ResponseBuilderView { body: Some(body@), content_type: Some(content_type@), ..self@ }),
    {
        let mut s = self;
        s.body = Some(body);
        s.content_type = Some(content_type.to_string());
        s
    }

    /// Build the response.
    #[verifier::rlimit(40)]
    pub fn build(self) -> (r: Result<SipResponse, Error>)
        ensures
            match response_built(self@) {
                Ok(p) => r matches Ok(x) && x@ == p,
                Err(t) => r matches Err(e) && is_invalid_header(e, t),
            },
    {
        let ghost b = self@;
        let code = match self.status_code {
            Some(c) => c,
            None => return Err(invalid("Missing status code".to_string())),
        };
        let body = match self.body {
            Some(x) => x,
            None => Vec::new(),
        };
        let mut hs: Vec<SipHeader> = Vec::new();
        let mut i: usize = 0;
        while i < self.via.len()
            invariant
                i <= self.via.len(),
                b.via == Seq::new(self.via@.len(), |k: int| self.via@[k]@),
                headers_view(hs@) == Seq::new(i as nat, |k: int| ("Via"@, b.via[k])),
            decreases self.via.len() - i,
        {
            let v = chars_of(self.via[i].as_str());
            push_header(&mut hs, "Via", &v);
            assert(headers_view(hs@) =~= Seq::new((i + 1) as nat, |k: int| ("Via"@, b.via[k])));
            i += 1;
        }
        let ghost vias = headers_view(hs@);
        push_opt_header(&mut hs, "From", &self.from);
        push_opt_header(&mut hs, "To", &self.to);
        push_opt_header(&mut hs, "Call-ID", &self.call_id);
        push_opt_header(&mut hs, "CSeq", &self.cseq);
        let contact: Option<String> = match &self.contact_uri {
            Some(c) => {
                let mut t: Vec<char> = Vec::new();
                t.push('<');
                push_str(&mut t, c.as_str());
                t.push('>');
                Some(string_of(t.as_slice()))
            },
            None => None,
        };
        push_opt_header(&mut hs, "Contact", &contact);
        let ct: Option<String> = if body.len() > 0 {
            match &self.content_type {
                Some(c) => Some(c.clone()),
                None => None,
            }
        } else {
            None
        };
        push_opt_header(&mut hs, "Content-Type", &ct);
        push_header(&mut hs, "Content-Length", &dec_chars(body.len() as u64));
        proof {
            assert(vias =~= Seq::new(b.via.len(), |k: int| ("Via"@, b.via[k])));
            assert(ostr(contact) == match b.contact_uri {
                Some(c) => Some(seq!['<'] + c + seq!['>']),
                None => None::<Seq<char>>,
            });
            assert(ostr(ct) == if body@.len() > 0 { b.content_type } else { None });
            assert(headers_view(hs@) == vias + opt_header("From"@, b.from) + opt_header("To"@, b.to) + opt_header(
                "Call-ID"@,
                b.call_id,
            ) + opt_header("CSeq"@, b.cseq) + opt_header("Contact"@, ostr(contact)) + opt_header(
                "Content-Type"@,
                ostr(ct),
            ) + seq![("Content-Length"@, dec(body@.len()))]);
            assert(headers_view(hs@) =~= built_response_headers(b, body@));
        }
        let text = status_text(code);
        Ok(SipResponse { status_code: code, status_text: text, version: "SIP/2.0".to_string(), headers: hs, body })
    }
}

impl SipRequest {
    /// Create a builder for a new request.
    pub fn builder() -> (b: SipRequestBuilder)
        ensures
            b@ == empty_request_builder(),
    {
        SipRequestBuilder::new()
    }
}

impl SipResponse {
    /// Create a builder for a new response.
    pub fn builder() -> (b: SipResponseBuilder)
        ensures
            b@.status_code is None,
            b@.via.len() == 0,
            b@.from is None && b@.to is None && b@.call_id is None && b@.cseq is None,
            b@.contact_uri is None && b@.body is None && b@.content_type is None,
    {
        SipResponseBuilder::new()
    }
}

} // verus!

verus! {

/// The `branch` of the Via header, when it can be read.
pub open spec fn via_branch_of(hs: Seq<(Seq<char>, Seq<char>)>) -> Option<Seq<char>> {
    match header_value(hs, "Via"@) {
        Some(v) => match sip_via_branch(v) {
            Ok(Some(b)) => Some(b),
            _ => None,
        },
        None => None,
    }
}

/// The `tag` of the From header, when it can be read.
pub open spec fn from_tag_of(hs: Seq<(Seq<char>, Seq<char>)>) -> Option<Seq<char>> {
    match header_value(hs, "From"@) {
        Some(v) => match sip_from_header(v) {
            Ok((_, Some(t))) => Some(t),
            _ => None,
        },
        None => None,
    }
}

/// The URI of the From header, when it can be read.
pub open spec fn from_uri_of(hs: Seq<(Seq<char>, Seq<char>)>) -> Option<Seq<char>> {
    match header_value(hs, "From"@) {
        Some(v) => match sip_from_header(v) {
            Ok((u, _)) => Some(u),
            _ => None,
        },
        None => None,
    }
}

/// The URI of the To header, when it can be read.
pub open spec fn to_uri_of(hs: Seq<(Seq<char>, Seq<char>)>) -> Option<Seq<char>> {
    match header_value(hs, "To"@) {
        Some(v) => match sip_to_header(v) {
            Ok((u, _)) => Some(u),
            _ => None,
        },
        None => None,
    }
}

/// The number and method of the CSeq header, when it can be read.
pub open spec fn cseq_of(hs: Seq<(Seq<char>, Seq<char>)>) -> Option<(u32, Method)> {
    match header_value(hs, "CSeq"@) {
        Some(v) => match sip_cseq(v) {
            Ok((n, m)) => Some((n, method_of_name(m))),
            _ => None,
        },
        None => None,
    }
}

} // verus!
