//! Dialog states and identifiers per RFC 3261.
//!
//! A dialog is a peer-to-peer SIP relationship between two UAs that persists
//! for some time. It facilitates sequencing of messages between the UAs and
//! proper routing of requests between both of them.
use crate::sip::message::{
    cseq_of, from_tag_of, from_uri_of, header_texts, header_value, sip_contact_uri, sip_to_header, to_uri_of, RequestView,
    ResponseView, SipRequest, SipResponse,
};
use crate::text::{
    chars_of, lower, lower_seq, range_eq_lower, split_char, split_char_spans, split_ws, split_ws_spans, string_of,
    trim_copy, trimmed,
};
use vstd::prelude::*;

verus! {

/// The Call-ID of a header list, when present.
pub open spec fn call_id_of(hs: Seq<(Seq<char>, Seq<char>)>) -> Option<Seq<char>> {
    header_value(hs, "Call-ID"@)
}

/// The `tag` of the To header, when it can be read.
pub open spec fn to_tag_of(hs: Seq<(Seq<char>, Seq<char>)>) -> Option<Seq<char>> {
    match header_value(hs, "To"@) {
        Some(v) => match sip_to_header(v) {
            Ok((_, Some(t))) => Some(t),
            _ => None,
        },
        None => None,
    }
}

/// Dialog identifier per RFC 3261: the Call-ID, local tag and remote tag.
#[derive(Debug)]
pub struct DialogId {
    /// Call-ID header value.
    pub call_id: String,
    /// Local tag (From tag for UAC, To tag for UAS).
    pub local_tag: String,
    /// Remote tag (To tag for UAC, From tag for UAS).
    pub remote_tag: String,
}

impl Clone for DialogId {
    fn clone(&self) -> (r: Self)
        ensures
            r == *self,
    {
        DialogId { call_id: self.call_id.clone(), local_tag: self.local_tag.clone(), remote_tag: self.remote_tag.clone() }
    }
}

impl DialogId {
    /// Create a new dialog ID.
    pub fn new(call_id: &str, local_tag: &str, remote_tag: &str) -> (d: Self)
        ensures
            d.call_id@ == call_id@,
            d.local_tag@ == local_tag@,
            d.remote_tag@ == remote_tag@,
    {
        DialogId { call_id: call_id.to_string(), local_tag: local_tag.to_string(), remote_tag: remote_tag.to_string() }
    }

    /// Whether two identifiers name the same dialog.
    pub fn same(&self, other: &DialogId) -> (b: bool)
        ensures
            b == (self.call_id@ == other.call_id@ && self.local_tag@ == other.local_tag@ && self.remote_tag@
                == other.remote_tag@),
    {
        self.call_id == other.call_id && self.local_tag == other.local_tag && self.remote_tag == other.remote_tag
    }

    /// Create a dialog ID from an outgoing request (UAC side), given the remote tag: the
    /// Call-ID and the From tag of the request. None when either cannot be read.
    pub fn from_request_uac(request: &SipRequest, remote_tag: &str) -> (r: Option<Self>)
        ensures
            match (call_id_of(request@.headers), from_tag_of(request@.headers)) {
                (Some(c), Some(t)) => r matches Some(d) && d.call_id@ == c && d.local_tag@ == t
                    && d.remote_tag@ == remote_tag@,
                _ => r is None,
            },
    {
        let call_id = match request.call_id() {
            Ok(c) => c,
            Err(_) => return None,
        };
        let local_tag = match request.from_tag() {
            Ok(t) => t,
            Err(_) => return None,
        };
        Some(DialogId { call_id, local_tag, remote_tag: remote_tag.to_string() })
    }

    /// Create a dialog ID from a response (UAC side): the Call-ID, the From tag as the local
    /// tag and the To tag as the remote tag. None when any of them cannot be read.
    pub fn from_response_uac(response: &SipResponse) -> (r: Option<Self>)
        ensures
            match (call_id_of(response@.headers), from_tag_of(response@.headers), to_tag_of(response@.headers)) {
                (Some(c), Some(l), Some(t)) => r matches Some(d) && d.call_id@ == c && d.local_tag@ == l
                    && d.remote_tag@ == t,
                _ => r is None,
            },
    {
        let call_id = match response.call_id() {
            Ok(c) => c,
            Err(_) => return None,
        };
        let local_tag = match response.from_tag() {
            Ok(t) => t,
            Err(_) => return None,
        };
        let remote_tag = match response.to_tag() {
            Some(t) => t,
            None => return None,
        };
        Some(DialogId { call_id, local_tag, remote_tag })
    }

    /// Create a dialog ID from an incoming request (UAS side), given our local tag: the
    /// Call-ID, and the From tag as the remote tag. None when either cannot be read.
    pub fn from_request_uas(request: &SipRequest, local_tag: &str) -> (r: Option<Self>)
        ensures
            match (call_id_of(request@.headers), from_tag_of(request@.headers)) {
                (Some(c), Some(t)) => r matches Some(d) && d.call_id@ == c && d.local_tag@ == local_tag@
                    && d.remote_tag@ == t,
                _ => r is None,
            },
    {
        let call_id = match request.call_id() {
            Ok(c) => c,
            Err(_) => return None,
        };
        let remote_tag = match request.from_tag() {
            Ok(t) => t,
            Err(_) => return None,
        };
        Some(DialogId { call_id, local_tag: local_tag.to_string(), remote_tag })
    }
}

/// State of a dialog.
#[derive(Debug, Clone, Copy, PartialEq, Eq, Structural)]
pub enum DialogState {
    /// Early dialog - provisional response received but no final response yet.
    Early,
    /// Confirmed dialog - 2xx response received.
    Confirmed,
    /// Dialog is being terminated.
    Terminating,
    /// Dialog has been terminated.
    Terminated,
}

/// The Contact URI of a header list, when it can be read.
pub open spec fn contact_uri_of(hs: Seq<(Seq<char>, Seq<char>)>) -> Option<Seq<char>> {
    match header_value(hs, "Contact"@) {
        Some(v) => sip_contact_uri(v),
        None => None,
    }
}

/// The CSeq number of a header list, when it can be read.
pub open spec fn cseq_num_of(hs: Seq<(Seq<char>, Seq<char>)>) -> Option<u32> {
    match cseq_of(hs) {
        Some((n, _)) => Some(n),
        None => None,
    }
}

/// The transport of a Via header as the messages display it (`Via: SIP/2.0/TLS host...`):
/// the last part of its sent-protocol, when that has three parts.
pub open spec fn via_transport(t: Seq<char>) -> Option<Seq<char>> {
    let v = if "Via:"@.is_prefix_of(t) { t.skip(4) } else { t };
    let words = split_ws(v);
    if words.len() > 0 && split_char(words[0], '/').len() == 3 {
        Some(split_char(words[0], '/')[2])
    } else {
        None
    }
}

/// Whether a message's first Via names the TLS transport (in any letter case).
pub open spec fn secure_via(hs: Seq<(Seq<char>, Seq<char>)>) -> bool {
    let vias = header_texts(hs, "Via"@);
    vias.len() > 0 && match via_transport(vias[0]) {
        Some(p) => lower_seq(p) == "tls"@,
        None => false,
    }
}

/// A Record-Route header as the messages display it (`Record-Route: value`), without its
/// name.
pub open spec fn route_value(v: Seq<char>) -> Seq<char> {
    if "Record-Route:"@.is_prefix_of(v) {
        v.skip(13)
    } else {
        v
    }
}

/// Reading a header value from the left: the entries finished so far, the entry being read,
/// and whether the reader is inside `<...>`, where a comma does not end an entry.
pub open spec fn route_scan(s: Seq<char>) -> (Seq<Seq<char>>, Seq<char>, bool)
    decreases s.len(),
{
    if s.len() == 0 {
        (Seq::empty(), Seq::empty(), false)
    } else {
        let (done, cur, inside) = route_scan(s.drop_last());
        let c = s.last();
        if c == ',' && !inside {
            (done.push(cur), Seq::empty(), false)
        } else if c == '<' {
            (done, cur.push(c), true)
        } else if c == '>' {
            (done, cur.push(c), false)
        } else {
            (done, cur.push(c), inside)
        }
    }
}

/// The comma-separated entries of a header value.
pub open spec fn route_entries(s: Seq<char>) -> Seq<Seq<char>> {
    let (done, cur, _) = route_scan(s);
    done.push(cur)
}

/// The entries, trimmed, with the empty ones left out.
pub open spec fn kept_routes(es: Seq<Seq<char>>) -> Seq<Seq<char>>
    decreases es.len(),
{
    if es.len() == 0 {
        Seq::empty()
    } else {
        let r = kept_routes(es.drop_last());
        let t = trimmed(es.last());
        if t.len() == 0 {
            r
        } else {
            r.push(t)
        }
    }
}

/// The routes that a list of Record-Route headers names, in header order.
pub open spec fn routes_of(vs: Seq<Seq<char>>) -> Seq<Seq<char>>
    decreases vs.len(),
{
    if vs.len() == 0 {
        Seq::empty()
    } else {
        routes_of(vs.drop_last()) + kept_routes(route_entries(route_value(vs.last())))
    }
}

/// Whether a character may follow a parameter name.
pub open spec fn ends_param(c: char) -> bool {
    c == ';' || c == '>' || c == '=' || c == ',' || c == ' ' || c == '\t'
}

/// Whether the `lr` parameter (in any letter case) starts at `r[i]`, the `;` before it.
pub open spec fn lr_at(r: Seq<char>, i: int) -> bool {
    &&& 0 <= i && i + 3 <= r.len()
    &&& r[i] == ';' && lower(r[i + 1]) == 'l' && lower(r[i + 2]) == 'r'
    &&& (i + 3 == r.len() || ends_param(r[i + 3]))
}

/// Whether a route carries the loose-routing parameter `lr`.
pub open spec fn has_lr(r: Seq<char>) -> bool {
    exists|i: int| #[trigger] lr_at(r, i)
}

/// The entries of a header value, as `route_entries` gives them.
fn split_route_entries(v: &[char]) -> (r: Vec<Vec<char>>)
    ensures
        Seq::new(r@.len(), |k: int| r@[k]@) == route_entries(v@),
{
    let mut done: Vec<Vec<char>> = Vec::new();
    let mut cur: Vec<char> = Vec::new();
    let mut inside = false;
    let mut i: usize = 0;
    while i < v.len()
        invariant
            i <= v.len(),
            (Seq::new(done@.len(), |k: int| done@[k]@), cur@, inside) == route_scan(v@.take(i as int)),
        decreases v.len() - i,
    {
        let c = v[i];
        assert(v@.take(i + 1).drop_last() =~= v@.take(i as int));
        assert(v@.take(i + 1).last() == c);
        let ghost before = Seq::new(done@.len(), |k: int| done@[k]@);
        if c == ',' && !inside {
            let finished = cur;
            done.push(finished);
            cur = Vec::new();
            assert(Seq::new(done@.len(), |k: int| done@[k]@) =~= before.push(finished@));
        } else {
            cur.push(c);
            if c == '<' {
                inside = true;
            } else if c == '>' {
                inside = false;
            }
            assert(Seq::new(done@.len(), |k: int| done@[k]@) =~= before);
        }
        i += 1;
    }
    assert(v@.take(v.len() as int) =~= v@);
    let ghost before = Seq::new(done@.len(), |k: int| done@[k]@);
    let last = cur;
    done.push(last);
    assert(Seq::new(done@.len(), |k: int| done@[k]@) =~= before.push(last@));
    done
}

/// Whether a route carries the `lr` parameter.
fn route_has_lr(r: &[char]) -> (b: bool)
    ensures
        b == has_lr(r@),
{
    let n = r.len();
    let mut i: usize = 0;
    while n >= 3 && i <= n - 3
        invariant
            n == r@.len(),
            i <= n,
            forall|j: int| 0 <= j < i ==> !#[trigger] lr_at(r@, j),
        decreases n - i,
    {
        if r[i] == ';' && crate::text::char_lower(r[i + 1]) == 'l' && crate::text::char_lower(r[i + 2]) == 'r' {
            let ends = if i + 3 == n {
                true
            } else {
                let c = r[i + 3];
                c == ';' || c == '>' || c == '=' || c == ',' || c == ' ' || c == '\t'
            };
            if ends {
                assert(lr_at(r@, i as int));
                return true;
            }
        }
        assert(!lr_at(r@, i as int));
        i += 1;
    }
    assert forall|j: int| !#[trigger] lr_at(r@, j) by {
        if !(0 <= j < i) {
            assert(!(0 <= j && j + 3 <= r@.len()));
        }
    }
    false
}

/// Route set for in-dialog requests (RFC 3261 Section 12.2).
#[derive(Debug, Clone)]
pub struct RouteSet {
    /// List of Route URIs (derived from Record-Route headers).
    routes: Vec<String>,
    /// Whether routes use loose routing (have ;lr parameter).
    loose_routing: bool,
}

impl RouteSet {
    /// The routes, in the order requests visit them.
    pub closed spec fn spec_routes(&self) -> Seq<Seq<char>> {
        Seq::new(self.routes@.len(), |i: int| self.routes@[i]@)
    }

    /// Whether the first route routes loosely.
    pub closed spec fn spec_loose(&self) -> bool {
        self.loose_routing
    }

    /// Create an empty route set.
    pub fn new() -> (r: Self)
        ensures
            r.spec_routes() == Seq::<Seq<char>>::empty(),
            !r.spec_loose(),
    {
        let r = RouteSet { routes: Vec::new(), loose_routing: false };
        assert(r.spec_routes() =~= Seq::<Seq<char>>::empty());
        r
    }

    /// Build a route set from Record-Route header values (as the messages display them).
    ///
    /// Each value may name several routes, separated by commas; the routes are kept in header
    /// order, or reversed when `reverse` is set (a UAC reverses them, RFC 3261 Section 12.1.2).
    /// The set routes loosely when its first route, the one a request visits first, carries
    /// the `lr` parameter.
    pub fn from_record_route_values(record_route_values: &[String], reverse: bool) -> (r: Self)
        ensures
            ({
                let rs = routes_of(Seq::new(record_route_values@.len(), |i: int| record_route_values@[i]@));
                r.spec_routes() == (if reverse { rs.reverse() } else { rs })
            }),
            r.spec_loose() == (r.spec_routes().len() > 0 && has_lr(r.spec_routes()[0])),
    {
        let ghost vs = Seq::new(record_route_values@.len(), |i: int| record_route_values@[i]@);
        let mut routes: Vec<String> = Vec::new();
        let mut j: usize = 0;
        while j < record_route_values.len()
            invariant
                j <= record_route_values@.len(),
                vs == Seq::new(record_route_values@.len(), |i: int| record_route_values@[i]@),
                Seq::new(routes@.len(), |k: int| routes@[k]@) == routes_of(vs.take(j as int)),
            decreases record_route_values.len() - j,
        {
            assert(vs.take(j + 1).drop_last() =~= vs.take(j as int));
            assert(vs.take(j + 1).last() == record_route_values@[j as int]@);
            let all = chars_of(record_route_values[j].as_str());
            let prefix = chars_of("Record-Route:");
            proof {
                reveal_strlit("Record-Route:");
            }
            let from: usize = if all.len() >= 13 && crate::text::range_eq(all.as_slice(), 0, 13, prefix.as_slice()) {
                assert(all@.subrange(0, 13) =~= "Record-Route:"@);
                13
            } else {
                proof {
                    if "Record-Route:"@.is_prefix_of(all@) {
                        assert(all@.subrange(0, 13) =~= "Record-Route:"@);
                    }
                }
                0
            };
            let value = crate::text::copy_chars(all.as_slice(), from, all.len());
            assert(value@ =~= route_value(record_route_values@[j as int]@));
            let entries = split_route_entries(value.as_slice());
            let ghost es = Seq::new(entries@.len(), |k: int| entries@[k]@);
            let ghost base = Seq::new(routes@.len(), |k: int| routes@[k]@);
            let mut e: usize = 0;
            while e < entries.len()
                invariant
                    e <= entries@.len(),
                    es == Seq::new(entries@.len(), |k: int| entries@[k]@),
                    Seq::new(routes@.len(), |k: int| routes@[k]@) == base + kept_routes(es.take(e as int)),
                decreases entries.len() - e,
            {
                assert(es.take(e + 1).drop_last() =~= es.take(e as int));
                assert(es.take(e + 1).last() == entries@[e as int]@);
                let ghost before = Seq::new(routes@.len(), |k: int| routes@[k]@);
                let t = trim_copy(entries[e].as_slice(), 0, entries[e].len());
                assert(entries@[e as int]@.subrange(0, entries@[e as int]@.len() as int) =~= entries@[e as int]@);
                if t.len() > 0 {
                    let st = string_of(t.as_slice());
                    routes.push(st);
                    assert(Seq::new(routes@.len(), |k: int| routes@[k]@) =~= before.push(st@));
                } else {
                    assert(Seq::new(routes@.len(), |k: int| routes@[k]@) =~= before);
                }
                e += 1;
            }
            assert(es.take(es.len() as int) =~= es);
            assert(base + kept_routes(es) =~= routes_of(vs.take(j + 1)));
            j += 1;
        }
        assert(vs.take(vs.len() as int) =~= vs);
        let ghost rs = routes_of(vs);
        assert(Seq::new(routes@.len(), |i: int| routes@[i]@).take(routes@.len() as int) =~= Seq::new(routes@.len(), |i: int| routes@[i]@));
        let out: Vec<String> = if reverse {
            let n = routes.len();
            let mut rev: Vec<String> = Vec::new();
            while routes.len() > 0
                invariant
                    n == routes@.len() + rev@.len(),
                    rs.len() == n,
                    Seq::new(routes@.len(), |i: int| routes@[i]@) == rs.take(routes@.len() as int),
                forall|i: int| 0 <= i < rev@.len() ==> #[trigger] rev@[i]@ == rs[n - 1 - i],
                decreases routes.len(),
            {
                let ghost m = routes@.len();
                assert(Seq::new(routes@.len(), |i: int| routes@[i]@)[m - 1] == rs.take(m as int)[m - 1]);
                let item = routes.pop().unwrap();
                assert(item@ == rs[m - 1]);
                rev.push(item);
                assert(Seq::new(routes@.len(), |i: int| routes@[i]@) =~= rs.take(routes@.len() as int));
            }
            assert(Seq::new(rev@.len(), |i: int| rev@[i]@) =~= rs.reverse());
            rev
        } else {
            routes
        };
        let loose = if out.len() > 0 {
            let first = chars_of(out[0].as_str());
            route_has_lr(first.as_slice())
        } else {
            false
        };
        let ghost outv = Seq::new(out@.len(), |i: int| out@[i]@);
        let r = RouteSet { routes: out, loose_routing: loose };
        assert(r.spec_routes() =~= outv);
        r
    }

    /// Get the routes as string values.
    pub fn routes(&self) -> (r: &[String])
        ensures
            Seq::new(r@.len(), |i: int| r@[i]@) == self.spec_routes(),
    {
        let r = self.routes.as_slice();
        assert(Seq::new(r@.len(), |i: int| r@[i]@) =~= self.spec_routes());
        r
    }

    /// Check if the route set is empty.
    pub fn is_empty(&self) -> (b: bool)
        ensures
            b == (self.spec_routes().len() == 0),
    {
        self.routes.len() == 0
    }

    /// Check if the route set uses loose routing.
    pub fn is_loose_routing(&self) -> (b: bool)
        ensures
            b == self.spec_loose(),
    {
        self.loose_routing
    }

    /// Get the number of routes.
    pub fn len(&self) -> (n: usize)
        ensures
            n == self.spec_routes().len(),
    {
        self.routes.len()
    }
}

impl Default for RouteSet {
    fn default() -> (r: Self)
        ensures
            r.spec_routes() == Seq::<Seq<char>>::empty(),
            !r.spec_loose(),
    {
        RouteSet::new()
    }
}

/// Dialog state information.
#[derive(Debug, Clone)]
pub struct DialogInfo {
    /// Dialog ID.
    pub id: DialogId,
    /// Current state.
    pub state: DialogState,
    /// Local sequence number (for outgoing requests).
    pub local_seq: u32,
    /// Remote sequence number (for incoming requests).
    pub remote_seq: Option<u32>,
    /// Local URI.
    pub local_uri: String,
    /// Remote URI.
    pub remote_uri: String,
    /// Remote target (Contact URI from peer).
    pub remote_target: String,
    /// Route set.
    pub route_set: RouteSet,
    /// Whether this is a secure dialog (established over TLS).
    pub secure: bool,
}

/// Whether a remote CSeq is in order: the first one seen, or above the last one accepted.
pub open spec fn remote_seq_in_order(current: Option<u32>, seq: u32) -> bool {
    match current {
        None => true,
        Some(c) => seq > c,
    }
}

/// Whether a UAC dialog can be built from an INVITE and a response to it: every part that
/// it is made of can be read.
pub open spec fn uac_info_ready(q: RequestView, p: ResponseView) -> bool {
    &&& call_id_of(p.headers) is Some
    &&& from_tag_of(p.headers) is Some
    &&& to_tag_of(p.headers) is Some
    &&& from_uri_of(q.headers) is Some
    &&& to_uri_of(q.headers) is Some
    &&& contact_uri_of(p.headers) is Some
    &&& cseq_num_of(q.headers) is Some
}

/// Whether `i` is the UAC dialog built from the INVITE `q` and the response `p`.
pub open spec fn is_uac_info(i: DialogInfo, q: RequestView, p: ResponseView, state: DialogState) -> bool {
    let rs = routes_of(header_texts(p.headers, "Record-Route"@));
    &&& i.id.call_id@ == call_id_of(p.headers)->0
    &&& i.id.local_tag@ == from_tag_of(p.headers)->0
    &&& i.id.remote_tag@ == to_tag_of(p.headers)->0
    &&& i.state == state
    &&& i.local_seq == cseq_num_of(q.headers)->0
    &&& i.remote_seq is None
    &&& i.local_uri@ == from_uri_of(q.headers)->0
    &&& i.remote_uri@ == to_uri_of(q.headers)->0
    &&& i.remote_target@ == contact_uri_of(p.headers)->0
    &&& i.route_set.spec_routes() == rs.reverse()
    &&& i.route_set.spec_loose() == (rs.len() > 0 && has_lr(rs.last()))
    &&& i.secure == secure_via(q.headers)
}

/// Whether a UAS dialog can be built from an incoming INVITE.
pub open spec fn uas_info_ready(q: RequestView) -> bool {
    &&& call_id_of(q.headers) is Some
    &&& from_tag_of(q.headers) is Some
    &&& from_uri_of(q.headers) is Some
    &&& to_uri_of(q.headers) is Some
    &&& contact_uri_of(q.headers) is Some
    &&& cseq_num_of(q.headers) is Some
}

/// Whether `i` is the UAS dialog built from the INVITE `q` with our tag `local_tag`.
pub open spec fn is_uas_info(i: DialogInfo, q: RequestView, local_tag: Seq<char>, state: DialogState) -> bool {
    let rs = routes_of(header_texts(q.headers, "Record-Route"@));
    &&& i.id.call_id@ == call_id_of(q.headers)->0
    &&& i.id.local_tag@ == local_tag
    &&& i.id.remote_tag@ == from_tag_of(q.headers)->0
    &&& i.state == state
    &&& i.local_seq == 0
    &&& i.remote_seq == Some(cseq_num_of(q.headers)->0)
    &&& i.local_uri@ == to_uri_of(q.headers)->0
    &&& i.remote_uri@ == from_uri_of(q.headers)->0
    &&& i.remote_target@ == contact_uri_of(q.headers)->0
    &&& i.route_set.spec_routes() == rs
    &&& i.route_set.spec_loose() == (rs.len() > 0 && has_lr(rs[0]))
    &&& i.secure == secure_via(q.headers)
}

impl DialogInfo {
    /// Create dialog info from an INVITE we sent and a response to it (UAC side), in the
    /// given state. The route set is the response's Record-Route, reversed. None when a part
    /// cannot be read.
    pub fn from_invite_response_uac(request: &SipRequest, response: &SipResponse, state: DialogState) -> (r: Option<
        Self,
    >)
        ensures
            uac_info_ready(request@, response@) ==> (r matches Some(i) && is_uac_info(i, request@, response@, state)),
            !uac_info_ready(request@, response@) ==> r is None,
    {
        let id = match DialogId::from_response_uac(response) {
            Some(id) => id,
            None => return None,
        };
        let local_uri = match request.from_uri() {
            Ok(u) => u,
            Err(_) => return None,
        };
        let remote_uri = match request.to_uri() {
            Ok(u) => u,
            Err(_) => return None,
        };
        let remote_target = match response.contact_uri() {
            Some(u) => u,
            None => return None,
        };
        let local_seq = match request.cseq() {
            Ok(n) => n,
            Err(_) => return None,
        };
        let record_routes = response.record_routes();
        let route_set = RouteSet::from_record_route_values(record_routes.as_slice(), true);
        let secure = Self::detect_secure_transport(request);
        Some(
            DialogInfo {
                id,
                state,
                local_seq,
                remote_seq: None,
                local_uri,
                remote_uri,
                remote_target,
                route_set,
                secure,
            },
        )
    }

    /// Create dialog info from an INVITE we received (UAS side), with our tag, in the given
    /// state. The route set is the request's Record-Route, in order; the remote CSeq is the
    /// INVITE's. None when a part cannot be read.
    pub fn from_invite_uas(request: &SipRequest, local_tag: &str, local_contact: &str, state: DialogState) -> (r:
        Option<Self>)
        ensures
            uas_info_ready(request@) ==> (r matches Some(i) && is_uas_info(i, request@, local_tag@, state)),
            !uas_info_ready(request@) ==> r is None,
    {
        let id = match DialogId::from_request_uas(request, local_tag) {
            Some(id) => id,
            None => return None,
        };
        let remote_uri = match request.from_uri() {
            Ok(u) => u,
            Err(_) => return None,
        };
        let local_uri = match request.to_uri() {
            Ok(u) => u,
            Err(_) => return None,
        };
        let remote_target = match request.contact_uri() {
            Some(u) => u,
            None => return None,
        };
        let remote_seq = match request.cseq() {
            Ok(n) => n,
            Err(_) => return None,
        };
        let record_routes = request.record_routes();
        let route_set = RouteSet::from_record_route_values(record_routes.as_slice(), false);
        let secure = Self::detect_secure_transport(request);
        Some(
            DialogInfo {
                id,
                state,
                local_seq: 0,
                remote_seq: Some(remote_seq),
                local_uri,
                remote_uri,
                remote_target,
                route_set,
                secure,
            },
        )
    }

    /// Whether the request arrived over TLS, by the transport of its first Via.
    fn detect_secure_transport(request: &SipRequest) -> (b: bool)
        ensures
            b == secure_via(request@.headers),
    {
        let vias = request.via_headers_raw();
        if vias.len() == 0 {
            return false;
        }
        let t = chars_of(vias[0].as_str());
        let prefix = chars_of("Via:");
        proof {
            reveal_strlit("Via:");
        }
        let from: usize = if t.len() >= 4 && crate::text::range_eq(t.as_slice(), 0, 4, prefix.as_slice()) {
            assert(t@.subrange(0, 4) =~= "Via:"@);
            assert(t@.subrange(4, t@.len() as int) =~= t@.skip(4));
            4
        } else {
            proof {
                if "Via:"@.is_prefix_of(t@) {
                    assert(t@.subrange(0, 4) =~= "Via:"@);
                }
            }
            assert(t@.subrange(0, t@.len() as int) =~= t@);
            0
        };
        let words = split_ws_spans(t.as_slice(), from, t.len());
        if words.len() == 0 {
            return false;
        }
        let (a, b) = words[0];
        let parts = split_char_spans(t.as_slice(), a, b, '/');
        if parts.len() != 3 {
            return false;
        }
        let (c, d) = parts[2];
        proof {
            reveal_strlit("tls");
        }
        range_eq_lower(t.as_slice(), c, d, "tls")
    }

    /// Get the next local CSeq number.
    pub fn next_local_seq(&mut self) -> (n: u32)
        requires
            old(self).local_seq < u32::MAX,
        ensures
            n == old(self).local_seq + 1,
            *final(self) == (DialogInfo { local_seq: n, ..*old(self) }),
    {
        self.local_seq = self.local_seq + 1;
        self.local_seq
    }

    /// Update remote sequence number.
    ///
    /// Returns true if the sequence number is valid (greater than current); only then is it
    /// recorded.
    pub fn update_remote_seq(&mut self, seq: u32) -> (ok: bool)
        ensures
            ok == remote_seq_in_order(old(self).remote_seq, seq),
            ok ==> *final(self) == (DialogInfo { remote_seq: Some(seq), ..*old(self) }),
            !ok ==> *final(self) == *old(self),
    {
        match self.remote_seq {
            None => {
                self.remote_seq = Some(seq);
                true
            },
            Some(current) => {
                if seq > current {
                    self.remote_seq = Some(seq);
                    true
                } else {
                    false
                }
            },
        }
    }
}

/// The remote CSeq numbers a dialog accepts rise strictly: once `a` has been accepted, a
/// later `b` is accepted only when it is above `a`, so no number is accepted twice.
pub proof fn lemma_remote_seq_strictly_increasing(a: u32, b: u32)
    ensures
        remote_seq_in_order(Some(a), b) <==> b > a,
        !remote_seq_in_order(Some(a), a),
{
}

} // verus!
