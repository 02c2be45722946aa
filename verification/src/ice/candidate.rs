//! ICE candidate types and priorities (RFC 8445).

use crate::net::{ipv4_text, octet_text_ok, parse_ip, parse_ipv4, IpAddr, SocketAddr};
use crate::sdp::roundtrip::{is_word, lemma_dec_digits, lemma_dec_parses, lemma_split_ws_concat, lemma_split_ws_word};
use crate::text::{
    dec, digit_char, digits_val, find_from, is_digit, is_ws, lower_seq, push_dec, push_str, split_ws, string_of,
};
use vstd::prelude::*;

verus! {

/// ICE candidate type.
#[derive(Debug, Clone, Copy, PartialEq, Eq, Hash, Structural)]
pub enum CandidateType {
    /// Host candidate (local address).
    Host,
    /// Server reflexive candidate (STUN mapped address).
    ServerReflexive,
    /// Peer reflexive candidate (discovered during checks).
    PeerReflexive,
    /// Relay candidate (TURN allocated address).
    Relay,
}

/// The recommended type preference of RFC 8445 Section 5.1.2.1.
pub open spec fn type_pref(t: CandidateType) -> u32 {
    match t {
        CandidateType::Host => 126,
        CandidateType::PeerReflexive => 110,
        CandidateType::ServerReflexive => 100,
        CandidateType::Relay => 0,
    }
}

/// The SDP name of a candidate type.
pub open spec fn candidate_type_text(t: CandidateType) -> Seq<char> {
    match t {
        CandidateType::Host => "host"@,
        CandidateType::ServerReflexive => "srflx"@,
        CandidateType::PeerReflexive => "prflx"@,
        CandidateType::Relay => "relay"@,
    }
}

impl CandidateType {
    /// The type preference used in the priority formula.
    pub fn type_preference(&self) -> (p: u32)
        ensures
            p == type_pref(*self),
    {
        match self {
            CandidateType::Host => 126,
            CandidateType::PeerReflexive => 110,
            CandidateType::ServerReflexive => 100,
            CandidateType::Relay => 0,
        }
    }

    /// The SDP candidate type string.
    pub fn as_str(&self) -> (s: &'static str)
        ensures
            s@ == candidate_type_text(*self),
    {
        match self {
            CandidateType::Host => "host",
            CandidateType::ServerReflexive => "srflx",
            CandidateType::PeerReflexive => "prflx",
            CandidateType::Relay => "relay",
        }
    }

    /// Parse an SDP candidate type string.
    pub fn parse(s: &str) -> (r: Option<Self>)
        ensures
            r matches Some(t) ==> candidate_type_text(t) == s@,
            r is None ==> forall|t: CandidateType| candidate_type_text(t) != s@,
    {
        let c = crate::text::chars_of(s);
        assert(c@.subrange(0, c@.len() as int) =~= c@);
        Self::parse_chars(c.as_slice(), 0, c.len())
    }

    /// Parse the candidate type spelled by `s[from..to]`.
    pub fn parse_chars(s: &[char], from: usize, to: usize) -> (r: Option<Self>)
        requires
            from <= to <= s.len(),
        ensures
            r matches Some(t) ==> candidate_type_text(t) == s@.subrange(from as int, to as int),
            r is None ==> forall|t: CandidateType| candidate_type_text(t) != s@.subrange(from as int, to as int),
    {
        if crate::text::range_is(s, from, to, "host") {
            Some(CandidateType::Host)
        } else if crate::text::range_is(s, from, to, "srflx") {
            Some(CandidateType::ServerReflexive)
        } else if crate::text::range_is(s, from, to, "prflx") {
            Some(CandidateType::PeerReflexive)
        } else if crate::text::range_is(s, from, to, "relay") {
            Some(CandidateType::Relay)
        } else {
            proof {
                assert forall|t: CandidateType| candidate_type_text(t) != s@.subrange(from as int, to as int) by {
                    match t {
                        CandidateType::Host => {},
                        CandidateType::ServerReflexive => {},
                        CandidateType::PeerReflexive => {},
                        CandidateType::Relay => {},
                    }
                }
            }
            None
        }
    }
}

/// Transport protocol of a candidate.
#[derive(Debug, Clone, Copy, PartialEq, Eq, Hash, Structural)]
pub enum Transport {
    /// UDP.
    Udp,
    /// TCP.
    Tcp,
}

/// The SDP name of a transport.
pub open spec fn transport_name(t: Transport) -> Seq<char> {
    match t {
        Transport::Udp => "UDP"@,
        Transport::Tcp => "TCP"@,
    }
}

impl Transport {
    /// The SDP transport string.
    pub fn as_str(&self) -> (s: &'static str)
        ensures
            s@ == transport_name(*self),
    {
        match self {
            Transport::Udp => "UDP",
            Transport::Tcp => "TCP",
        }
    }
}

/// The candidate priority of RFC 8445 Section 5.1.2.1:
/// `2^24 * type_preference + 2^8 * local_preference + (256 - component)`, where the middle term
/// keeps only the low 32 bits, as `local_preference << 8` does on a `u32`.
pub open spec fn priority_value(t: CandidateType, local_preference: u32, component: u8) -> int {
    type_pref(t) * 0x100_0000 + ((local_preference as int * 256) % 0x1_0000_0000) + (256 - component)
}

/// Calculate candidate priority per RFC 8445 Section 5.1.2.1.
///
/// The sum must fit in 32 bits; the original arithmetic panics otherwise.
pub fn calculate_priority(candidate_type: CandidateType, local_preference: u32, component: u8) -> (p: u32)
    requires
        priority_value(candidate_type, local_preference, component) <= u32::MAX,
    ensures
        p == priority_value(candidate_type, local_preference, component),
{
    let tp = candidate_type.type_preference();
    let hi = tp * 0x100_0000;
    let mid = local_preference.wrapping_mul(256);
    hi + mid + (256 - component as u32)
}

/// The pair priority of RFC 8445 Section 6.1.2.3, where `g` is the controlling agent's
/// candidate priority and `d` the controlled agent's.
pub open spec fn pair_priority_value(g: u32, d: u32) -> int {
    let min = if g <= d { g } else { d };
    let max = if g <= d { d } else { g };
    0x1_0000_0000 * min + 2 * max + if g > d { 1int } else { 0int }
}

/// The pair priority an agent computes from its own candidate priority `local` and the
/// peer's `remote`: the controlling agent's priority plays `g`, the controlled agent's `d`.
pub open spec fn pair_priority(controlling: bool, local: u32, remote: u32) -> int {
    if controlling { pair_priority_value(local, remote) } else { pair_priority_value(remote, local) }
}

/// Calculate pair priority per RFC 8445 Section 6.1.2.3.
///
/// `g` and `d` are the local and remote priorities; when this agent is not controlling they
/// swap roles. The result must fit in 64 bits; the original arithmetic panics otherwise.
pub fn calculate_pair_priority(controlling: bool, g: u32, d: u32) -> (p: u64)
    requires
        pair_priority(controlling, g, d) <= u64::MAX,
    ensures
        p == pair_priority(controlling, g, d),
{
    let (g, d) = if controlling { (g, d) } else { (d, g) };
    let min: u64 = if g <= d { g as u64 } else { d as u64 };
    let max: u64 = if g <= d { d as u64 } else { g as u64 };
    let tie: u64 = if g > d { 1 } else { 0 };
    0x1_0000_0000u64 * min + 2 * max + tie
}

/// Both agents compute the same priority for a pair: the controlling agent with
/// (local `g`, remote `d`) and the controlled agent with (local `d`, remote `g`).
pub proof fn pair_priority_agrees(g: u32, d: u32)
    ensures
        pair_priority(true, g, d) == pair_priority(false, d, g),
{
}

} // verus!

verus! {

/// ICE candidate.
#[derive(Debug, Clone, PartialEq, Eq)]
pub struct Candidate {
    /// Foundation (identifies similar candidates).
    pub foundation: String,
    /// Component ID (1 for RTP, 2 for RTCP).
    pub component: u8,
    /// Transport protocol.
    pub transport: Transport,
    /// Priority (higher is better).
    pub priority: u32,
    /// Candidate address.
    pub address: SocketAddr,
    /// Candidate type.
    pub candidate_type: CandidateType,
    /// Related address (for srflx/prflx/relay).
    pub related_address: Option<SocketAddr>,
}

/// The `a=candidate` text of a candidate with the given fields.
pub open spec fn candidate_sdp(c: Candidate) -> Seq<char> {
    let base = c.foundation@ + seq![' '] + dec(c.component as nat) + seq![' '] + transport_name(c.transport)
        + seq![' '] + dec(c.priority as nat) + seq![' '] + c.address.ip.text() + seq![' ']
        + dec(c.address.port as nat) + " typ "@ + candidate_type_text(c.candidate_type);
    match c.related_address {
        Some(r) => base + " raddr "@ + r.ip.text() + " rport "@ + dec(r.port as nat),
        None => base,
    }
}

impl Candidate {
    /// Create a new host candidate, with local preference 65535, over UDP.
    pub fn host(address: SocketAddr, component: u8) -> (c: Self)
        ensures
            c.foundation@ == "host"@ + address.ip.text() + dec(component as nat),
            c.component == component,
            c.transport == Transport::Udp,
            c.priority == priority_value(CandidateType::Host, 65535, component),
            c.address == address,
            c.candidate_type == CandidateType::Host,
            c.related_address is None,
    {
        let mut f: Vec<char> = Vec::new();
        push_str(&mut f, "host");
        address.ip.push_text(&mut f);
        push_dec(&mut f, component as u64);
        proof {
            reveal_strlit("host");
            assert(f@ =~= "host"@ + address.ip.text() + dec(component as nat));
        }
        let priority = calculate_priority(CandidateType::Host, 65535, component);
        Candidate {
            foundation: string_of(f.as_slice()),
            component,
            transport: Transport::Udp,
            priority,
            address,
            candidate_type: CandidateType::Host,
            related_address: None,
        }
    }

    /// Create a new server reflexive candidate for `address` discovered from `base`.
    pub fn server_reflexive(address: SocketAddr, base: SocketAddr, component: u8) -> (c: Self)
        ensures
            c.foundation@ == "srflx"@ + base.ip.text() + dec(component as nat),
            c.component == component,
            c.transport == Transport::Udp,
            c.priority == priority_value(CandidateType::ServerReflexive, 65535, component),
            c.address == address,
            c.candidate_type == CandidateType::ServerReflexive,
            c.related_address == Some(base),
    {
        let mut f: Vec<char> = Vec::new();
        push_str(&mut f, "srflx");
        base.ip.push_text(&mut f);
        push_dec(&mut f, component as u64);
        proof {
            reveal_strlit("srflx");
            assert(f@ =~= "srflx"@ + base.ip.text() + dec(component as nat));
        }
        let priority = calculate_priority(CandidateType::ServerReflexive, 65535, component);
        Candidate {
            foundation: string_of(f.as_slice()),
            component,
            transport: Transport::Udp,
            priority,
            address,
            candidate_type: CandidateType::ServerReflexive,
            related_address: Some(base),
        }
    }

    /// Create a new peer reflexive candidate with the given priority.
    pub fn peer_reflexive(address: SocketAddr, base: SocketAddr, component: u8, priority: u32) -> (c: Self)
        ensures
            c.foundation@ == "prflx"@ + base.ip.text() + dec(component as nat),
            c.component == component,
            c.transport == Transport::Udp,
            c.priority == priority,
            c.address == address,
            c.candidate_type == CandidateType::PeerReflexive,
            c.related_address == Some(base),
    {
        let mut f: Vec<char> = Vec::new();
        push_str(&mut f, "prflx");
        base.ip.push_text(&mut f);
        push_dec(&mut f, component as u64);
        proof {
            reveal_strlit("prflx");
            assert(f@ =~= "prflx"@ + base.ip.text() + dec(component as nat));
        }
        Candidate {
            foundation: string_of(f.as_slice()),
            component,
            transport: Transport::Udp,
            priority,
            address,
            candidate_type: CandidateType::PeerReflexive,
            related_address: Some(base),
        }
    }

    /// Format as SDP `a=candidate` attribute value.
    pub fn to_sdp(&self) -> (s: String)
        ensures
            s@ == candidate_sdp(*self),
    {
        let mut v: Vec<char> = Vec::new();
        push_str(&mut v, self.foundation.as_str());
        v.push(' ');
        push_dec(&mut v, self.component as u64);
        v.push(' ');
        push_str(&mut v, self.transport.as_str());
        v.push(' ');
        push_dec(&mut v, self.priority as u64);
        v.push(' ');
        self.address.ip.push_text(&mut v);
        v.push(' ');
        push_dec(&mut v, self.address.port as u64);
        push_str(&mut v, " typ ");
        push_str(&mut v, self.candidate_type.as_str());
        let ghost base = v@;
        match self.related_address {
            Some(r) => {
                push_str(&mut v, " raddr ");
                r.ip.push_text(&mut v);
                push_str(&mut v, " rport ");
                push_dec(&mut v, r.port as u64);
            },
            None => {},
        }
        proof {
            assert(base =~= self.foundation@ + seq![' '] + dec(self.component as nat) + seq![' ']
                + transport_name(self.transport) + seq![' '] + dec(self.priority as nat) + seq![' ']
                + self.address.ip.text() + seq![' '] + dec(self.address.port as nat) + " typ "@
                + candidate_type_text(self.candidate_type));
            assert(v@ =~= candidate_sdp(*self));
        }
        string_of(v.as_slice())
    }
}

} // verus!

verus! {

/// The transport named by an SDP token, compared without regard to ASCII case.
pub open spec fn parse_transport(t: Seq<char>) -> Option<Transport> {
    if crate::text::lower_seq(t) == "udp"@ {
        Some(Transport::Udp)
    } else if crate::text::lower_seq(t) == "tcp"@ {
        Some(Transport::Tcp)
    } else {
        None
    }
}

/// The candidate type named by an SDP token.
pub open spec fn parse_candidate_type(t: Seq<char>) -> Option<CandidateType> {
    if t == "host"@ {
        Some(CandidateType::Host)
    } else if t == "srflx"@ {
        Some(CandidateType::ServerReflexive)
    } else if t == "prflx"@ {
        Some(CandidateType::PeerReflexive)
    } else if t == "relay"@ {
        Some(CandidateType::Relay)
    } else {
        None
    }
}

proof fn lemma_parse_candidate_type(t: CandidateType)
    ensures
        parse_candidate_type(candidate_type_text(t)) == Some(t),
{
    reveal_strlit("host");
    reveal_strlit("srflx");
    reveal_strlit("prflx");
    reveal_strlit("relay");
    assert("host"@.len() == 4);
    assert("srflx"@[0] != "prflx"@[0] && "srflx"@[0] != "relay"@[0] && "prflx"@[0] != "relay"@[0]);
}

/// A socket address as plain values.
pub open spec fn sock_view(a: SocketAddr) -> ((bool, Seq<u8>), u16) {
    (crate::net::ip_view(a.ip), a.port)
}

/// The related address found by scanning the optional `raddr <ip> rport <port>` tokens from
/// position `i`, where `cur` is the one found so far; `None` when such a pair does not parse.
pub open spec fn scan_related(parts: Seq<Seq<char>>, i: int, cur: Option<((bool, Seq<u8>), u16)>)
    -> Option<Option<((bool, Seq<u8>), u16)>>
    decreases parts.len() - i,
{
    if i < 0 || i + 1 >= parts.len() {
        Some(cur)
    } else if parts[i] == "raddr"@ && i + 3 < parts.len() && parts[i + 2] == "rport"@ {
        match crate::net::parse_ip(parts[i + 1]) {
            None => None,
            Some(ip) => match crate::text::parse_uint(parts[i + 3], 65535) {
                None => None,
                Some(port) => scan_related(parts, i + 4, Some((ip, port as u16))),
            },
        }
    } else {
        scan_related(parts, i + 1, cur)
    }
}

/// Whether the words `parts` of an `a=candidate` value describe a candidate.
pub open spec fn candidate_parts_ok(parts: Seq<Seq<char>>) -> bool {
    &&& parts.len() >= 8
    &&& crate::text::parse_uint(parts[1], 255) is Some
    &&& parse_transport(parts[2]) is Some
    &&& crate::text::parse_uint(parts[3], 0xffff_ffff) is Some
    &&& crate::net::parse_ip(parts[4]) is Some
    &&& crate::text::parse_uint(parts[5], 65535) is Some
    &&& parts[6] == "typ"@
    &&& parse_candidate_type(parts[7]) is Some
    &&& scan_related(parts, 8, None) is Some
}

/// The candidate described by the words `parts` (when `candidate_parts_ok` holds).
pub open spec fn candidate_from_parts(c: Candidate, parts: Seq<Seq<char>>) -> bool {
    &&& c.foundation@ == parts[0]
    &&& c.component as nat == crate::text::parse_uint(parts[1], 255)->0
    &&& Some(c.transport) == parse_transport(parts[2])
    &&& c.priority as nat == crate::text::parse_uint(parts[3], 0xffff_ffff)->0
    &&& crate::net::ip_view(c.address.ip) == crate::net::parse_ip(parts[4])->0
    &&& c.address.port as nat == crate::text::parse_uint(parts[5], 65535)->0
    &&& Some(c.candidate_type) == parse_candidate_type(parts[7])
    &&& match c.related_address {
        Some(r) => scan_related(parts, 8, None) == Some(Some(sock_view(r))),
        None => scan_related(parts, 8, None) == Some(None::<((bool, Seq<u8>), u16)>),
    }
}

/// Whether the spans `sp` pick the words `parts` out of `c`.
pub open spec fn words_at(c: Seq<char>, sp: Seq<(usize, usize)>, parts: Seq<Seq<char>>) -> bool {
    &&& sp.len() == parts.len()
    &&& forall|k: int| 0 <= k < sp.len() ==> #[trigger] sp[k].0 <= sp[k].1 <= c.len()
    &&& forall|k: int| 0 <= k < sp.len() ==> c.subrange(#[trigger] sp[k].0 as int, sp[k].1 as int) == parts[k]
}

/// The optional address is the one the scan names.
pub open spec fn opt_sock_view(a: Option<SocketAddr>) -> Option<((bool, Seq<u8>), u16)> {
    match a {
        Some(x) => Some(sock_view(x)),
        None => None,
    }
}

fn scan_related_exec(c: &[char], sp: &Vec<(usize, usize)>, Ghost(parts): Ghost<Seq<Seq<char>>>) -> (r: Option<Option<SocketAddr>>)
    requires
        words_at(c@, sp@, parts),
    ensures
        r is Some <==> scan_related(parts, 8, None) is Some,
        r matches Some(a) ==> scan_related(parts, 8, None) == Some(opt_sock_view(a)),
{
    let mut related_address: Option<SocketAddr> = None;
    let mut i: usize = 8;
    while i < sp.len() && sp.len() - i > 1
        invariant
            8 <= i,
            words_at(c@, sp@, parts),
            scan_related(parts, 8, None) == scan_related(parts, i as int, opt_sock_view(related_address)),
        decreases sp.len() - i,
    {
        let ghost cur = opt_sock_view(related_address);
        let is_raddr = crate::text::range_is(c, sp[i].0, sp[i].1, "raddr");
        assert(c@.subrange(sp@[i as int].0 as int, sp@[i as int].1 as int) == parts[i as int]);
        if is_raddr && sp.len() - i > 3 {
            let is_rport = crate::text::range_is(c, sp[i + 2].0, sp[i + 2].1, "rport");
            assert(c@.subrange(sp@[i + 2].0 as int, sp@[i + 2].1 as int) == parts[i + 2]);
            if is_rport {
                assert(c@.subrange(sp@[i + 1].0 as int, sp@[i + 1].1 as int) == parts[i + 1]);
                assert(c@.subrange(sp@[i + 3].0 as int, sp@[i + 3].1 as int) == parts[i + 3]);
                let rip = match crate::net::parse_ip_range(c, sp[i + 1].0, sp[i + 1].1) {
                    Some(ip) => ip,
                    None => return None,
                };
                let rport = match crate::text::parse_uint_range(c, sp[i + 3].0, sp[i + 3].1, 65535) {
                    Some(v) => v as u16,
                    None => return None,
                };
                related_address = Some(SocketAddr { ip: rip, port: rport });
                i += 4;
            } else {
                i += 1;
            }
        } else {
            i += 1;
        }
    }
    Some(related_address)
}

impl Candidate {
    /// Parse an SDP `a=candidate` attribute value: foundation, component, transport, priority,
    /// address, port, `typ`, type, then optionally `raddr <address> rport <port>`.
    #[verifier::rlimit(40)]
    pub fn from_sdp(s: &str) -> (r: Option<Self>)
        ensures
            r is Some <==> candidate_parts_ok(crate::text::split_ws(s@)),
            r matches Some(c) ==> candidate_from_parts(c, crate::text::split_ws(s@)),
    {
        let cs = crate::text::chars_of(s);
        let n = cs.len();
        let sp = crate::text::split_ws_spans(cs.as_slice(), 0, n);
        let ghost parts = crate::text::split_ws(s@);
        assert(cs@.subrange(0, n as int) =~= s@);
        assert(words_at(cs@, sp@, parts));
        if sp.len() < 8 {
            return None;
        }
        let c = cs.as_slice();
        proof {
            assert(c@.subrange(sp@[0].0 as int, sp@[0].1 as int) == parts[0]);
            assert(c@.subrange(sp@[1].0 as int, sp@[1].1 as int) == parts[1]);
            assert(c@.subrange(sp@[2].0 as int, sp@[2].1 as int) == parts[2]);
            assert(c@.subrange(sp@[3].0 as int, sp@[3].1 as int) == parts[3]);
            assert(c@.subrange(sp@[4].0 as int, sp@[4].1 as int) == parts[4]);
            assert(c@.subrange(sp@[5].0 as int, sp@[5].1 as int) == parts[5]);
            assert(c@.subrange(sp@[6].0 as int, sp@[6].1 as int) == parts[6]);
            assert(c@.subrange(sp@[7].0 as int, sp@[7].1 as int) == parts[7]);
        }
        let foundation = crate::text::string_range(c, sp[0].0, sp[0].1);
        let component = match crate::text::parse_uint_range(c, sp[1].0, sp[1].1, 255) {
            Some(v) => v as u8,
            None => return None,
        };
        let transport = if crate::text::range_eq_lower(c, sp[2].0, sp[2].1, "udp") {
            Transport::Udp
        } else if crate::text::range_eq_lower(c, sp[2].0, sp[2].1, "tcp") {
            Transport::Tcp
        } else {
            return None;
        };
        let priority = match crate::text::parse_uint_range(c, sp[3].0, sp[3].1, 0xffff_ffff) {
            Some(v) => v as u32,
            None => return None,
        };
        let ip = match crate::net::parse_ip_range(c, sp[4].0, sp[4].1) {
            Some(ip) => ip,
            None => return None,
        };
        let port = match crate::text::parse_uint_range(c, sp[5].0, sp[5].1, 65535) {
            Some(v) => v as u16,
            None => return None,
        };
        if !crate::text::range_is(c, sp[6].0, sp[6].1, "typ") {
            return None;
        }
        let candidate_type = match CandidateType::parse_chars(c, sp[7].0, sp[7].1) {
            Some(t) => t,
            None => {
                proof {
                    assert(candidate_type_text(CandidateType::Host) != parts[7]);
                    assert(candidate_type_text(CandidateType::ServerReflexive) != parts[7]);
                    assert(candidate_type_text(CandidateType::PeerReflexive) != parts[7]);
                    assert(candidate_type_text(CandidateType::Relay) != parts[7]);
                }
                return None;
            },
        };
        proof {
            lemma_parse_candidate_type(candidate_type);
            assert(parse_candidate_type(parts[7]) == Some(candidate_type));
        }
        let related_address = match scan_related_exec(c, &sp, Ghost(parts)) {
            Some(a) => a,
            None => return None,
        };
        let r = Candidate {
            foundation,
            component,
            transport,
            priority,
            address: SocketAddr { ip, port },
            candidate_type,
            related_address,
        };
        proof {
            assert(r.foundation@ == parts[0]);
            assert(r.component as nat == crate::text::parse_uint(parts[1], 255)->0);
            assert(Some(r.transport) == parse_transport(parts[2]));
            assert(r.priority as nat == crate::text::parse_uint(parts[3], 0xffff_ffff)->0);
            assert(crate::net::ip_view(r.address.ip) == crate::net::parse_ip(parts[4])->0);
            assert(r.address.port as nat == crate::text::parse_uint(parts[5], 65535)->0);
        }
        Some(r)
    }
}

} // verus!

verus! {

/// The decimal spelling of a number up to 255 is the text of an IPv4 octet.
proof fn lemma_dec_octet(n: nat)
    requires
        n <= 255,
    ensures
        octet_text_ok(dec(n)),
        digits_val(dec(n)) == n,
{
    lemma_dec_digits(n);
    if n >= 10 {
        lemma_dec_digits(n / 10);
        assert(dec(n)[0] == dec(n / 10)[0]);
        if n >= 100 {
            assert(dec(n / 10)[0] == dec(n / 100)[0]);
            assert(dec(n / 100) == seq![digit_char(n / 100)]);
        } else {
            assert(dec(n / 10) == seq![digit_char(n / 10)]);
        }
    }
}

/// Searching digits and dots for a dot from `i` finds the first dot at or after `i`.
proof fn lemma_find_dot(s: Seq<char>, i: int, j: int)
    requires
        0 <= i <= j < s.len(),
        s[j] == '.',
        forall|k: int| i <= k < j ==> s[k] != '.',
    ensures
        find_from(s, '.', i) == Some(j),
    decreases j - i,
{
    if i < j {
        lemma_find_dot(s, i + 1, j);
    }
}

/// Searching a text with no dot after `i` finds none.
proof fn lemma_find_no_dot(s: Seq<char>, i: int)
    requires
        0 <= i,
        forall|k: int| i <= k < s.len() ==> s[k] != '.',
    ensures
        find_from(s, '.', i) is None,
    decreases s.len() - i,
{
    if i < s.len() {
        lemma_find_no_dot(s, i + 1);
    }
}

/// The dotted-quad text of four octets reads back as the octets.
proof fn lemma_ipv4_text_parses(o: Seq<u8>)
    requires
        o.len() == 4,
    ensures
        parse_ip(ipv4_text(o)) == Some((true, o)),
        is_word(ipv4_text(o)),
{
    let d0 = dec(o[0] as nat);
    let d1 = dec(o[1] as nat);
    let d2 = dec(o[2] as nat);
    let d3 = dec(o[3] as nat);
    lemma_dec_octet(o[0] as nat);
    lemma_dec_octet(o[1] as nat);
    lemma_dec_octet(o[2] as nat);
    lemma_dec_octet(o[3] as nat);
    let s = ipv4_text(o);
    let a = d0.len() as int;
    let b = a + 1 + d1.len();
    let c = b + 1 + d2.len();
    assert(s.len() == c + 1 + d3.len());
    assert forall|k: int| 0 <= k < a implies s[k] == d0[k] by {}
    assert forall|k: int| a < k < b implies s[k] == d1[k - a - 1] by {}
    assert forall|k: int| b < k < c implies s[k] == d2[k - b - 1] by {}
    assert forall|k: int| c < k < s.len() implies s[k] == d3[k - c - 1] by {}
    assert(s[a] == '.' && s[b] == '.' && s[c] == '.');
    assert forall|k: int| 0 <= k < s.len() && k != a && k != b && k != c implies is_digit(#[trigger] s[k]) by {
        if k < a {
            assert(is_digit(d0[k]));
        } else if k < b {
            assert(is_digit(d1[k - a - 1]));
        } else if k < c {
            assert(is_digit(d2[k - b - 1]));
        } else {
            assert(is_digit(d3[k - c - 1]));
        }
    }
    lemma_find_dot(s, 0, a);
    lemma_find_dot(s, a + 1, b);
    lemma_find_dot(s, b + 1, c);
    lemma_find_no_dot(s, c + 1);
    assert(s.subrange(0, a) =~= d0);
    assert(s.subrange(a + 1, b) =~= d1);
    assert(s.subrange(b + 1, c) =~= d2);
    assert(s.subrange(c + 1, s.len() as int) =~= d3);
    reveal(parse_ipv4);
    reveal(parse_ip);
    assert(seq![digits_val(d0) as u8, digits_val(d1) as u8, digits_val(d2) as u8, digits_val(d3) as u8] =~= o);
    assert forall|k: int| 0 <= k < s.len() implies !is_ws(#[trigger] s[k]) by {
        if k != a && k != b && k != c {
            assert(is_digit(s[k]));
        }
    }
}

/// The decimal spelling of a number is one word.
proof fn lemma_dec_word(n: nat)
    ensures
        is_word(dec(n)),
{
    lemma_dec_digits(n);
    assert forall|k: int| 0 <= k < dec(n).len() implies !is_ws(#[trigger] dec(n)[k]) by {
        assert(is_digit(dec(n)[k]));
    }
}

/// Text whose words are `ws`, followed by a space and the word `w`, has the words `ws` and
/// then `w`.
proof fn lemma_words_push(a: Seq<char>, w: Seq<char>, ws: Seq<Seq<char>>)
    requires
        split_ws(a) == ws,
        is_word(w),
    ensures
        split_ws(a + seq![' '] + w) == ws.push(w),
{
    lemma_split_ws_concat(a, w);
    lemma_split_ws_word(w);
    assert(ws + seq![w] =~= ws.push(w));
}

/// What `Candidate::to_sdp` writes, `Candidate::from_sdp` reads back: the text of a candidate
/// whose foundation is one word (not empty, no white space) and whose addresses are IPv4
/// describes a candidate, and every candidate it describes has the same fields.
#[verifier::spinoff_prover]
#[verifier::rlimit(100)]
pub proof fn lemma_candidate_sdp_round_trip(c: Candidate)
    requires
        is_word(c.foundation@),
        c.address.ip is V4,
        c.related_address matches Some(r) ==> r.ip is V4,
    ensures
        candidate_parts_ok(split_ws(candidate_sdp(c))),
        candidate_from_parts(c, split_ws(candidate_sdp(c))),
        forall|d: Candidate|
            #[trigger] candidate_from_parts(d, split_ws(candidate_sdp(c))) ==> {
                &&& d.foundation@ == c.foundation@
                &&& d.component == c.component
                &&& d.transport == c.transport
                &&& d.priority == c.priority
                &&& sock_view(d.address) == sock_view(c.address)
                &&& d.candidate_type == c.candidate_type
                &&& opt_sock_view(d.related_address) == opt_sock_view(c.related_address)
            },
{
    reveal_strlit("typ");
    reveal_strlit(" typ ");
    reveal_strlit("raddr");
    reveal_strlit(" raddr ");
    reveal_strlit("rport");
    reveal_strlit(" rport ");
    reveal_strlit("UDP");
    reveal_strlit("TCP");
    reveal_strlit("udp");
    reveal_strlit("tcp");
    reveal_strlit("host");
    reveal_strlit("srflx");
    reveal_strlit("prflx");
    reveal_strlit("relay");
    let ip = match c.address.ip {
        IpAddr::V4(o) => o@,
        IpAddr::V6(o) => o@,
    };
    lemma_ipv4_text_parses(ip);
    lemma_dec_word(c.component as nat);
    lemma_dec_word(c.priority as nat);
    lemma_dec_word(c.address.port as nat);
    lemma_dec_parses(c.component as nat, 255);
    lemma_dec_parses(c.priority as nat, 0xffff_ffff);
    lemma_dec_parses(c.address.port as nat, 65535);
    lemma_parse_candidate_type(c.candidate_type);
    let tn = transport_name(c.transport);
    let tt = candidate_type_text(c.candidate_type);
    assert(is_word(tn));
    assert(is_word(tt));
    assert(is_word("typ"@));
    assert(lower_seq("UDP"@) =~= "udp"@);
    assert(lower_seq("TCP"@) =~= "tcp"@);
    match c.transport {
        Transport::Udp => assert(parse_transport(tn) == Some(c.transport)),
        Transport::Tcp => {
            assert(lower_seq(tn)[0] == 't' && "udp"@[0] == 'u');
            assert(lower_seq(tn) != "udp"@);
            assert(parse_transport(tn) == Some(c.transport));
        },
    }
    let t1 = c.foundation@;
    lemma_split_ws_word(t1);
    let w1 = seq![t1];
    let t2 = t1 + seq![' '] + dec(c.component as nat);
    lemma_words_push(t1, dec(c.component as nat), w1);
    let w2 = w1.push(dec(c.component as nat));
    let t3 = t2 + seq![' '] + tn;
    lemma_words_push(t2, tn, w2);
    let w3 = w2.push(tn);
    let t4 = t3 + seq![' '] + dec(c.priority as nat);
    lemma_words_push(t3, dec(c.priority as nat), w3);
    let w4 = w3.push(dec(c.priority as nat));
    let t5 = t4 + seq![' '] + c.address.ip.text();
    lemma_words_push(t4, c.address.ip.text(), w4);
    let w5 = w4.push(c.address.ip.text());
    let t6 = t5 + seq![' '] + dec(c.address.port as nat);
    lemma_words_push(t5, dec(c.address.port as nat), w5);
    let t7 = t6 + seq![' '] + "typ"@;
    lemma_words_push(t6, "typ"@, w5.push(dec(c.address.port as nat)));
    let t8 = t7 + seq![' '] + tt;
    lemma_words_push(t7, tt, w5.push(dec(c.address.port as nat)).push("typ"@));
    let w8 = w5.push(dec(c.address.port as nat)).push("typ"@).push(tt);
    let base = c.foundation@ + seq![' '] + dec(c.component as nat) + seq![' '] + tn + seq![' '] + dec(
        c.priority as nat,
    ) + seq![' '] + c.address.ip.text() + seq![' '] + dec(c.address.port as nat) + " typ "@ + tt;
    assert(" typ "@ =~= seq![' '] + "typ"@ + seq![' ']);
    assert(base =~= t8);
    let parts = split_ws(candidate_sdp(c));
    match c.related_address {
        None => {
            assert(candidate_sdp(c) == base);
            assert(parts == w8);
            assert(scan_related(parts, 8, None) == Some(None::<((bool, Seq<u8>), u16)>));
        },
        Some(r) => {
            let rip = match r.ip {
                IpAddr::V4(o) => o@,
                IpAddr::V6(o) => o@,
            };
            lemma_ipv4_text_parses(rip);
            lemma_dec_word(r.port as nat);
            lemma_dec_parses(r.port as nat, 65535);
            assert(is_word("raddr"@));
            assert(is_word("rport"@));
            let t9 = t8 + seq![' '] + "raddr"@;
            lemma_words_push(t8, "raddr"@, w8);
            let t10 = t9 + seq![' '] + r.ip.text();
            lemma_words_push(t9, r.ip.text(), w8.push("raddr"@));
            let t11 = t10 + seq![' '] + "rport"@;
            lemma_words_push(t10, "rport"@, w8.push("raddr"@).push(r.ip.text()));
            let t12 = t11 + seq![' '] + dec(r.port as nat);
            lemma_words_push(t11, dec(r.port as nat), w8.push("raddr"@).push(r.ip.text()).push("rport"@));
            assert(" raddr "@ =~= seq![' '] + "raddr"@ + seq![' ']);
            assert(" rport "@ =~= seq![' '] + "rport"@ + seq![' ']);
            assert(candidate_sdp(c) =~= t12);
            let w12 = w8.push("raddr"@).push(r.ip.text()).push("rport"@).push(dec(r.port as nat));
            assert(parts == w12);
            assert(parts[8] == "raddr"@ && parts[10] == "rport"@);
            assert(parse_ip(parts[9]) == Some(sock_view(r).0));
            assert(scan_related(parts, 12, Some(sock_view(r))) == Some(Some(sock_view(r))));
            assert(scan_related(parts, 8, None) == Some(Some(sock_view(r))));
        },
    }
    assert(parts[0] == c.foundation@);
    assert(parts[1] == dec(c.component as nat));
    assert(parts[4] == c.address.ip.text());
    assert(parts[6] == "typ"@);
    assert(parts[7] == tt);
    assert(crate::net::ip_view(c.address.ip) == (true, ip));
}

} // verus!

verus! {

/// The type preferences that RFC 8445 Section 5.1.2.2 recommends: 126 for host, 110 for
/// peer-reflexive, 100 for server-reflexive and 0 for relayed candidates. With a local
/// preference within its 16 bits and a component ID of at least 1, the candidate priorities
/// keep that order, and the type preference is the priority's top byte.
pub proof fn lemma_type_preference_order(local_preference: u32, component: u8)
    requires
        local_preference <= 65535,
        component >= 1,
    ensures
        type_pref(CandidateType::Host) == 126,
        type_pref(CandidateType::PeerReflexive) == 110,
        type_pref(CandidateType::ServerReflexive) == 100,
        type_pref(CandidateType::Relay) == 0,
        priority_value(CandidateType::Host, local_preference, component) > priority_value(
            CandidateType::PeerReflexive,
            local_preference,
            component,
        ),
        priority_value(CandidateType::PeerReflexive, local_preference, component) > priority_value(
            CandidateType::ServerReflexive,
            local_preference,
            component,
        ),
        priority_value(CandidateType::ServerReflexive, local_preference, component) > priority_value(
            CandidateType::Relay,
            local_preference,
            component,
        ),
        forall|t: CandidateType|
            #[trigger] priority_value(t, local_preference, component) / 0x100_0000 == type_pref(t)
                && priority_value(t, local_preference, component) % 0x100_0000 == local_preference * 256 + (256
                - component),
{
    assert(local_preference as int * 256 < 0x1_0000_0000);
    assert forall|t: CandidateType|
        #[trigger] priority_value(t, local_preference, component) / 0x100_0000 == type_pref(t)
            && priority_value(t, local_preference, component) % 0x100_0000 == local_preference * 256 + (256
            - component) by {
        let low: int = local_preference * 256 + (256 - component);
        assert(0 < low < 0x100_0000);
        assert(priority_value(t, local_preference, component) == type_pref(t) * 0x100_0000 + low);
        vstd::arithmetic::div_mod::lemma_fundamental_div_mod_converse(
            priority_value(t, local_preference, component),
            0x100_0000,
            type_pref(t) as int,
            low,
        );
    }
}

} // verus!

verus! {

/// The candidate types are written as RFC 8839 Section 5.1 names them (`host`, `srflx`,
/// `prflx`, `relay`), and each name reads back as its type.
pub proof fn lemma_candidate_type_names(t: CandidateType)
    ensures
        candidate_type_text(CandidateType::Host) == "host"@,
        candidate_type_text(CandidateType::ServerReflexive) == "srflx"@,
        candidate_type_text(CandidateType::PeerReflexive) == "prflx"@,
        candidate_type_text(CandidateType::Relay) == "relay"@,
        parse_candidate_type(candidate_type_text(t)) == Some(t),
{
    lemma_parse_candidate_type(t);
}

} // verus!
