//! STUN (RFC 5389) Binding Requests, for discovering the public (server reflexive) address of
//! a NAT-ed endpoint: the request bytes, the parsing of responses and error responses, and the
//! decisions of the request loop. Sending and receiving happen outside the library.
use crate::net::{IpAddr, SocketAddr};
use crate::sip::auth::{hex_fixed, push_hex_fixed};
use crate::text::{push_chars, push_str, string_of};
use crate::wire::{be16, be32, push_u16, push_u32, read_u16, read_u32, u16_bytes, u32_bytes};
use vstd::prelude::*;

verus! {

/// STUN magic cookie (RFC 5389).
pub const MAGIC_COOKIE: u32 = 0x2112A442;

/// Binding Request message type.
pub const BINDING_REQUEST: u16 = 0x0001;

/// Binding Response message type.
pub const BINDING_RESPONSE: u16 = 0x0101;

/// Binding Error Response message type.
pub const BINDING_ERROR: u16 = 0x0111;

/// MAPPED-ADDRESS attribute type.
pub const ATTR_MAPPED_ADDRESS: u16 = 0x0001;

/// XOR-MAPPED-ADDRESS attribute type.
pub const ATTR_XOR_MAPPED_ADDRESS: u16 = 0x0020;

/// ERROR-CODE attribute type.
pub const ATTR_ERROR_CODE: u16 = 0x0009;

/// SOFTWARE attribute type.
pub const ATTR_SOFTWARE: u16 = 0x8022;

/// IPv4 address family.
pub const AF_IPV4: u8 = 0x01;

/// IPv6 address family.
pub const AF_IPV6: u8 = 0x02;

#[verifier::external_type_specification]
#[verifier::external_body]
pub struct ExIoError(std::io::Error);

/// The message of an I/O error, as `std::io::Error` displays it; nothing is stated of the text.
#[verifier::external_body]
pub(crate) fn io_error_text(e: &std::io::Error) -> String {
    e.to_string()
}

/// The text that `String::from_utf8_lossy` gives for bytes.
pub uninterp spec fn utf8_lossy(b: Seq<u8>) -> Seq<char>;

/// `String::from_utf8_lossy`: the bytes decoded as UTF-8, each invalid sequence replaced by
/// U+FFFD; a function of the bytes alone.
#[verifier::external_body]
pub(crate) fn from_utf8_lossy(b: &[u8]) -> (s: String)
    ensures
        s@ == utf8_lossy(b@),
{
    String::from_utf8_lossy(b).to_string()
}

/// STUN errors.
#[derive(Debug)]
pub enum StunError {
    /// An I/O error.
    Io(std::io::Error),
    /// Request timeout.
    Timeout,
    /// Invalid response.
    InvalidResponse(String),
    /// STUN error response.
    ErrorResponse { code: u16, reason: String },
    /// No mapped address in response.
    NoMappedAddress,
}

/// A STUN error as plain values.
pub enum StunErrorView {
    Io,
    Timeout,
    InvalidResponse(Seq<char>),
    ErrorResponse(u16, Seq<char>),
    NoMappedAddress,
}

impl View for StunError {
    type V = StunErrorView;

    open spec fn view(&self) -> StunErrorView {
        match self {
            StunError::Io(_) => StunErrorView::Io,
            StunError::Timeout => StunErrorView::Timeout,
            StunError::InvalidResponse(m) => StunErrorView::InvalidResponse(m@),
            StunError::ErrorResponse { code, reason } => StunErrorView::ErrorResponse(*code, reason@),
            StunError::NoMappedAddress => StunErrorView::NoMappedAddress,
        }
    }
}

impl From<std::io::Error> for StunError {
    fn from(e: std::io::Error) -> (r: Self) {
        StunError::Io(e)
    }
}

impl vstd::std_specs::convert::FromSpecImpl<std::io::Error> for StunError {
    open spec fn obeys_from_spec() -> bool {
        true
    }

    open spec fn from_spec(e: std::io::Error) -> StunError {
        StunError::Io(e)
    }
}

impl StunError {
    /// The error's message.
    pub fn to_text(&self) -> (s: String)
        ensures
            match self@ {
                StunErrorView::Io => s@.len() >= 10 && s@.take(10) == "IO error: "@,
                StunErrorView::Timeout => s@ == "Request timeout"@,
                StunErrorView::InvalidResponse(m) => s@ == "Invalid response: "@ + m,
                StunErrorView::ErrorResponse(code, reason) => s@ == "STUN error response: "@
                    + crate::text::dec(code as nat) + seq![' '] + reason,
                StunErrorView::NoMappedAddress => s@ == "No mapped address in response"@,
            },
    {
        let mut v: Vec<char> = Vec::new();
        match self {
            StunError::Io(e) => {
                push_str(&mut v, "IO error: ");
                let t = io_error_text(e);
                push_str(&mut v, t.as_str());
                proof {
                    reveal_strlit("IO error: ");
                }
                assert(v@.take(10) =~= "IO error: "@);
            },
            StunError::Timeout => push_str(&mut v, "Request timeout"),
            StunError::InvalidResponse(m) => {
                push_str(&mut v, "Invalid response: ");
                push_str(&mut v, m.as_str());
            },
            StunError::ErrorResponse { code, reason } => {
                push_str(&mut v, "STUN error response: ");
                crate::text::push_dec(&mut v, *code as u64);
                v.push(' ');
                push_str(&mut v, reason.as_str());
            },
            StunError::NoMappedAddress => push_str(&mut v, "No mapped address in response"),
        }
        string_of(v.as_slice())
    }
}

/// A STUN server.
#[derive(Debug, Clone)]
pub struct StunServer {
    /// Server address.
    pub addr: SocketAddr,
    /// Server name (for logging).
    pub name: &'static str,
}

impl StunServer {
    /// Create a custom STUN server.
    pub fn new(addr: SocketAddr, name: &'static str) -> (s: Self)
        ensures
            s.addr == addr,
            s.name == name,
    {
        StunServer { addr, name }
    }

    /// Google's public STUN server (74.125.250.129:19302).
    pub fn google() -> (s: Self)
        ensures
            s.addr == (SocketAddr { ip: IpAddr::V4([74, 125, 250, 129]), port: 19302 }),
            s.name@ == "stun.l.google.com"@,
    {
        StunServer { addr: SocketAddr { ip: IpAddr::V4([74, 125, 250, 129]), port: 19302 }, name: "stun.l.google.com" }
    }

    /// Twilio's public STUN server (34.203.254.141:3478).
    pub fn twilio() -> (s: Self)
        ensures
            s.addr == (SocketAddr { ip: IpAddr::V4([34, 203, 254, 141]), port: 3478 }),
            s.name@ == "global.stun.twilio.com"@,
    {
        StunServer {
            addr: SocketAddr { ip: IpAddr::V4([34, 203, 254, 141]), port: 3478 },
            name: "global.stun.twilio.com",
        }
    }
}

/// Generate a random 96-bit transaction ID.
pub fn generate_transaction_id() -> (id: [u8; 12]) {
    crate::random::random_bytes12()
}

/// The bytes of a Binding Request: type, zero length, magic cookie, transaction ID.
pub open spec fn binding_request_bytes(txn: Seq<u8>) -> Seq<u8> {
    u16_bytes(BINDING_REQUEST) + u16_bytes(0) + u32_bytes(MAGIC_COOKIE) + txn
}

/// Build a STUN Binding Request message.
pub fn build_binding_request(transaction_id: &[u8; 12]) -> (b: Vec<u8>)
    ensures
        b@ == binding_request_bytes(transaction_id@),
{
    let mut buf: Vec<u8> = Vec::new();
    push_u16(&mut buf, BINDING_REQUEST);
    push_u16(&mut buf, 0);
    push_u32(&mut buf, MAGIC_COOKIE);
    crate::wire::push_bytes(&mut buf, transaction_id);
    buf
}

/// A socket address as plain values: whether IPv4, the address bytes, and the port.
pub type SockView = ((bool, Seq<u8>), u16);

/// The address a MAPPED-ADDRESS (or, with `xor`, XOR-MAPPED-ADDRESS) value holds. For IPv6
/// with `xor`, only the first four address bytes are unmasked.
pub open spec fn mapped_decode(v: Seq<u8>, xor: bool) -> Option<SockView> {
    if v.len() < 4 {
        None
    } else {
        let port: u16 = if xor { (be16(v, 2) as u16) ^ 0x2112u16 } else { be16(v, 2) as u16 };
        if v[1] == AF_IPV4 && v.len() >= 8 {
            let ip = if xor {
                seq![v[4] ^ 0x21u8, v[5] ^ 0x12u8, v[6] ^ 0xA4u8, v[7] ^ 0x42u8]
            } else {
                v.subrange(4, 8)
            };
            Some(((true, ip), port))
        } else if v[1] == AF_IPV6 && v.len() >= 20 {
            let ip = if xor {
                seq![v[4] ^ 0x21u8, v[5] ^ 0x12u8, v[6] ^ 0xA4u8, v[7] ^ 0x42u8] + v.subrange(8, 20)
            } else {
                v.subrange(4, 20)
            };
            Some(((false, ip), port))
        } else {
            None
        }
    }
}

/// A socket address as plain values.
pub open spec fn sock_of(a: SocketAddr) -> SockView {
    (crate::net::ip_view(a.ip), a.port)
}

/// An optional socket address as plain values.
pub open spec fn opt_sock_of(a: Option<SocketAddr>) -> Option<SockView> {
    match a {
        Some(x) => Some(sock_of(x)),
        None => None,
    }
}

/// The address bytes of a socket address.
pub open spec fn ip_bytes_of(a: SocketAddr) -> Seq<u8> {
    match a.ip {
        IpAddr::V4(o) => o@,
        IpAddr::V6(o) => o@,
    }
}

/// The address bytes of an optional decoded address.
pub open spec fn decoded_bytes(s: Option<SockView>) -> Seq<u8> {
    match s {
        Some(((_, b), _)) => b,
        None => Seq::empty(),
    }
}

/// Parse a MAPPED-ADDRESS or XOR-MAPPED-ADDRESS attribute.
pub fn parse_mapped_address(data: &[u8], xor: bool) -> (r: Option<SocketAddr>)
    ensures
        opt_sock_of(r) == mapped_decode(data@, xor),
{
    if data.len() < 4 {
        return None;
    }
    let family = data[1];
    let raw_port = read_u16(data, 2);
    let port: u16 = if xor { raw_port ^ 0x2112u16 } else { raw_port };
    if family == AF_IPV4 && data.len() >= 8 {
        let ip: [u8; 4] = if xor {
            [data[4] ^ 0x21u8, data[5] ^ 0x12u8, data[6] ^ 0xA4u8, data[7] ^ 0x42u8]
        } else {
            [data[4], data[5], data[6], data[7]]
        };
        let r = SocketAddr { ip: IpAddr::V4(ip), port };
        assert(ip_bytes_of(r) =~= decoded_bytes(mapped_decode(data@, xor)));
        Some(r)
    } else if family == AF_IPV6 && data.len() >= 20 {
        let (a, b, c, d) = if xor {
            (data[4] ^ 0x21u8, data[5] ^ 0x12u8, data[6] ^ 0xA4u8, data[7] ^ 0x42u8)
        } else {
            (data[4], data[5], data[6], data[7])
        };
        let ip: [u8; 16] = [
            a, b, c, d, data[8], data[9], data[10], data[11], data[12], data[13], data[14], data[15],
            data[16], data[17], data[18], data[19],
        ];
        let r = SocketAddr { ip: IpAddr::V6(ip), port };
        assert(ip_bytes_of(r) =~= decoded_bytes(mapped_decode(data@, xor)));
        Some(r)
    } else {
        None
    }
}

/// `n` rounded up to a multiple of four.
pub open spec fn round4(n: nat) -> nat {
    ((n + 3) / 4 * 4) as nat
}

/// The addresses found scanning the attributes of `a` from `p`, where `mapped` and `xor` are
/// the MAPPED-ADDRESS and XOR-MAPPED-ADDRESS values so far; each such attribute replaces the
/// value before it, and a truncated attribute ends the scan.
pub open spec fn scan_mapped(a: Seq<u8>, p: int, mapped: Option<SockView>, xor: Option<SockView>) -> (
    Option<SockView>,
    Option<SockView>,
)
    decreases a.len() - p,
{
    if p < 0 || a.len() - p < 4 {
        (mapped, xor)
    } else {
        let t = be16(a, p);
        let len = be16(a, p + 2);
        if a.len() - p - 4 < len {
            (mapped, xor)
        } else {
            let v = a.subrange(p + 4, p + 4 + len);
            let m2 = if t == ATTR_MAPPED_ADDRESS { mapped_decode(v, false) } else { mapped };
            let x2 = if t == ATTR_XOR_MAPPED_ADDRESS { mapped_decode(v, true) } else { xor };
            if a.len() - p - 4 >= round4(len) {
                scan_mapped(a, p + 4 + round4(len), m2, x2)
            } else {
                (m2, x2)
            }
        }
    }
}

/// The error that the attributes of an error response describe: the first ERROR-CODE
/// attribute that fits, or code 0 "Unknown error".
pub open spec fn scan_error(a: Seq<u8>, p: int) -> (u16, Seq<char>)
    decreases a.len() - p,
{
    if p < 0 || a.len() - p < 4 {
        (0, "Unknown error"@)
    } else {
        let t = be16(a, p);
        let len = be16(a, p + 2);
        if t == ATTR_ERROR_CODE && len >= 4 && a.len() - p - 4 >= len {
            (
                (a[p + 6] * 100 + a[p + 7]) as u16,
                if len > 4 { utf8_lossy(a.subrange(p + 8, p + 4 + len)) } else { Seq::empty() },
            )
        } else if a.len() - p - 4 >= round4(len) {
            scan_error(a, p + 4 + round4(len))
        } else {
            (0, "Unknown error"@)
        }
    }
}

/// What a binding response `d` to the transaction `txn` gives: the mapped address (the XOR
/// form preferred), or the error.
pub open spec fn binding_response_decode(d: Seq<u8>, txn: Seq<u8>) -> Result<SockView, StunErrorView> {
    if d.len() < 20 {
        Err(StunErrorView::InvalidResponse("Message too short"@))
    } else if be16(d, 0) == BINDING_ERROR {
        let (code, reason) = scan_error(d.subrange(20, d.len() as int), 0);
        Err(StunErrorView::ErrorResponse(code, reason))
    } else if be16(d, 0) != BINDING_RESPONSE {
        Err(StunErrorView::InvalidResponse("Unexpected message type: 0x"@ + hex_fixed(be16(d, 0), 4)))
    } else if d.len() < 20 + be16(d, 2) {
        Err(StunErrorView::InvalidResponse("Truncated message"@))
    } else if be32(d, 4) != MAGIC_COOKIE {
        Err(StunErrorView::InvalidResponse("Invalid magic cookie"@))
    } else if d.subrange(8, 20) != txn {
        Err(StunErrorView::InvalidResponse("Transaction ID mismatch"@))
    } else {
        let (mapped, xor) = scan_mapped(d.subrange(20, 20 + be16(d, 2) as int), 0, None, None);
        match xor {
            Some(x) => Ok(x),
            None => match mapped {
                Some(m) => Ok(m),
                None => Err(StunErrorView::NoMappedAddress),
            },
        }
    }
}

/// Parse an ERROR-CODE attribute from an error response.
pub fn parse_error_response(attrs: &[u8]) -> (e: StunError)
    ensures
        e@ == StunErrorView::ErrorResponse(scan_error(attrs@, 0).0, scan_error(attrs@, 0).1),
{
    let mut p: usize = 0;
    while attrs.len() - p >= 4
        invariant
            p <= attrs@.len(),
            scan_error(attrs@, 0) == scan_error(attrs@, p as int),
        decreases attrs.len() - p,
    {
        let attr_type = read_u16(attrs, p);
        let attr_len = read_u16(attrs, p + 2) as usize;
        let rem = attrs.len() - p - 4;
        if attr_type == ATTR_ERROR_CODE && attr_len >= 4 && rem >= attr_len {
            let class = attrs[p + 6] as u16;
            let number = attrs[p + 7] as u16;
            let code = class * 100 + number;
            let reason = if attr_len > 4 {
                from_utf8_lossy(vstd::slice::slice_subrange(attrs, p + 8, p + 4 + attr_len))
            } else {
                String::new()
            };
            assert(reason@ =~= scan_error(attrs@, p as int).1);
            return StunError::ErrorResponse { code, reason };
        }
        let padded = (attr_len + 3) / 4 * 4;
        if rem >= padded {
            p = p + 4 + padded;
        } else {
            p = attrs.len();
        }
    }
    StunError::ErrorResponse { code: 0, reason: "Unknown error".to_string() }
}

/// Parse a STUN Binding Response and extract the mapped address.
pub fn parse_binding_response(data: &[u8], expected_txn_id: &[u8; 12]) -> (r: Result<SocketAddr, StunError>)
    ensures
        match binding_response_decode(data@, expected_txn_id@) {
            Ok(a) => r matches Ok(x) && sock_of(x) == a,
            Err(e) => r matches Err(x) && x@ == e,
        },
{
    if data.len() < 20 {
        return Err(StunError::InvalidResponse("Message too short".to_string()));
    }
    let msg_type = read_u16(data, 0);
    if msg_type == BINDING_ERROR {
        let rest = vstd::slice::slice_subrange(data, 20, data.len());
        return Err(parse_error_response(rest));
    }
    if msg_type != BINDING_RESPONSE {
        let mut m: Vec<char> = Vec::new();
        push_str(&mut m, "Unexpected message type: 0x");
        push_hex_fixed(&mut m, msg_type as u64, 4);
        return Err(StunError::InvalidResponse(string_of(m.as_slice())));
    }
    let msg_len = read_u16(data, 2) as usize;
    if data.len() - 20 < msg_len {
        return Err(StunError::InvalidResponse("Truncated message".to_string()));
    }
    let cookie = read_u32(data, 4);
    if cookie != MAGIC_COOKIE {
        return Err(StunError::InvalidResponse("Invalid magic cookie".to_string()));
    }
    let mut same = true;
    let mut k: usize = 0;
    while k < 12
        invariant
            k <= 12,
            data@.len() >= 20,
            same == (forall|j: int| 0 <= j < k ==> data@[8 + j] == expected_txn_id@[j]),
        decreases 12 - k,
    {
        if data[8 + k] != expected_txn_id[k] {
            same = false;
        }
        k += 1;
    }
    proof {
        if same {
            assert(data@.subrange(8, 20) =~= expected_txn_id@);
        } else {
            let j = choose|j: int| !(0 <= j < 12 ==> data@[8 + j] == expected_txn_id@[j]);
            assert(data@.subrange(8, 20)[j] != expected_txn_id@[j]);
        }
    }
    if !same {
        return Err(StunError::InvalidResponse("Transaction ID mismatch".to_string()));
    }
    let attrs = vstd::slice::slice_subrange(data, 20, 20 + msg_len);
    let mut mapped: Option<SocketAddr> = None;
    let mut xor: Option<SocketAddr> = None;
    let mut p: usize = 0;
    while attrs.len() - p >= 4
        invariant
            p <= attrs@.len(),
            scan_mapped(attrs@, 0, None, None) == scan_mapped(attrs@, p as int, opt_sock_of(mapped), opt_sock_of(xor)),
        decreases attrs.len() - p,
    {
        let attr_type = read_u16(attrs, p);
        let attr_len = read_u16(attrs, p + 2) as usize;
        let rem = attrs.len() - p - 4;
        if rem < attr_len {
            p = attrs.len();
            continue;
        }
        let value = vstd::slice::slice_subrange(attrs, p + 4, p + 4 + attr_len);
        if attr_type == ATTR_MAPPED_ADDRESS {
            mapped = parse_mapped_address(value, false);
        } else if attr_type == ATTR_XOR_MAPPED_ADDRESS {
            xor = parse_mapped_address(value, true);
        }
        let padded = (attr_len + 3) / 4 * 4;
        if rem >= padded {
            p = p + 4 + padded;
        } else {
            p = attrs.len();
        }
    }
    match xor {
        Some(x) => Ok(x),
        None => match mapped {
            Some(m) => Ok(m),
            None => Err(StunError::NoMappedAddress),
        },
    }
}

} // verus!

verus! {

/// What came back for one attempt of a Binding Request.
pub enum StunReply {
    /// A datagram from `from`.
    Received(SocketAddr, Vec<u8>),
    /// Receiving failed.
    Failed(std::io::Error),
    /// Nothing arrived in time.
    TimedOut,
}

/// What the request loop does next.
pub enum StunStep {
    /// Stop with this outcome.
    Finish(Result<SocketAddr, StunError>),
    /// Send the request again (or, after the last attempt, give up with a timeout).
    NextAttempt,
}

/// The decision after attempt `attempt` (of `retries`) of a Binding Request for transaction
/// `txn` to `server`: a datagram from another address, or one that does not parse as the
/// answer, moves on to the next attempt; a parsed answer finishes with its address; a receive
/// error finishes with it; a timeout on the last attempt finishes with a timeout.
pub fn binding_step(server: &StunServer, txn: &[u8; 12], attempt: u32, retries: u32, reply: StunReply) -> (s: StunStep)
    requires
        attempt < retries,
    ensures
        match reply {
            StunReply::Received(from, data) => if from != server.addr {
                s is NextAttempt
            } else {
                match binding_response_decode(data@, txn@) {
                    Ok(a) => s matches StunStep::Finish(Ok(x)) && sock_of(x) == a,
                    Err(_) => s is NextAttempt,
                }
            },
            StunReply::Failed(_) => s matches StunStep::Finish(Err(e)) && e@ == StunErrorView::Io,
            StunReply::TimedOut => if attempt == retries - 1 {
                s matches StunStep::Finish(Err(e)) && e@ == StunErrorView::Timeout
            } else {
                s is NextAttempt
            },
        },
{
    match reply {
        StunReply::Received(from, data) => {
            if !from.same(&server.addr) {
                return StunStep::NextAttempt;
            }
            match parse_binding_response(data.as_slice(), txn) {
                Ok(addr) => StunStep::Finish(Ok(addr)),
                Err(_) => StunStep::NextAttempt,
            }
        },
        StunReply::Failed(e) => StunStep::Finish(Err(StunError::Io(e))),
        StunReply::TimedOut => {
            if attempt == retries - 1 {
                StunStep::Finish(Err(StunError::Timeout))
            } else {
                StunStep::NextAttempt
            }
        },
    }
}

} // verus!

verus! {

/// An XOR-MAPPED-ADDRESS (RFC 5389 Section 15.2) for an IPv4 address reads back as the
/// address: the port is sent XORed with the cookie's top 16 bits (0x2112) and each address
/// byte with the matching byte of the magic cookie 0x2112A442.
pub proof fn lemma_xor_mapped_ipv4(first: u8, port: u16, a: u8, b: u8, c: u8, d: u8)
    ensures
        mapped_decode(
            seq![first, AF_IPV4] + u16_bytes(port ^ 0x2112u16) + seq![a ^ 0x21u8, b ^ 0x12u8, c ^ 0xA4u8, d ^ 0x42u8],
            true,
        ) == Some::<SockView>(((true, seq![a, b, c, d]), port)),
        mapped_decode(seq![first, AF_IPV4] + u16_bytes(port) + seq![a, b, c, d], false) == Some::<SockView>(
            ((true, seq![a, b, c, d]), port),
        ),
{
    let x = port ^ 0x2112u16;
    crate::wire::lemma_be16_bytes(x);
    crate::wire::lemma_be16_bytes(port);
    let v = seq![first, AF_IPV4] + u16_bytes(x) + seq![a ^ 0x21u8, b ^ 0x12u8, c ^ 0xA4u8, d ^ 0x42u8];
    assert(v[2] == u16_bytes(x)[0] && v[3] == u16_bytes(x)[1]);
    assert(be16(v, 2) == x);
    assert((x ^ 0x2112u16) == port) by (bit_vector)
        requires
            x == port ^ 0x2112u16,
    ;
    assert((a ^ 0x21u8) ^ 0x21u8 == a && (b ^ 0x12u8) ^ 0x12u8 == b && (c ^ 0xA4u8) ^ 0xA4u8 == c && (d
        ^ 0x42u8) ^ 0x42u8 == d) by (bit_vector);
    assert(seq![v[4] ^ 0x21u8, v[5] ^ 0x12u8, v[6] ^ 0xA4u8, v[7] ^ 0x42u8] =~= seq![a, b, c, d]);
    let w = seq![first, AF_IPV4] + u16_bytes(port) + seq![a, b, c, d];
    assert(w[2] == u16_bytes(port)[0] && w[3] == u16_bytes(port)[1]);
    assert(w.subrange(4, 8) =~= seq![a, b, c, d]);
}

} // verus!
