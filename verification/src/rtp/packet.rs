//! RTP packets (RFC 3550): the fixed header, CSRC list, header extension and payload.
//!
//! ```text
//!  0                   1                   2                   3
//!  0 1 2 3 4 5 6 7 8 9 0 1 2 3 4 5 6 7 8 9 0 1 2 3 4 5 6 7 8 9 0 1
//! +-+-+-+-+-+-+-+-+-+-+-+-+-+-+-+-+-+-+-+-+-+-+-+-+-+-+-+-+-+-+-+-+
//! |V=2|P|X|  CC   |M|     PT      |       sequence number         |
//! |                           timestamp                           |
//! |           synchronization source (SSRC) identifier            |
//! |            contributing source (CSRC) identifiers             |
//! ```
use crate::wire::{
    be16, be32, copy_range, push_bytes, push_u16, push_u32, push_u32s, push_zeros, read_u16,
    read_u32, read_u32s, u16_bytes, u32_bytes, u32s_bytes, zeros,
};
use crate::text::{dec, push_dec, push_str, string_of};
use vstd::prelude::*;

verus! {

/// RTP header minimum size (12 bytes).
pub const RTP_HEADER_SIZE: usize = 12;

/// Maximum number of CSRC identifiers.
pub const MAX_CSRC: usize = 15;

/// RTP packet.
#[derive(Debug, Clone)]
pub struct RtpPacket {
    /// RTP version (always 2).
    pub version: u8,
    /// Padding flag.
    pub padding: bool,
    /// Extension header present.
    pub extension: bool,
    /// Marker bit.
    pub marker: bool,
    /// Payload type.
    pub payload_type: u8,
    /// Sequence number.
    pub sequence_number: u16,
    /// Timestamp.
    pub timestamp: u32,
    /// Synchronization source identifier.
    pub ssrc: u32,
    /// Contributing source identifiers.
    pub csrc: Vec<u32>,
    /// Extension header (if present).
    pub extension_header: Option<ExtensionHeader>,
    /// Payload data.
    pub payload: Vec<u8>,
}

/// RTP extension header.
#[derive(Debug, Clone)]
pub struct ExtensionHeader {
    /// Profile-specific identifier.
    pub profile: u16,
    /// Extension data.
    pub data: Vec<u8>,
}

/// RTP parse error.
#[derive(Debug, Clone, PartialEq, Eq, Structural)]
pub enum RtpParseError {
    /// Packet too short (its length in bytes).
    TooShort(usize),
    /// Invalid RTP version.
    InvalidVersion(u8),
    /// Extension header truncated.
    ExtensionTruncated,
    /// Payload truncated.
    PayloadTruncated,
}

impl RtpParseError {
    /// The error's message.
    pub fn to_text(&self) -> (s: String)
        ensures
            s@ == match *self {
                RtpParseError::TooShort(n) => "Packet too short: "@ + dec(n as nat) + " bytes"@,
                RtpParseError::InvalidVersion(v) => "Invalid RTP version: "@ + dec(v as nat),
                RtpParseError::ExtensionTruncated => "Extension header truncated"@,
                RtpParseError::PayloadTruncated => "Payload truncated"@,
            },
    {
        let mut v: Vec<char> = Vec::new();
        match self {
            RtpParseError::TooShort(n) => {
                push_str(&mut v, "Packet too short: ");
                push_dec(&mut v, *n as u64);
                push_str(&mut v, " bytes");
            },
            RtpParseError::InvalidVersion(x) => {
                push_str(&mut v, "Invalid RTP version: ");
                push_dec(&mut v, *x as u64);
            },
            RtpParseError::ExtensionTruncated => push_str(&mut v, "Extension header truncated"),
            RtpParseError::PayloadTruncated => push_str(&mut v, "Payload truncated"),
        }
        string_of(v.as_slice())
    }
}

/// An RTP packet as plain values: the extension header is its profile and data.
pub struct RtpView {
    pub version: u8,
    pub padding: bool,
    pub extension: bool,
    pub marker: bool,
    pub payload_type: u8,
    pub sequence_number: u16,
    pub timestamp: u32,
    pub ssrc: u32,
    pub csrc: Seq<u32>,
    pub extension_header: Option<(u16, Seq<u8>)>,
    pub payload: Seq<u8>,
}

impl View for RtpPacket {
    type V = RtpView;

    open spec fn view(&self) -> RtpView {
        RtpView {
            version: self.version,
            padding: self.padding,
            extension: self.extension,
            marker: self.marker,
            payload_type: self.payload_type,
            sequence_number: self.sequence_number,
            timestamp: self.timestamp,
            ssrc: self.ssrc,
            csrc: self.csrc@,
            extension_header: match self.extension_header {
                Some(e) => Some((e.profile, e.data@)),
                None => None,
            },
            payload: self.payload@,
        }
    }
}

/// Number of 32-bit words needed for `n` bytes.
pub open spec fn words_for(n: nat) -> nat {
    if n % 4 == 0 { n / 4 } else { n / 4 + 1 }
}

/// Where the fixed header and CSRC list of `d` end.
pub open spec fn rtp_fixed_end(d: Seq<u8>) -> int {
    12 + 4 * (d[0] % 16)
}

/// Where the header of `d` ends, extension included.
pub open spec fn rtp_header_end(d: Seq<u8>) -> int {
    if (d[0] / 16) % 2 == 1 {
        rtp_fixed_end(d) + 4 + 4 * be16(d, rtp_fixed_end(d) + 2)
    } else {
        rtp_fixed_end(d)
    }
}

/// Whether the padding flag of `d` is set and a byte follows the header.
pub open spec fn rtp_pads(d: Seq<u8>) -> bool {
    (d[0] / 32) % 2 == 1 && rtp_header_end(d) < d.len()
}

/// What parsing `d` as an RTP packet gives.
pub open spec fn rtp_decode(d: Seq<u8>) -> Result<RtpView, RtpParseError> {
    if d.len() < 12 {
        Err(RtpParseError::TooShort(d.len() as usize))
    } else if d[0] / 64 != 2 {
        Err(RtpParseError::InvalidVersion(d[0] / 64))
    } else if d.len() < rtp_fixed_end(d) {
        Err(RtpParseError::TooShort(d.len() as usize))
    } else if (d[0] / 16) % 2 == 1 && d.len() < rtp_fixed_end(d) + 4 {
        Err(RtpParseError::ExtensionTruncated)
    } else if d.len() < rtp_header_end(d) {
        Err(RtpParseError::ExtensionTruncated)
    } else if rtp_pads(d) && d.len() - rtp_header_end(d) < d.last() {
        Err(RtpParseError::PayloadTruncated)
    } else {
        let fixed = rtp_fixed_end(d);
        let end = rtp_header_end(d);
        Ok(RtpView {
            version: 2,
            padding: (d[0] / 32) % 2 == 1,
            extension: (d[0] / 16) % 2 == 1,
            marker: d[1] >= 128,
            payload_type: d[1] % 128,
            sequence_number: be16(d, 2) as u16,
            timestamp: be32(d, 4) as u32,
            ssrc: be32(d, 8) as u32,
            csrc: Seq::new((d[0] % 16) as nat, |k: int| be32(d, 12 + 4 * k) as u32),
            extension_header: if (d[0] / 16) % 2 == 1 {
                Some((be16(d, fixed) as u16, d.subrange(fixed + 4, end)))
            } else {
                None
            },
            payload: d.subrange(end, if rtp_pads(d) { d.len() - d.last() } else { d.len() as int }),
        })
    }
}

/// The first header byte written for `p`.
pub open spec fn rtp_first_byte(p: RtpView) -> u8 {
    ((p.version % 4) * 64 + (if p.padding { 32int } else { 0 }) + (if p.extension_header is Some {
        16int
    } else {
        0
    }) + p.csrc.len() % 16) as u8
}

/// The bytes written for an extension header: profile, length in words, data, zero padding.
pub open spec fn rtp_extension_bytes(e: Option<(u16, Seq<u8>)>) -> Seq<u8> {
    match e {
        None => Seq::empty(),
        Some((profile, data)) => u16_bytes(profile) + u16_bytes((words_for(data.len()) % 65536) as u16)
            + data + zeros((4 * words_for(data.len()) - data.len()) as nat),
    }
}

/// The bytes written for `p`.
pub open spec fn rtp_encode(p: RtpView) -> Seq<u8> {
    seq![rtp_first_byte(p), ((if p.marker { 128int } else { 0 }) + p.payload_type % 128) as u8]
        + u16_bytes(p.sequence_number) + u32_bytes(p.timestamp) + u32_bytes(p.ssrc)
        + u32s_bytes(p.csrc) + rtp_extension_bytes(p.extension_header) + p.payload
}

/// The header size in bytes that `p` is written with.
pub open spec fn rtp_header_size(p: RtpView) -> int {
    (12 + 4 * p.csrc.len() + match p.extension_header {
        Some((_, data)) => 4 + 4 * words_for(data.len()),
        None => 0,
    }) as int
}

impl RtpPacket {
    /// Parse an RTP packet from bytes.
    pub fn parse(data: &[u8]) -> (r: Result<Self, RtpParseError>)
        ensures
            match r {
                Ok(p) => rtp_decode(data@) == Ok::<RtpView, RtpParseError>(p@),
                Err(e) => rtp_decode(data@) == Err::<RtpView, RtpParseError>(e),
            },
    {
        let n = data.len();
        if n < RTP_HEADER_SIZE {
            return Err(RtpParseError::TooShort(n));
        }
        let first_byte = data[0];
        let version = first_byte / 64;
        let padding = (first_byte / 32) % 2 == 1;
        let extension = (first_byte / 16) % 2 == 1;
        let csrc_count = (first_byte % 16) as usize;
        if version != 2 {
            return Err(RtpParseError::InvalidVersion(version));
        }
        let second_byte = data[1];
        let marker = second_byte >= 128;
        let payload_type = second_byte % 128;
        let sequence_number = read_u16(data, 2);
        let timestamp = read_u32(data, 4);
        let ssrc = read_u32(data, 8);
        let fixed = RTP_HEADER_SIZE + csrc_count * 4;
        if n < fixed {
            return Err(RtpParseError::TooShort(n));
        }
        let csrc = read_u32s(data, 12, csrc_count);
        let mut off = fixed;
        let extension_header = if extension {
            if n - fixed < 4 {
                return Err(RtpParseError::ExtensionTruncated);
            }
            let profile = read_u16(data, fixed);
            let length = read_u16(data, fixed + 2) as usize * 4;
            if n - (fixed + 4) < length {
                return Err(RtpParseError::ExtensionTruncated);
            }
            let ext_data = copy_range(data, fixed + 4, fixed + 4 + length);
            off = fixed + 4 + length;
            Some(ExtensionHeader { profile, data: ext_data })
        } else {
            None
        };
        assert(off == rtp_header_end(data@));
        let payload_end = if padding && off < n {
            let padding_count = data[n - 1] as usize;
            if n - off < padding_count {
                return Err(RtpParseError::PayloadTruncated);
            }
            n - padding_count
        } else {
            n
        };
        let payload = copy_range(data, off, payload_end);
        let p = RtpPacket {
            version,
            padding,
            extension,
            marker,
            payload_type,
            sequence_number,
            timestamp,
            ssrc,
            csrc,
            extension_header,
            payload,
        };
        proof {
            let d = data@;
            assert(p@.csrc =~= Seq::new((d[0] % 16) as nat, |k: int| be32(d, 12 + 4 * k) as u32));
            let m = rtp_decode(d);
            assert(m matches Ok(v) && v == p@);
        }
        Ok(p)
    }

    /// Build an RTP packet to bytes.
    pub fn build(&self) -> (b: Vec<u8>)
        ensures
            b@ == rtp_encode(self@),
    {
        let mut buf: Vec<u8> = Vec::new();
        let ext_bit: u8 = if self.extension_header.is_some() { 16 } else { 0 };
        let pad_bit: u8 = if self.padding { 32 } else { 0 };
        let first_byte: u8 = (self.version % 4) * 64 + pad_bit + ext_bit + (self.csrc.len() % 16) as u8;
        buf.push(first_byte);
        let marker_bit: u8 = if self.marker { 128 } else { 0 };
        buf.push(marker_bit + self.payload_type % 128);
        push_u16(&mut buf, self.sequence_number);
        push_u32(&mut buf, self.timestamp);
        push_u32(&mut buf, self.ssrc);
        push_u32s(&mut buf, self.csrc.as_slice());
        let ghost before_ext = buf@;
        match &self.extension_header {
            Some(ext) => {
                push_u16(&mut buf, ext.profile);
                let len = ext.data.len();
                let word_len: usize = if len % 4 == 0 { len / 4 } else { len / 4 + 1 };
                push_u16(&mut buf, (word_len % 65536) as u16);
                push_bytes(&mut buf, ext.data.as_slice());
                let pad: usize = if len % 4 == 0 { 0 } else { 4 - len % 4 };
                assert(pad == 4 * words_for(len as nat) - len);
                push_zeros(&mut buf, pad);
            },
            None => {},
        }
        assert(buf@ =~= before_ext + rtp_extension_bytes(self@.extension_header));
        push_bytes(&mut buf, self.payload.as_slice());
        assert(buf@ =~= rtp_encode(self@));
        buf
    }

    /// Create a new RTP packet.
    pub fn new(payload_type: u8, sequence_number: u16, timestamp: u32, ssrc: u32) -> (p: Self)
        ensures
            p.version == 2,
            !p.padding,
            !p.extension,
            !p.marker,
            p.payload_type == payload_type,
            p.sequence_number == sequence_number,
            p.timestamp == timestamp,
            p.ssrc == ssrc,
            p.csrc@.len() == 0,
            p.extension_header is None,
            p.payload@.len() == 0,
    {
        RtpPacket {
            version: 2,
            padding: false,
            extension: false,
            marker: false,
            payload_type,
            sequence_number,
            timestamp,
            ssrc,
            csrc: Vec::new(),
            extension_header: None,
            payload: Vec::new(),
        }
    }

    /// Set the marker bit.
    pub fn with_marker(self, marker: bool) -> (p: Self)
        ensures
            p@ == (RtpView { marker, ..self@ }),
    {
        let mut s = self;
        s.marker = marker;
        s
    }

    /// Set the payload.
    pub fn with_payload(self, payload: Vec<u8>) -> (p: Self)
        ensures
            p@ == (RtpView { payload: payload@, ..self@ }),
    {
        let mut s = self;
        s.payload = payload;
        s
    }

    /// Add a CSRC, unless the list already holds the most an RTP header can carry.
    pub fn with_csrc(self, csrc: u32) -> (p: Self)
        ensures
            self.csrc@.len() < MAX_CSRC ==> p@ == (RtpView { csrc: self.csrc@.push(csrc), ..self@ }),
            self.csrc@.len() >= MAX_CSRC ==> p@ == self@,
    {
        let mut s = self;
        if s.csrc.len() < MAX_CSRC {
            s.csrc.push(csrc);
        }
        s
    }

    /// Get header size in bytes.
    pub fn header_size(&self) -> (n: usize)
        requires
            rtp_header_size(self@) <= usize::MAX,
        ensures
            n == rtp_header_size(self@),
    {
        let ext = match &self.extension_header {
            Some(e) => {
                let len = e.data.len();
                let words: usize = if len % 4 == 0 { len / 4 } else { len / 4 + 1 };
                4 + words * 4
            },
            None => 0,
        };
        RTP_HEADER_SIZE + self.csrc.len() * 4 + ext
    }
}

/// The signed distance from `b` to `a` on the 16-bit sequence number circle.
pub open spec fn seq_distance(a: u16, b: u16) -> int {
    let d = (a - b) % 65536;
    if d >= 32768 { d - 65536 } else { d }
}

/// Calculate the sequence number difference handling wraparound.
pub fn sequence_diff(a: u16, b: u16) -> (d: i32)
    ensures
        d == seq_distance(a, b),
        -32768 <= d < 32768,
{
    let w = a.wrapping_sub(b);
    if w >= 32768 {
        w as i32 - 65536
    } else {
        w as i32
    }
}

/// Check if sequence number a is newer than b.
pub fn sequence_newer(a: u16, b: u16) -> (r: bool)
    ensures
        r == (seq_distance(a, b) > 0),
{
    sequence_diff(a, b) > 0
}

/// Stepping `d` numbers forward from `b` (with wraparound) is a distance of `d`, for every
/// `d` the signed 16-bit range holds.
pub proof fn lemma_sequence_diff_step(b: u16, d: int)
    requires
        -32768 <= d < 32768,
    ensures
        seq_distance(((b + d) % 65536) as u16, b) == d,
{
}

/// The distance one way is the negated distance the other way, except at the half-way point.
pub proof fn lemma_sequence_diff_antisymmetric(a: u16, b: u16)
    requires
        seq_distance(a, b) != -32768,
    ensures
        seq_distance(b, a) == -seq_distance(a, b),
{
}

/// Of two different sequence numbers, at most one is newer than the other.
pub proof fn lemma_sequence_newer_asymmetric(a: u16, b: u16)
    ensures
        !(seq_distance(a, b) > 0 && seq_distance(b, a) > 0),
{
}

/// Whether `p` is written in a form that parsing reads back field for field: version 2, a
/// payload type of seven bits, at most fifteen CSRCs, no padding flag, and extension data of
/// whole words that the length field can count.
pub open spec fn rtp_round_trips(p: RtpView) -> bool {
    &&& p.version == 2
    &&& p.payload_type < 128
    &&& p.csrc.len() <= MAX_CSRC
    &&& !p.padding
    &&& p.extension == (p.extension_header is Some)
    &&& match p.extension_header {
        Some((_, data)) => data.len() % 4 == 0 && data.len() / 4 < 65536,
        None => true,
    }
}

/// Parsing what `build` writes gives back the packet.
#[verifier::spinoff_prover]
#[verifier::rlimit(60)]
pub proof fn lemma_rtp_round_trip(p: RtpView)
    requires
        rtp_round_trips(p),
    ensures
        rtp_decode(rtp_encode(p)) == Ok::<RtpView, RtpParseError>(p),
{
    let d = rtp_encode(p);
    let cc = p.csrc.len();
    crate::wire::lemma_be16_bytes(p.sequence_number);
    crate::wire::lemma_be32_bytes(p.timestamp);
    crate::wire::lemma_be32_bytes(p.ssrc);
    crate::wire::lemma_u32s_bytes(p.csrc);
    let head = seq![rtp_first_byte(p), ((if p.marker { 128int } else { 0 }) + p.payload_type % 128) as u8];
    let fixed_part = head + u16_bytes(p.sequence_number) + u32_bytes(p.timestamp) + u32_bytes(p.ssrc);
    let with_csrc = fixed_part + u32s_bytes(p.csrc);
    let ext = rtp_extension_bytes(p.extension_header);
    assert(d =~= with_csrc + ext + p.payload);
    assert(fixed_part.len() == 12);
    assert(with_csrc.len() == 12 + 4 * cc);
    assert(d[0] == rtp_first_byte(p));
    assert(d[0] / 64 == 2);
    assert(d[0] % 16 == cc);
    assert((d[0] / 16) % 2 == 1 <==> p.extension_header is Some);
    assert((d[0] / 32) % 2 == 0);
    assert(d[1] >= 128 <==> p.marker);
    assert(d[1] % 128 == p.payload_type);
    assert(be16(d, 2) == be16(u16_bytes(p.sequence_number), 0));
    assert(be32(d, 4) == be32(u32_bytes(p.timestamp), 0));
    assert(be32(d, 8) == be32(u32_bytes(p.ssrc), 0));
    let fixed = rtp_fixed_end(d);
    assert(fixed == 12 + 4 * cc);
    assert forall|k: int| 0 <= k < cc implies be32(d, 12 + 4 * k) == p.csrc[k] by {
        assert(be32(d, 12 + 4 * k) == be32(u32s_bytes(p.csrc), 4 * k));
    }
    match p.extension_header {
        Some((profile, data)) => {
            crate::wire::lemma_be16_bytes(profile);
            let w = words_for(data.len());
            crate::wire::lemma_be16_bytes((w % 65536) as u16);
            assert(zeros((4 * w - data.len()) as nat) =~= Seq::<u8>::empty());
            assert(be16(d, fixed) == be16(u16_bytes(profile), 0));
            assert(be16(d, fixed + 2) == be16(u16_bytes((w % 65536) as u16), 0));
            assert(rtp_header_end(d) == fixed + 4 + data.len());
            assert(d.subrange(fixed + 4, fixed + 4 + data.len()) =~= data);
            assert(d.subrange(fixed + 4 + data.len(), d.len() as int) =~= p.payload);
        },
        None => {
            assert(d.subrange(fixed, d.len() as int) =~= p.payload);
        },
    }
    assert(Seq::new((d[0] % 16) as nat, |k: int| be32(d, 12 + 4 * k) as u32) =~= p.csrc);
}

} // verus!
