//! RTCP packets (RFC 3550): sender and receiver reports, source description, goodbye, and
//! compound packets.
//!
//! ```text
//!  0                   1                   2                   3
//!  0 1 2 3 4 5 6 7 8 9 0 1 2 3 4 5 6 7 8 9 0 1 2 3 4 5 6 7 8 9 0 1
//! +-+-+-+-+-+-+-+-+-+-+-+-+-+-+-+-+-+-+-+-+-+-+-+-+-+-+-+-+-+-+-+-+
//! |V=2|P|    RC   |   PT=SR=200   |             length            |
//! +-+-+-+-+-+-+-+-+-+-+-+-+-+-+-+-+-+-+-+-+-+-+-+-+-+-+-+-+-+-+-+-+
//! ```
use crate::wire::{
    be16, be32, lemma_be16_bytes, lemma_u32s_bytes, push_bytes, push_u16, push_u32, push_u32s, push_zeros, read_u16, read_u32,
    u16_bytes, u32_bytes, u32s_bytes, zeros,
};
use crate::text::{dec, push_dec, push_str, string_of};
use vstd::prelude::*;
use vstd::utf8::encode_utf8;

verus! {

/// RTCP packet types.
#[derive(Debug, Clone, Copy, PartialEq, Eq, Structural)]
pub enum RtcpType {
    /// Sender Report (200).
    SenderReport,
    /// Receiver Report (201).
    ReceiverReport,
    /// Source Description (202).
    SourceDescription,
    /// Goodbye (203).
    Goodbye,
    /// Application-defined (204).
    ApplicationDefined,
}

/// The packet type number of an RTCP type.
pub open spec fn rtcp_type_code(t: RtcpType) -> u8 {
    match t {
        RtcpType::SenderReport => 200,
        RtcpType::ReceiverReport => 201,
        RtcpType::SourceDescription => 202,
        RtcpType::Goodbye => 203,
        RtcpType::ApplicationDefined => 204,
    }
}

/// The RTCP type with packet type number `v`, if there is one.
pub open spec fn rtcp_type_of(v: u8) -> Option<RtcpType> {
    if v == 200 {
        Some(RtcpType::SenderReport)
    } else if v == 201 {
        Some(RtcpType::ReceiverReport)
    } else if v == 202 {
        Some(RtcpType::SourceDescription)
    } else if v == 203 {
        Some(RtcpType::Goodbye)
    } else if v == 204 {
        Some(RtcpType::ApplicationDefined)
    } else {
        None
    }
}

impl RtcpType {
    /// The packet type number.
    pub fn code(&self) -> (c: u8)
        ensures
            c == rtcp_type_code(*self),
    {
        match self {
            RtcpType::SenderReport => 200,
            RtcpType::ReceiverReport => 201,
            RtcpType::SourceDescription => 202,
            RtcpType::Goodbye => 203,
            RtcpType::ApplicationDefined => 204,
        }
    }

    /// The type with packet type number `value`.
    pub fn from_code(value: u8) -> (r: Result<Self, RtcpParseError>)
        ensures
            match rtcp_type_of(value) {
                Some(t) => r == Ok::<RtcpType, RtcpParseError>(t),
                None => r == Err::<RtcpType, RtcpParseError>(RtcpParseError::UnknownPacketType(value)),
            },
    {
        match value {
            200 => Ok(RtcpType::SenderReport),
            201 => Ok(RtcpType::ReceiverReport),
            202 => Ok(RtcpType::SourceDescription),
            203 => Ok(RtcpType::Goodbye),
            204 => Ok(RtcpType::ApplicationDefined),
            _ => Err(RtcpParseError::UnknownPacketType(value)),
        }
    }
}

/// The type number maps back to the type.
pub proof fn lemma_rtcp_type_code(t: RtcpType)
    ensures
        rtcp_type_of(rtcp_type_code(t)) == Some(t),
{
}

/// RTCP parse error.
#[derive(Debug, Clone, PartialEq, Eq, Structural)]
pub enum RtcpParseError {
    /// Packet too short (the length in bytes).
    TooShort(usize),
    /// Invalid RTCP version.
    InvalidVersion(u8),
    /// Unknown packet type.
    UnknownPacketType(u8),
    /// Invalid report block count.
    InvalidReportCount,
}

impl RtcpParseError {
    /// The error's message.
    pub fn to_text(&self) -> (s: String)
        ensures
            s@ == match *self {
                RtcpParseError::TooShort(n) => "Packet too short: "@ + dec(n as nat) + " bytes"@,
                RtcpParseError::InvalidVersion(v) => "Invalid RTCP version: "@ + dec(v as nat),
                RtcpParseError::UnknownPacketType(t) => "Unknown packet type: "@ + dec(t as nat),
                RtcpParseError::InvalidReportCount => "Invalid report block count"@,
            },
    {
        let mut v: Vec<char> = Vec::new();
        match self {
            RtcpParseError::TooShort(n) => {
                push_str(&mut v, "Packet too short: ");
                push_dec(&mut v, *n as u64);
                push_str(&mut v, " bytes");
            },
            RtcpParseError::InvalidVersion(x) => {
                push_str(&mut v, "Invalid RTCP version: ");
                push_dec(&mut v, *x as u64);
            },
            RtcpParseError::UnknownPacketType(t) => {
                push_str(&mut v, "Unknown packet type: ");
                push_dec(&mut v, *t as u64);
            },
            RtcpParseError::InvalidReportCount => push_str(&mut v, "Invalid report block count"),
        }
        string_of(v.as_slice())
    }
}

/// Common RTCP header (4 bytes).
#[derive(Debug, Clone, Copy, PartialEq, Eq, Structural)]
pub struct RtcpHeader {
    /// Version (always 2).
    pub version: u8,
    /// Padding flag.
    pub padding: bool,
    /// Report count or subtype.
    pub count: u8,
    /// Packet type.
    pub packet_type: RtcpType,
    /// Length in 32-bit words minus one.
    pub length: u16,
}

/// What parsing the common header at the start of `d` gives.
pub open spec fn rtcp_header_decode(d: Seq<u8>) -> Result<RtcpHeader, RtcpParseError> {
    if d.len() < 4 {
        Err(RtcpParseError::TooShort(d.len() as usize))
    } else if d[0] / 64 != 2 {
        Err(RtcpParseError::InvalidVersion(d[0] / 64))
    } else {
        match rtcp_type_of(d[1]) {
            None => Err(RtcpParseError::UnknownPacketType(d[1])),
            Some(t) => Ok(
                RtcpHeader {
                    version: 2,
                    padding: (d[0] / 32) % 2 == 1,
                    count: d[0] % 32,
                    packet_type: t,
                    length: be16(d, 2) as u16,
                },
            ),
        }
    }
}

/// The four bytes written for a header.
pub open spec fn rtcp_header_bytes(h: RtcpHeader) -> Seq<u8> {
    seq![
        ((h.version % 4) * 64 + (if h.padding { 32int } else { 0 }) + h.count % 32) as u8,
        rtcp_type_code(h.packet_type),
    ] + u16_bytes(h.length)
}

impl RtcpHeader {
    /// Parse RTCP header from bytes; also gives the bytes after it.
    pub fn parse(data: &[u8]) -> (r: Result<(Self, &[u8]), RtcpParseError>)
        ensures
            match r {
                Ok((h, rest)) => rtcp_header_decode(data@) == Ok::<RtcpHeader, RtcpParseError>(h)
                    && rest@ == data@.subrange(4, data@.len() as int),
                Err(e) => rtcp_header_decode(data@) == Err::<RtcpHeader, RtcpParseError>(e),
            },
    {
        if data.len() < 4 {
            return Err(RtcpParseError::TooShort(data.len()));
        }
        let first_byte = data[0];
        let version = first_byte / 64;
        let padding = (first_byte / 32) % 2 == 1;
        let count = first_byte % 32;
        if version != 2 {
            return Err(RtcpParseError::InvalidVersion(version));
        }
        let packet_type = match RtcpType::from_code(data[1]) {
            Ok(t) => t,
            Err(e) => return Err(e),
        };
        let length = read_u16(data, 2);
        let rest = vstd::slice::slice_subrange(data, 4, data.len());
        Ok((RtcpHeader { version, padding, count, packet_type, length }, rest))
    }

    /// Append the header's bytes to `buf`.
    pub fn build(&self, buf: &mut Vec<u8>)
        ensures
            final(buf)@ == old(buf)@ + rtcp_header_bytes(*self),
    {
        let pad_bit: u8 = if self.padding { 32 } else { 0 };
        buf.push((self.version % 4) * 64 + pad_bit + self.count % 32);
        buf.push(self.packet_type.code());
        push_u16(buf, self.length);
        assert(final(buf)@ =~= old(buf)@ + rtcp_header_bytes(*self));
    }
}

/// NTP timestamp (64 bits: 32-bit seconds + 32-bit fraction).
#[derive(Debug, Clone, Copy, Default, PartialEq, Eq, Structural)]
pub struct NtpTimestamp {
    /// Seconds since 1900.
    pub seconds: u32,
    /// Fractional seconds.
    pub fraction: u32,
}

/// NTP epoch offset from Unix epoch (1900 to 1970), in seconds.
pub const NTP_UNIX_OFFSET: u64 = 2_208_988_800;

/// The middle 32 bits of an NTP timestamp.
pub open spec fn ntp_compact(t: NtpTimestamp) -> nat {
    ((t.seconds % 65536) * 65536 + t.fraction / 65536) as nat
}

impl NtpTimestamp {
    /// The NTP timestamp of a Unix time of `secs` seconds and `nanos` nanoseconds: seconds
    /// since 1900 modulo 2^32, and the nanoseconds as a binary fraction of a second.
    pub fn from_unix(secs: u64, nanos: u32) -> (t: Self)
        requires
            nanos < 1_000_000_000,
        ensures
            t.seconds == (secs + NTP_UNIX_OFFSET) % 0x1_0000_0000,
            t.fraction == (nanos * 0x1_0000_0000) / 1_000_000_000,
    {
        let seconds = ((secs as u128 + NTP_UNIX_OFFSET as u128) % 0x1_0000_0000) as u32;
        let scaled: u64 = (nanos as u64) * 0x1_0000_0000;
        let fraction = (scaled / 1_000_000_000) as u32;
        NtpTimestamp { seconds, fraction }
    }

    /// Create NTP timestamp from current time: the NTP form of the wall clock's Unix time,
    /// which the clock alone decides.
    pub fn now() -> (t: Self)
        ensures
            exists|secs: u64, nanos: u32|
                #![trigger (secs + NTP_UNIX_OFFSET) % 0x1_0000_0000, (nanos * 0x1_0000_0000) / 1_000_000_000]
                nanos < 1_000_000_000 && t.seconds == (secs + NTP_UNIX_OFFSET) % 0x1_0000_0000 && t.fraction == (nanos
                    * 0x1_0000_0000) / 1_000_000_000,
    {
        let (secs, nanos) = crate::time::unix_time_now();
        Self::from_unix(secs, nanos)
    }

    /// Convert to compact 32-bit representation (middle 32 bits).
    pub fn compact(&self) -> (c: u32)
        ensures
            c == ntp_compact(*self),
    {
        (self.seconds % 65536) * 65536 + self.fraction / 65536
    }

    /// Create from compact 32-bit representation.
    pub fn from_compact(compact: u32) -> (t: Self)
        ensures
            t.seconds == compact / 65536,
            t.fraction == (compact % 65536) * 65536,
    {
        NtpTimestamp { seconds: compact / 65536, fraction: (compact % 65536) * 65536 }
    }
}

/// A compact timestamp survives expansion and compaction.
pub proof fn lemma_ntp_compact_round_trip(c: u32)
    ensures
        ntp_compact(NtpTimestamp { seconds: c / 65536, fraction: ((c % 65536) * 65536) as u32 }) == c,
{
    assert((((c % 65536) * 65536) as u32) / 65536 == c % 65536) by (nonlinear_arith);
    assert((c / 65536) % 65536 == c / 65536);
    assert((c / 65536) * 65536 + c % 65536 == c) by (nonlinear_arith);
}

/// Report block in SR/RR packets.
#[derive(Debug, Clone, Copy, Default, PartialEq, Eq, Structural)]
pub struct ReportBlock {
    /// SSRC of the source being reported.
    pub ssrc: u32,
    /// Fraction of packets lost (0-255, representing 0.0-1.0).
    pub fraction_lost: u8,
    /// Cumulative packets lost (24-bit signed).
    pub cumulative_lost: i32,
    /// Extended highest sequence number received.
    pub extended_seq: u32,
    /// Interarrival jitter.
    pub jitter: u32,
    /// Last SR timestamp (compact NTP).
    pub last_sr: u32,
    /// Delay since last SR (1/65536 seconds).
    pub delay_since_sr: u32,
}

/// Size of a report block in bytes.
pub const REPORT_BLOCK_SIZE: usize = 24;

/// The big-endian 24-bit value of the three bytes at `i`.
pub open spec fn be24(d: Seq<u8>, i: int) -> nat {
    (d[i] as nat) * 65536 + (d[i + 1] as nat) * 256 + (d[i + 2] as nat)
}

/// A 24-bit two's complement value read as a signed number.
pub open spec fn signed24(v: nat) -> int {
    if v >= 8388608 { v - 16777216 } else { v as int }
}

/// The low 24 bits of the two's complement of `c`, in network order.
pub open spec fn lost24_bytes(c: i32) -> Seq<u8> {
    let l = (c + 4294967296) % 16777216;
    seq![(l / 65536) as u8, ((l / 256) % 256) as u8, (l % 256) as u8]
}

/// The block read from the 24 bytes of `d` at `i`.
pub open spec fn report_block_at(d: Seq<u8>, i: int) -> ReportBlock {
    ReportBlock {
        ssrc: be32(d, i) as u32,
        fraction_lost: d[i + 4],
        cumulative_lost: signed24(be24(d, i + 5)) as i32,
        extended_seq: be32(d, i + 8) as u32,
        jitter: be32(d, i + 12) as u32,
        last_sr: be32(d, i + 16) as u32,
        delay_since_sr: be32(d, i + 20) as u32,
    }
}

/// The 24 bytes written for a block.
pub open spec fn report_block_bytes(b: ReportBlock) -> Seq<u8> {
    u32_bytes(b.ssrc) + seq![b.fraction_lost] + lost24_bytes(b.cumulative_lost) + u32_bytes(
        b.extended_seq,
    ) + u32_bytes(b.jitter) + u32_bytes(b.last_sr) + u32_bytes(b.delay_since_sr)
}

/// The bytes written for a list of blocks.
pub open spec fn report_blocks_bytes(s: Seq<ReportBlock>) -> Seq<u8>
    decreases s.len(),
{
    if s.len() == 0 {
        Seq::empty()
    } else {
        report_blocks_bytes(s.drop_last()) + report_block_bytes(s.last())
    }
}

/// Whether the cumulative loss of `b` fits the 24-bit signed field.
pub open spec fn lost_fits(b: ReportBlock) -> bool {
    -8388608 <= b.cumulative_lost < 8388608
}

impl ReportBlock {
    /// Parse a report block from bytes.
    pub fn parse(data: &[u8]) -> (r: Result<Self, RtcpParseError>)
        ensures
            data@.len() < REPORT_BLOCK_SIZE ==> r == Err::<ReportBlock, RtcpParseError>(
                RtcpParseError::TooShort(data@.len() as usize),
            ),
            data@.len() >= REPORT_BLOCK_SIZE ==> r == Ok::<ReportBlock, RtcpParseError>(
                report_block_at(data@, 0),
            ),
    {
        if data.len() < REPORT_BLOCK_SIZE {
            return Err(RtcpParseError::TooShort(data.len()));
        }
        Ok(Self::read_at(data, 0))
    }

    /// The block in the 24 bytes of `data` at `at`.
    fn read_at(data: &[u8], at: usize) -> (b: Self)
        requires
            at + 24 <= data.len(),
        ensures
            b == report_block_at(data@, at as int),
    {
        let b5 = data[at + 5] as u32;
        let b6 = data[at + 6] as u32;
        let b7 = data[at + 7] as u32;
        let lost: u32 = b5 * 65536 + b6 * 256 + b7;
        let cumulative_lost: i32 = if lost >= 8388608 { (lost as i32) - 16777216 } else { lost as i32 };
        ReportBlock {
            ssrc: read_u32(data, at),
            fraction_lost: data[at + 4],
            cumulative_lost,
            extended_seq: read_u32(data, at + 8),
            jitter: read_u32(data, at + 12),
            last_sr: read_u32(data, at + 16),
            delay_since_sr: read_u32(data, at + 20),
        }
    }

    /// Append the block's bytes to `buf`.
    pub fn build(&self, buf: &mut Vec<u8>)
        ensures
            final(buf)@ == old(buf)@ + report_block_bytes(*self),
    {
        push_u32(buf, self.ssrc);
        buf.push(self.fraction_lost);
        let l: u64 = ((self.cumulative_lost as i64 + 4294967296) as u64) % 16777216;
        buf.push((l / 65536) as u8);
        buf.push(((l / 256) % 256) as u8);
        buf.push((l % 256) as u8);
        push_u32(buf, self.extended_seq);
        push_u32(buf, self.jitter);
        push_u32(buf, self.last_sr);
        push_u32(buf, self.delay_since_sr);
        assert(final(buf)@ =~= old(buf)@ + report_block_bytes(*self));
    }
}

/// The 24-bit field written for a loss count that fits reads back as that count.
proof fn lemma_lost24_round_trip(c: i32)
    requires
        -8388608 <= c < 8388608,
    ensures
        signed24(be24(lost24_bytes(c), 0)) == c,
{
    let l = (c + 4294967296) % 16777216;
    assert(l == if c >= 0 { c as int } else { c + 16777216 });
    assert((l / 65536) * 65536 + ((l / 256) % 256) * 256 + l % 256 == l) by (nonlinear_arith)
        requires
            0 <= l < 16777216,
    ;
}

/// Reading back the bytes of a block whose loss fits 24 bits gives the block.
#[verifier::spinoff_prover]
pub proof fn lemma_report_block_round_trip(b: ReportBlock)
    requires
        lost_fits(b),
    ensures
        report_block_bytes(b).len() == REPORT_BLOCK_SIZE,
        report_block_at(report_block_bytes(b), 0) == b,
{
    let d = report_block_bytes(b);
    crate::wire::lemma_be32_bytes(b.ssrc);
    crate::wire::lemma_be32_bytes(b.extended_seq);
    crate::wire::lemma_be32_bytes(b.jitter);
    crate::wire::lemma_be32_bytes(b.last_sr);
    crate::wire::lemma_be32_bytes(b.delay_since_sr);
    lemma_lost24_round_trip(b.cumulative_lost);
    let lb = lost24_bytes(b.cumulative_lost);
    assert(d.len() == 24);
    assert(be24(d, 5) == be24(lb, 0));
    assert(be32(d, 0) == be32(u32_bytes(b.ssrc), 0));
    assert(be32(d, 8) == be32(u32_bytes(b.extended_seq), 0));
    assert(be32(d, 12) == be32(u32_bytes(b.jitter), 0));
    assert(be32(d, 16) == be32(u32_bytes(b.last_sr), 0));
    assert(be32(d, 20) == be32(u32_bytes(b.delay_since_sr), 0));
}

/// A block is read from its own 24 bytes alone.
proof fn lemma_block_at_window(d: Seq<u8>, i: int)
    requires
        0 <= i,
        i + 24 <= d.len(),
    ensures
        report_block_at(d, i) == report_block_at(d.subrange(i, i + 24), 0),
{
}

/// The blocks written one after another read back in order.
#[verifier::spinoff_prover]
#[verifier::rlimit(60)]
pub proof fn lemma_report_blocks_round_trip(s: Seq<ReportBlock>)
    requires
        forall|k: int| 0 <= k < s.len() ==> lost_fits(#[trigger] s[k]),
    ensures
        report_blocks_bytes(s).len() == REPORT_BLOCK_SIZE * s.len(),
        forall|k: int|
            0 <= k < s.len() ==> report_block_at(#[trigger] report_blocks_bytes(s), REPORT_BLOCK_SIZE * k)
                == s[k],
    decreases s.len(),
{
    if s.len() > 0 {
        let p = s.drop_last();
        assert forall|k: int| 0 <= k < p.len() implies lost_fits(#[trigger] p[k]) by {
            assert(p[k] == s[k]);
        }
        lemma_report_blocks_round_trip(p);
        assert(lost_fits(s[s.len() - 1]));
        lemma_report_block_round_trip(s.last());
        let d = report_blocks_bytes(s);
        let q = report_blocks_bytes(p);
        let e = report_block_bytes(s.last());
        assert(d =~= q + e);
        assert forall|k: int| 0 <= k < s.len() implies report_block_at(
            #[trigger] report_blocks_bytes(s),
            REPORT_BLOCK_SIZE * k,
        ) == s[k] by {
            let i = REPORT_BLOCK_SIZE * k;
            if k < s.len() - 1 {
                assert(p[k] == s[k]);
                assert(report_block_at(q, i) == s[k]);
                assert(d.subrange(i, i + 24) =~= q.subrange(i, i + 24));
                lemma_block_at_window(d, i);
                lemma_block_at_window(q, i);
            } else {
                assert(d.subrange(i, i + 24) =~= e.subrange(0, 24));
                lemma_block_at_window(d, i);
                lemma_block_at_window(e, 0);
            }
        }
    }
}

/// Reads `count` report blocks from `data` at `at`, failing as the original loop does when a
/// block does not fit.
fn read_report_blocks(data: &[u8], at: usize, count: u8) -> (r: Result<Vec<ReportBlock>, RtcpParseError>)
    requires
        at <= data@.len(),
    ensures
        data@.len() - at < REPORT_BLOCK_SIZE * count ==> r == Err::<Vec<ReportBlock>, RtcpParseError>(
            RtcpParseError::InvalidReportCount,
        ),
        data@.len() - at >= REPORT_BLOCK_SIZE * count ==> (r matches Ok(v) && v@ == Seq::new(
            count as nat,
            |k: int| report_block_at(data@, at + REPORT_BLOCK_SIZE * k),
        )),
{
    let mut blocks: Vec<ReportBlock> = Vec::new();
    let mut k: u8 = 0;
    let mut pos = at;
    while k < count
        invariant
            k <= count,
            at <= pos <= data@.len(),
            pos == at + REPORT_BLOCK_SIZE * k,
            data@.len() - at >= REPORT_BLOCK_SIZE * k,
            blocks@ == Seq::new(k as nat, |j: int| report_block_at(data@, at + REPORT_BLOCK_SIZE * j)),
        decreases count - k,
    {
        if data.len() - pos < REPORT_BLOCK_SIZE {
            return Err(RtcpParseError::InvalidReportCount);
        }
        blocks.push(ReportBlock::read_at(data, pos));
        assert(blocks@ =~= Seq::new(
            (k + 1) as nat,
            |j: int| report_block_at(data@, at + REPORT_BLOCK_SIZE * j),
        ));
        pos = pos + REPORT_BLOCK_SIZE;
        k = k + 1;
    }
    Ok(blocks)
}

/// Appends the bytes of each block.
fn build_report_blocks(blocks: &Vec<ReportBlock>, buf: &mut Vec<u8>)
    ensures
        final(buf)@ == old(buf)@ + report_blocks_bytes(blocks@),
{
    let ghost start = buf@;
    let mut i: usize = 0;
    while i < blocks.len()
        invariant
            i <= blocks.len(),
            buf@ == start + report_blocks_bytes(blocks@.take(i as int)),
        decreases blocks.len() - i,
    {
        blocks[i].build(buf);
        assert(blocks@.take(i + 1).drop_last() =~= blocks@.take(i as int));
        i += 1;
    }
    assert(blocks@.take(blocks.len() as int) =~= blocks@);
}

/// Sender Report (SR) packet.
#[derive(Debug, Clone)]
pub struct SenderReport {
    /// SSRC of sender.
    pub ssrc: u32,
    /// NTP timestamp.
    pub ntp_timestamp: NtpTimestamp,
    /// RTP timestamp.
    pub rtp_timestamp: u32,
    /// Sender's packet count.
    pub sender_packet_count: u32,
    /// Sender's octet count.
    pub sender_octet_count: u32,
    /// Report blocks.
    pub report_blocks: Vec<ReportBlock>,
}

/// A sender report as plain values.
pub struct SenderReportView {
    pub ssrc: u32,
    pub ntp_timestamp: NtpTimestamp,
    pub rtp_timestamp: u32,
    pub sender_packet_count: u32,
    pub sender_octet_count: u32,
    pub report_blocks: Seq<ReportBlock>,
}

impl View for SenderReport {
    type V = SenderReportView;

    open spec fn view(&self) -> SenderReportView {
        SenderReportView {
            ssrc: self.ssrc,
            ntp_timestamp: self.ntp_timestamp,
            rtp_timestamp: self.rtp_timestamp,
            sender_packet_count: self.sender_packet_count,
            sender_octet_count: self.sender_octet_count,
            report_blocks: self.report_blocks@,
        }
    }
}

/// The report count written for `n` blocks: at most 31, what five bits hold.
pub open spec fn report_count(n: nat) -> u8 {
    if n < 31 { n as u8 } else { 31 }
}

/// What parsing `d` as a sender report gives.
pub open spec fn sr_decode(d: Seq<u8>) -> Result<SenderReportView, RtcpParseError> {
    match rtcp_header_decode(d) {
        Err(e) => Err(e),
        Ok(h) => if h.packet_type != RtcpType::SenderReport {
            Err(RtcpParseError::UnknownPacketType(rtcp_type_code(h.packet_type)))
        } else if d.len() - 4 < 24 {
            Err(RtcpParseError::TooShort((d.len() - 4) as usize))
        } else if d.len() - 28 < REPORT_BLOCK_SIZE * h.count {
            Err(RtcpParseError::InvalidReportCount)
        } else {
            Ok(
                SenderReportView {
                    ssrc: be32(d, 4) as u32,
                    ntp_timestamp: NtpTimestamp { seconds: be32(d, 8) as u32, fraction: be32(d, 12) as u32 },
                    rtp_timestamp: be32(d, 16) as u32,
                    sender_packet_count: be32(d, 20) as u32,
                    sender_octet_count: be32(d, 24) as u32,
                    report_blocks: Seq::new(
                        h.count as nat,
                        |k: int| report_block_at(d, 28 + REPORT_BLOCK_SIZE * k),
                    ),
                },
            )
        },
    }
}

/// The six words of sender information.
pub open spec fn sr_words(s: SenderReportView) -> Seq<u32> {
    seq![
        s.ssrc,
        s.ntp_timestamp.seconds,
        s.ntp_timestamp.fraction,
        s.rtp_timestamp,
        s.sender_packet_count,
        s.sender_octet_count,
    ]
}

/// The header and sender information written for a sender report.
pub open spec fn sr_info_bytes(s: SenderReportView) -> Seq<u8> {
    let c = report_count(s.report_blocks.len());
    rtcp_header_bytes(
        RtcpHeader {
            version: 2,
            padding: false,
            count: c,
            packet_type: RtcpType::SenderReport,
            length: (6 + 6 * c) as u16,
        },
    ) + u32s_bytes(sr_words(s))
}

/// The bytes written for a sender report.
pub open spec fn sr_encode(s: SenderReportView) -> Seq<u8> {
    sr_info_bytes(s) + report_blocks_bytes(s.report_blocks)
}

impl SenderReport {
    /// Minimum size of sender report (header + sender info).
    pub const MIN_SIZE: usize = 24;

    /// Parse a sender report from bytes. Sender information shorter than its six words is
    /// refused as too short.
    pub fn parse(data: &[u8]) -> (r: Result<Self, RtcpParseError>)
        ensures
            match r {
                Ok(s) => sr_decode(data@) == Ok::<SenderReportView, RtcpParseError>(s@),
                Err(e) => sr_decode(data@) == Err::<SenderReportView, RtcpParseError>(e),
            },
    {
        let (header, rest) = match RtcpHeader::parse(data) {
            Ok(x) => x,
            Err(e) => return Err(e),
        };
        if header.packet_type != RtcpType::SenderReport {
            return Err(RtcpParseError::UnknownPacketType(header.packet_type.code()));
        }
        if rest.len() < 24 {
            return Err(RtcpParseError::TooShort(rest.len()));
        }
        let ssrc = read_u32(data, 4);
        let ntp_seconds = read_u32(data, 8);
        let ntp_fraction = read_u32(data, 12);
        let rtp_timestamp = read_u32(data, 16);
        let sender_packet_count = read_u32(data, 20);
        let sender_octet_count = read_u32(data, 24);
        let report_blocks = match read_report_blocks(data, 28, header.count) {
            Ok(b) => b,
            Err(e) => return Err(e),
        };
        let s = SenderReport {
            ssrc,
            ntp_timestamp: NtpTimestamp { seconds: ntp_seconds, fraction: ntp_fraction },
            rtp_timestamp,
            sender_packet_count,
            sender_octet_count,
            report_blocks,
        };
        assert(sr_decode(data@) matches Ok(v) && v == s@);
        Ok(s)
    }

    /// Build a sender report to bytes.
    pub fn build(&self) -> (b: Vec<u8>)
        ensures
            b@ == sr_encode(self@),
    {
        let report_count: u8 = if self.report_blocks.len() < 31 { self.report_blocks.len() as u8 } else { 31 };
        let length: u16 = 6 + report_count as u16 * 6;
        let mut buf: Vec<u8> = Vec::new();
        let header = RtcpHeader {
            version: 2,
            padding: false,
            count: report_count,
            packet_type: RtcpType::SenderReport,
            length,
        };
        header.build(&mut buf);
        let words: Vec<u32> = vec![
            self.ssrc,
            self.ntp_timestamp.seconds,
            self.ntp_timestamp.fraction,
            self.rtp_timestamp,
            self.sender_packet_count,
            self.sender_octet_count,
        ];
        assert(words@ =~= sr_words(self@));
        push_u32s(&mut buf, words.as_slice());
        build_report_blocks(&self.report_blocks, &mut buf);
        assert(buf@ =~= sr_encode(self@));
        buf
    }
}

/// Whether a report written with `blocks` reads back as written: at most 31 blocks, each
/// loss count within 24 bits.
pub open spec fn blocks_round_trip(blocks: Seq<ReportBlock>) -> bool {
    &&& blocks.len() <= 31
    &&& forall|k: int| 0 <= k < blocks.len() ==> lost_fits(#[trigger] blocks[k])
}

/// The fields of the header and sender information read back.
proof fn lemma_sr_info(s: SenderReportView)
    ensures
        sr_info_bytes(s).len() == 28,
        sr_info_bytes(s)[0] / 64 == 2,
        sr_info_bytes(s)[0] % 32 == report_count(s.report_blocks.len()),
        sr_info_bytes(s)[1] == 200,
        forall|k: int| 0 <= k < 6 ==> be32(sr_info_bytes(s), 4 + 4 * k) == #[trigger] sr_words(s)[k],
{
    let c = report_count(s.report_blocks.len());
    let h = rtcp_header_bytes(
        RtcpHeader {
            version: 2,
            padding: false,
            count: c,
            packet_type: RtcpType::SenderReport,
            length: (6 + 6 * c) as u16,
        },
    );
    let w = u32s_bytes(sr_words(s));
    crate::wire::lemma_u32s_bytes(sr_words(s));
    assert forall|k: int| 0 <= k < 6 implies be32(sr_info_bytes(s), 4 + 4 * k) == #[trigger] sr_words(s)[k] by {
        crate::wire::lemma_be32_skip(h, w, 4 * k);
    }
}

/// Parsing what `SenderReport::build` writes gives back the report.
#[verifier::spinoff_prover]
#[verifier::rlimit(40)]
pub proof fn lemma_sender_report_round_trip(s: SenderReportView)
    requires
        blocks_round_trip(s.report_blocks),
    ensures
        sr_decode(sr_encode(s)) == Ok::<SenderReportView, RtcpParseError>(s),
{
    let d = sr_encode(s);
    let n = s.report_blocks.len();
    let c = report_count(n);
    let info = sr_info_bytes(s);
    let blocks = report_blocks_bytes(s.report_blocks);
    lemma_sr_info(s);
    lemma_report_blocks_round_trip(s.report_blocks);
    assert forall|k: int| 0 <= k < 28 implies d[k] == #[trigger] info[k] by {}
    assert(d[0] == info[0] && d[1] == info[1]);
    assert(rtcp_type_of(d[1]) == Some(RtcpType::SenderReport));
    assert forall|k: int| 0 <= k < 6 implies be32(d, 4 + 4 * k) == #[trigger] sr_words(s)[k] by {
        crate::wire::lemma_be32_keep(info, blocks, 4 + 4 * k);
    }
    assert(be32(d, 4) == sr_words(s)[0]);
    assert(be32(d, 8) == sr_words(s)[1]);
    assert(be32(d, 12) == sr_words(s)[2]);
    assert(be32(d, 16) == sr_words(s)[3]);
    assert(be32(d, 20) == sr_words(s)[4]);
    assert(be32(d, 24) == sr_words(s)[5]);
    assert forall|k: int| 0 <= k < n implies #[trigger] report_block_at(d, 28 + REPORT_BLOCK_SIZE * k)
        == s.report_blocks[k] by {
        let i = REPORT_BLOCK_SIZE * k;
        assert(report_block_at(blocks, i) == s.report_blocks[k]);
        assert(d.subrange(28 + i, 28 + i + 24) =~= blocks.subrange(i, i + 24));
        lemma_block_at_window(d, 28 + i);
        lemma_block_at_window(blocks, i);
    }
    assert(Seq::new(c as nat, |k: int| report_block_at(d, 28 + REPORT_BLOCK_SIZE * k)) =~= s.report_blocks);
}

/// Receiver Report (RR) packet.
#[derive(Debug, Clone)]
pub struct ReceiverReport {
    /// SSRC of sender.
    pub ssrc: u32,
    /// Report blocks.
    pub report_blocks: Vec<ReportBlock>,
}

/// A receiver report as plain values.
pub struct ReceiverReportView {
    pub ssrc: u32,
    pub report_blocks: Seq<ReportBlock>,
}

impl View for ReceiverReport {
    type V = ReceiverReportView;

    open spec fn view(&self) -> ReceiverReportView {
        ReceiverReportView { ssrc: self.ssrc, report_blocks: self.report_blocks@ }
    }
}

/// What parsing `d` as a receiver report gives.
pub open spec fn rr_decode(d: Seq<u8>) -> Result<ReceiverReportView, RtcpParseError> {
    match rtcp_header_decode(d) {
        Err(e) => Err(e),
        Ok(h) => if h.packet_type != RtcpType::ReceiverReport {
            Err(RtcpParseError::UnknownPacketType(rtcp_type_code(h.packet_type)))
        } else if d.len() - 4 < 4 {
            Err(RtcpParseError::TooShort((d.len() - 4) as usize))
        } else if d.len() - 8 < REPORT_BLOCK_SIZE * h.count {
            Err(RtcpParseError::InvalidReportCount)
        } else {
            Ok(
                ReceiverReportView {
                    ssrc: be32(d, 4) as u32,
                    report_blocks: Seq::new(
                        h.count as nat,
                        |k: int| report_block_at(d, 8 + REPORT_BLOCK_SIZE * k),
                    ),
                },
            )
        },
    }
}

/// The bytes written for a receiver report.
pub open spec fn rr_encode(r: ReceiverReportView) -> Seq<u8> {
    let c = report_count(r.report_blocks.len());
    rtcp_header_bytes(
        RtcpHeader {
            version: 2,
            padding: false,
            count: c,
            packet_type: RtcpType::ReceiverReport,
            length: (1 + 6 * c) as u16,
        },
    ) + u32_bytes(r.ssrc) + report_blocks_bytes(r.report_blocks)
}

impl ReceiverReport {
    /// Minimum size of receiver report.
    pub const MIN_SIZE: usize = 4;

    /// Parse a receiver report from bytes.
    pub fn parse(data: &[u8]) -> (r: Result<Self, RtcpParseError>)
        ensures
            match r {
                Ok(s) => rr_decode(data@) == Ok::<ReceiverReportView, RtcpParseError>(s@),
                Err(e) => rr_decode(data@) == Err::<ReceiverReportView, RtcpParseError>(e),
            },
    {
        let (header, rest) = match RtcpHeader::parse(data) {
            Ok(x) => x,
            Err(e) => return Err(e),
        };
        if header.packet_type != RtcpType::ReceiverReport {
            return Err(RtcpParseError::UnknownPacketType(header.packet_type.code()));
        }
        if rest.len() < 4 {
            return Err(RtcpParseError::TooShort(rest.len()));
        }
        let ssrc = read_u32(data, 4);
        let report_blocks = match read_report_blocks(data, 8, header.count) {
            Ok(b) => b,
            Err(e) => return Err(e),
        };
        let s = ReceiverReport { ssrc, report_blocks };
        assert(rr_decode(data@) matches Ok(v) && v == s@);
        Ok(s)
    }

    /// Build a receiver report to bytes.
    pub fn build(&self) -> (b: Vec<u8>)
        ensures
            b@ == rr_encode(self@),
    {
        let report_count: u8 = if self.report_blocks.len() < 31 { self.report_blocks.len() as u8 } else { 31 };
        let length: u16 = 1 + report_count as u16 * 6;
        let mut buf: Vec<u8> = Vec::new();
        let header = RtcpHeader {
            version: 2,
            padding: false,
            count: report_count,
            packet_type: RtcpType::ReceiverReport,
            length,
        };
        header.build(&mut buf);
        push_u32(&mut buf, self.ssrc);
        build_report_blocks(&self.report_blocks, &mut buf);
        assert(buf@ =~= rr_encode(self@));
        buf
    }
}

/// Parsing what `ReceiverReport::build` writes gives back the report.
#[verifier::rlimit(40)]
pub proof fn lemma_receiver_report_round_trip(r: ReceiverReportView)
    requires
        blocks_round_trip(r.report_blocks),
    ensures
        rr_decode(rr_encode(r)) == Ok::<ReceiverReportView, RtcpParseError>(r),
{
    let d = rr_encode(r);
    let n = r.report_blocks.len();
    let c = report_count(n);
    let h = RtcpHeader { version: 2, padding: false, count: c, packet_type: RtcpType::ReceiverReport, length: (1 + 6 * c) as u16 };
    crate::wire::lemma_be16_bytes(h.length);
    crate::wire::lemma_be32_bytes(r.ssrc);
    lemma_report_blocks_round_trip(r.report_blocks);
    let info = rtcp_header_bytes(h) + u32_bytes(r.ssrc);
    let blocks = report_blocks_bytes(r.report_blocks);
    assert(d =~= info + blocks);
    assert(info.len() == 8);
    assert(d[0] / 64 == 2);
    assert(d[0] % 32 == c);
    assert(rtcp_type_of(d[1]) == Some(RtcpType::ReceiverReport));
    assert(be32(d, 4) == be32(u32_bytes(r.ssrc), 0));
    assert forall|k: int| 0 <= k < n implies #[trigger] report_block_at(d, 8 + REPORT_BLOCK_SIZE * k)
        == r.report_blocks[k] by {
        let i = REPORT_BLOCK_SIZE * k;
        assert(report_block_at(blocks, i) == r.report_blocks[k]);
        assert(d.subrange(8 + i, 8 + i + 24) =~= blocks.subrange(i, i + 24));
        lemma_block_at_window(d, 8 + i);
        lemma_block_at_window(blocks, i);
    }
    assert(Seq::new(c as nat, |k: int| report_block_at(d, 8 + REPORT_BLOCK_SIZE * k)) =~= r.report_blocks);
}

/// SDES item types.
#[derive(Debug, Clone, Copy, PartialEq, Eq, Structural)]
pub enum SdesType {
    /// End of SDES list (0).
    End,
    /// Canonical name (1).
    CName,
    /// User name (2).
    Name,
    /// Email (3).
    Email,
    /// Phone number (4).
    Phone,
    /// Location (5).
    Location,
    /// Application/tool name (6).
    Tool,
    /// Note (7).
    Note,
    /// Private extension (8).
    Private,
}

/// The item type number of an SDES type.
pub open spec fn sdes_code(t: SdesType) -> u8 {
    match t {
        SdesType::End => 0,
        SdesType::CName => 1,
        SdesType::Name => 2,
        SdesType::Email => 3,
        SdesType::Phone => 4,
        SdesType::Location => 5,
        SdesType::Tool => 6,
        SdesType::Note => 7,
        SdesType::Private => 8,
    }
}

impl SdesType {
    /// The item type number.
    pub fn code(&self) -> (c: u8)
        ensures
            c == sdes_code(*self),
    {
        match self {
            SdesType::End => 0,
            SdesType::CName => 1,
            SdesType::Name => 2,
            SdesType::Email => 3,
            SdesType::Phone => 4,
            SdesType::Location => 5,
            SdesType::Tool => 6,
            SdesType::Note => 7,
            SdesType::Private => 8,
        }
    }
}

/// SDES item.
#[derive(Debug, Clone)]
pub struct SdesItem {
    /// Item type.
    pub item_type: SdesType,
    /// Item value.
    pub value: String,
}

/// SDES chunk (items for one SSRC).
#[derive(Debug, Clone)]
pub struct SdesChunk {
    /// SSRC.
    pub ssrc: u32,
    /// Items.
    pub items: Vec<SdesItem>,
}

/// Source Description (SDES) packet.
#[derive(Debug, Clone)]
pub struct SourceDescription {
    /// SDES chunks.
    pub chunks: Vec<SdesChunk>,
}

/// Zero bytes that bring a length of `n` to a multiple of four.
pub open spec fn pad4(n: nat) -> nat {
    if n % 4 == 0 { 0 } else { (4 - n % 4) as nat }
}

/// The bytes of an item: type, length (modulo 256) and the value in UTF-8.
pub open spec fn sdes_item_bytes(it: SdesItem) -> Seq<u8> {
    let b = encode_utf8(it.value@);
    seq![sdes_code(it.item_type), (b.len() % 256) as u8] + b
}

/// The bytes of a list of items.
pub open spec fn sdes_items_bytes(items: Seq<SdesItem>) -> Seq<u8>
    decreases items.len(),
{
    if items.len() == 0 {
        Seq::empty()
    } else {
        sdes_items_bytes(items.drop_last()) + sdes_item_bytes(items.last())
    }
}

/// The bytes of a chunk: SSRC, items, an end marker, and zeros up to a 32-bit boundary.
pub open spec fn sdes_chunk_bytes(c: SdesChunk) -> Seq<u8> {
    let raw = u32_bytes(c.ssrc) + sdes_items_bytes(c.items@) + seq![0u8];
    raw + zeros(pad4(raw.len()))
}

/// The bytes of a list of chunks.
pub open spec fn sdes_chunks_bytes(cs: Seq<SdesChunk>) -> Seq<u8>
    decreases cs.len(),
{
    if cs.len() == 0 {
        Seq::empty()
    } else {
        sdes_chunks_bytes(cs.drop_last()) + sdes_chunk_bytes(cs.last())
    }
}

/// The bytes written for a source description packet.
pub open spec fn sdes_encode(s: SourceDescription) -> Seq<u8> {
    let body = sdes_chunks_bytes(s.chunks@);
    seq![(128 + report_count(s.chunks@.len())) as u8, 202u8] + u16_bytes(((body.len() / 4) % 65536) as u16)
        + body
}

/// Whether `s` holds one chunk for `ssrc` with one CNAME item whose value is `cname`.
pub open spec fn is_cname_sdes(s: SourceDescription, ssrc: u32, cname: Seq<char>) -> bool {
    &&& s.chunks@.len() == 1
    &&& s.chunks@[0].ssrc == ssrc
    &&& s.chunks@[0].items@.len() == 1
    &&& s.chunks@[0].items@[0].item_type == SdesType::CName
    &&& s.chunks@[0].items@[0].value@ == cname
}

/// Appends the bytes of each item of a chunk.
fn build_sdes_items(items: &Vec<SdesItem>, buf: &mut Vec<u8>)
    ensures
        final(buf)@ == old(buf)@ + sdes_items_bytes(items@),
{
    let ghost start = buf@;
    let mut i: usize = 0;
    while i < items.len()
        invariant
            i <= items.len(),
            buf@ == start + sdes_items_bytes(items@.take(i as int)),
        decreases items.len() - i,
    {
        let item = &items[i];
        buf.push(item.item_type.code());
        let value_bytes = item.value.as_str().as_bytes();
        buf.push((value_bytes.len() % 256) as u8);
        push_bytes(buf, value_bytes);
        assert(items@.take(i + 1).drop_last() =~= items@.take(i as int));
        assert(buf@ =~= start + sdes_items_bytes(items@.take(i + 1)));
        i += 1;
    }
    assert(items@.take(items.len() as int) =~= items@);
}

impl SourceDescription {
    /// Build an SDES packet with just CNAME.
    pub fn with_cname(ssrc: u32, cname: &str) -> (s: Self)
        ensures
            is_cname_sdes(s, ssrc, cname@),
    {
        SourceDescription {
            chunks: vec![SdesChunk {
                ssrc,
                items: vec![SdesItem { item_type: SdesType::CName, value: cname.to_string() }],
            }],
        }
    }

    /// Build to bytes.
    #[verifier::spinoff_prover]
    #[verifier::rlimit(100)]
    pub fn build(&self) -> (b: Vec<u8>)
        ensures
            b@ == sdes_encode(*self),
    {
        let mut body: Vec<u8> = Vec::new();
        let mut i: usize = 0;
        while i < self.chunks.len()
            invariant
                i <= self.chunks.len(),
                body@ == sdes_chunks_bytes(self.chunks@.take(i as int)),
                body@.len() % 4 == 0,
            decreases self.chunks.len() - i,
        {
            let ghost before = body@;
            let chunk = &self.chunks[i];
            push_u32(&mut body, chunk.ssrc);
            build_sdes_items(&chunk.items, &mut body);
            body.push(0u8);
            let ghost raw = u32_bytes(chunk.ssrc) + sdes_items_bytes(chunk.items@) + seq![0u8];
            assert(body@ =~= before + raw);
            let pad: usize = if body.len() % 4 == 0 { 0 } else { 4 - body.len() % 4 };
            assert(pad == pad4(raw.len()));
            push_zeros(&mut body, pad);
            assert(self.chunks@.take(i + 1).drop_last() =~= self.chunks@.take(i as int));
            assert(body@ =~= sdes_chunks_bytes(self.chunks@.take(i + 1)));
            i += 1;
        }
        assert(self.chunks@.take(self.chunks.len() as int) =~= self.chunks@);
        let chunk_count: u8 = if self.chunks.len() < 31 { self.chunks.len() as u8 } else { 31 };
        let length: u16 = ((body.len() / 4) % 65536) as u16;
        let mut buf: Vec<u8> = Vec::new();
        buf.push(128 + chunk_count);
        buf.push(202);
        push_u16(&mut buf, length);
        push_bytes(&mut buf, body.as_slice());
        assert(buf@ =~= sdes_encode(*self));
        buf
    }
}

/// Goodbye (BYE) packet.
#[derive(Debug, Clone)]
pub struct Goodbye {
    /// SSRCs leaving.
    pub ssrcs: Vec<u32>,
    /// Optional reason.
    pub reason: Option<String>,
}

/// The bytes of the reason: its length (modulo 256), its UTF-8 bytes, and zeros up to a
/// 32-bit boundary.
pub open spec fn bye_reason_bytes(reason: Option<String>) -> Seq<u8> {
    match reason {
        None => Seq::empty(),
        Some(r) => {
            let rb = encode_utf8(r@);
            let raw = seq![(rb.len() % 256) as u8] + rb;
            raw + zeros(pad4(raw.len()))
        },
    }
}

/// The length field of a goodbye packet: its content in 32-bit words, modulo 2^16.
pub open spec fn bye_length(b: Goodbye) -> u16 {
    let n = 4 * b.ssrcs@.len();
    let content: nat = match b.reason {
        None => n,
        Some(r) => (n + 1 + encode_utf8(r@).len() + pad4(n + 1 + encode_utf8(r@).len())) as nat,
    };
    ((content / 4) % 65536) as u16
}

/// The bytes written for a goodbye packet.
pub open spec fn bye_encode(b: Goodbye) -> Seq<u8> {
    rtcp_header_bytes(
        RtcpHeader {
            version: 2,
            padding: false,
            count: report_count(b.ssrcs@.len()),
            packet_type: RtcpType::Goodbye,
            length: bye_length(b),
        },
    ) + u32s_bytes(b.ssrcs@) + bye_reason_bytes(b.reason)
}

/// Whether the length computation for `b` fits a `usize`.
pub open spec fn bye_fits(b: Goodbye) -> bool {
    4 * b.ssrcs@.len() + match b.reason {
        None => 0,
        Some(r) => encode_utf8(r@).len(),
    } + 4 <= usize::MAX
}

impl Goodbye {
    /// Create a simple goodbye for one SSRC.
    pub fn new(ssrc: u32) -> (b: Self)
        ensures
            b.ssrcs@ == seq![ssrc],
            b.reason is None,
    {
        Goodbye { ssrcs: vec![ssrc], reason: None }
    }

    /// Build to bytes.
    #[verifier::rlimit(60)]
    #[verifier::spinoff_prover]
    pub fn build(&self) -> (out: Vec<u8>)
        requires
            bye_fits(*self),
        ensures
            out@ == bye_encode(*self),
    {
        let n = self.ssrcs.len();
        let ssrc_count: u8 = if n < 31 { n as u8 } else { 31 };
        let mut content_len: usize = n * 4;
        match &self.reason {
            Some(reason) => {
                let rlen = reason.as_str().as_bytes().len();
                content_len = content_len + 1 + rlen;
                let pad: usize = if content_len % 4 == 0 { 0 } else { 4 - content_len % 4 };
                content_len = content_len + pad;
            },
            None => {},
        }
        let length: u16 = ((content_len / 4) % 65536) as u16;
        assert(length == bye_length(*self));
        let mut buf: Vec<u8> = Vec::new();
        let header = RtcpHeader {
            version: 2,
            padding: false,
            count: ssrc_count,
            packet_type: RtcpType::Goodbye,
            length,
        };
        header.build(&mut buf);
        push_u32s(&mut buf, self.ssrcs.as_slice());
        let ghost before = buf@;
        match &self.reason {
            Some(reason) => {
                let reason_bytes = reason.as_str().as_bytes();
                buf.push((reason_bytes.len() % 256) as u8);
                push_bytes(&mut buf, reason_bytes);
                proof { crate::wire::lemma_u32s_bytes(self.ssrcs@); }
                let pad: usize = if buf.len() % 4 == 0 { 0 } else { 4 - buf.len() % 4 };
                assert(pad == pad4(1 + reason_bytes@.len()));
                push_zeros(&mut buf, pad);
            },
            None => {},
        }
        assert(buf@ =~= before + bye_reason_bytes(self.reason));
        assert(buf@ =~= bye_encode(*self));
        buf
    }
}

/// Individual RTCP packet types.
#[derive(Debug, Clone)]
pub enum RtcpPacket {
    SenderReport(SenderReport),
    ReceiverReport(ReceiverReport),
    SourceDescription(SourceDescription),
    Goodbye(Goodbye),
}

/// RTCP compound packet (typically SR/RR + SDES).
#[derive(Debug, Clone)]
pub struct RtcpCompound {
    /// Packets in the compound.
    pub packets: Vec<RtcpPacket>,
}

/// The bytes written for one packet of a compound.
pub open spec fn rtcp_packet_bytes(p: RtcpPacket) -> Seq<u8> {
    match p {
        RtcpPacket::SenderReport(sr) => sr_encode(sr@),
        RtcpPacket::ReceiverReport(rr) => rr_encode(rr@),
        RtcpPacket::SourceDescription(sdes) => sdes_encode(sdes),
        RtcpPacket::Goodbye(bye) => bye_encode(bye),
    }
}

/// The bytes written for the packets of a compound, one after another.
pub open spec fn compound_bytes(ps: Seq<RtcpPacket>) -> Seq<u8>
    decreases ps.len(),
{
    if ps.len() == 0 {
        Seq::empty()
    } else {
        compound_bytes(ps.drop_last()) + rtcp_packet_bytes(ps.last())
    }
}

/// Whether every goodbye packet among `ps` can be written.
pub open spec fn compound_fits(ps: Seq<RtcpPacket>) -> bool {
    forall|k: int| 0 <= k < ps.len() ==> (#[trigger] ps[k] matches RtcpPacket::Goodbye(b) ==> bye_fits(b))
}

impl RtcpCompound {
    /// Create a compound packet with SR and SDES.
    pub fn sender_compound(sr: SenderReport, cname: &str) -> (c: Self)
        ensures
            c.packets@.len() == 2,
            c.packets@[0] == RtcpPacket::SenderReport(sr),
            c.packets@[1] matches RtcpPacket::SourceDescription(d) && is_cname_sdes(d, sr.ssrc, cname@),
    {
        let sdes = SourceDescription::with_cname(sr.ssrc, cname);
        RtcpCompound { packets: vec![RtcpPacket::SenderReport(sr), RtcpPacket::SourceDescription(sdes)] }
    }

    /// Create a compound packet with RR and SDES.
    pub fn receiver_compound(rr: ReceiverReport, cname: &str) -> (c: Self)
        ensures
            c.packets@.len() == 2,
            c.packets@[0] == RtcpPacket::ReceiverReport(rr),
            c.packets@[1] matches RtcpPacket::SourceDescription(d) && is_cname_sdes(d, rr.ssrc, cname@),
    {
        let sdes = SourceDescription::with_cname(rr.ssrc, cname);
        RtcpCompound { packets: vec![RtcpPacket::ReceiverReport(rr), RtcpPacket::SourceDescription(sdes)] }
    }

    /// Build to bytes.
    pub fn build(&self) -> (b: Vec<u8>)
        requires
            compound_fits(self.packets@),
        ensures
            b@ == compound_bytes(self.packets@),
    {
        let mut buf: Vec<u8> = Vec::new();
        let mut i: usize = 0;
        while i < self.packets.len()
            invariant
                i <= self.packets.len(),
                compound_fits(self.packets@),
                buf@ == compound_bytes(self.packets@.take(i as int)),
            decreases self.packets.len() - i,
        {
            let bytes = match &self.packets[i] {
                RtcpPacket::SenderReport(sr) => sr.build(),
                RtcpPacket::ReceiverReport(rr) => rr.build(),
                RtcpPacket::SourceDescription(sdes) => sdes.build(),
                RtcpPacket::Goodbye(bye) => {
                    assert(self.packets@[i as int] matches RtcpPacket::Goodbye(b) ==> bye_fits(b));
                    bye.build()
                },
            };
            push_bytes(&mut buf, bytes.as_slice());
            assert(self.packets@.take(i + 1).drop_last() =~= self.packets@.take(i as int));
            i += 1;
        }
        assert(self.packets@.take(self.packets.len() as int) =~= self.packets@);
        buf
    }
}

} // verus!

verus! {

/// Reading the length field behind a two-byte start.
proof fn lemma_length_at(x: u8, y: u8, v: u16, rest: Seq<u8>)
    ensures
        (seq![x, y] + u16_bytes(v) + rest).len() == 4 + rest.len(),
        be16(seq![x, y] + u16_bytes(v) + rest, 2) == v,
{
    lemma_be16_bytes(v);
    let b = seq![x, y] + u16_bytes(v) + rest;
    assert(b[2] == u16_bytes(v)[0] && b[3] == u16_bytes(v)[1]);
}

/// The bytes of `n` report blocks.
proof fn lemma_blocks_len(s: Seq<ReportBlock>)
    ensures
        report_blocks_bytes(s).len() == 24 * s.len(),
    decreases s.len(),
{
    if s.len() > 0 {
        lemma_blocks_len(s.drop_last());
    }
}

/// A chunk list fills whole 32-bit words.
proof fn lemma_sdes_chunks_words(cs: Seq<SdesChunk>)
    ensures
        sdes_chunks_bytes(cs).len() % 4 == 0,
    decreases cs.len(),
{
    if cs.len() > 0 {
        lemma_sdes_chunks_words(cs.drop_last());
    }
}

/// The header of a written sender report (RFC 3550 Section 6.4.1): version 2, no padding,
/// the block count, packet type 200, and a length field that counts the packet's 32-bit words
/// less one: `4 * (length + 1)` is the number of bytes written.
pub proof fn lemma_sender_report_length_field(s: SenderReportView)
    requires
        s.report_blocks.len() <= 31,
    ensures
        sr_encode(s)[0] == 0x80 + s.report_blocks.len(),
        sr_encode(s)[1] == 200,
        sr_encode(s).len() % 4 == 0,
        4 * (be16(sr_encode(s), 2) + 1) == sr_encode(s).len(),
{
    let c = report_count(s.report_blocks.len());
    lemma_u32s_bytes(sr_words(s));
    lemma_blocks_len(s.report_blocks);
    let h = rtcp_header_bytes(
        RtcpHeader { version: 2, padding: false, count: c, packet_type: RtcpType::SenderReport, length: (6 + 6 * c) as u16 },
    );
    let rest = u32s_bytes(sr_words(s)) + report_blocks_bytes(s.report_blocks);
    assert(sr_encode(s) =~= seq![h[0], h[1]] + u16_bytes((6 + 6 * c) as u16) + rest);
    lemma_length_at(h[0], h[1], (6 + 6 * c) as u16, rest);
}

/// The header of a written receiver report (RFC 3550 Section 6.4.2): version 2, no padding,
/// the block count, packet type 201, and a length field that counts the packet's 32-bit words
/// less one: `4 * (length + 1)` is the number of bytes written.
pub proof fn lemma_receiver_report_length_field(r: ReceiverReportView)
    requires
        r.report_blocks.len() <= 31,
    ensures
        rr_encode(r)[0] == 0x80 + r.report_blocks.len(),
        rr_encode(r)[1] == 201,
        rr_encode(r).len() % 4 == 0,
        4 * (be16(rr_encode(r), 2) + 1) == rr_encode(r).len(),
{
    let c = report_count(r.report_blocks.len());
    lemma_blocks_len(r.report_blocks);
    let h = rtcp_header_bytes(
        RtcpHeader { version: 2, padding: false, count: c, packet_type: RtcpType::ReceiverReport, length: (1 + 6 * c) as u16 },
    );
    let rest = u32_bytes(r.ssrc) + report_blocks_bytes(r.report_blocks);
    assert(rr_encode(r) =~= seq![h[0], h[1]] + u16_bytes((1 + 6 * c) as u16) + rest);
    lemma_length_at(h[0], h[1], (1 + 6 * c) as u16, rest);
}

/// The header of a written source description (RFC 3550 Section 6.5): version 2, no padding,
/// the chunk count (when it fits its five bits), packet type 202, and a length field that counts the packet's 32-bit words
/// less one: `4 * (length + 1)` is the number of bytes written, for a packet short enough for
/// the field.
pub proof fn lemma_source_description_length_field(s: SourceDescription)
    requires
        sdes_encode(s).len() <= 4 * 65536,
    ensures
        s.chunks@.len() <= 31 ==> sdes_encode(s)[0] == 0x80 + s.chunks@.len(),
        sdes_encode(s)[1] == 202,
        sdes_encode(s).len() % 4 == 0,
        4 * (be16(sdes_encode(s), 2) + 1) == sdes_encode(s).len(),
{
    let body = sdes_chunks_bytes(s.chunks@);
    lemma_sdes_chunks_words(s.chunks@);
    let v = ((body.len() / 4) % 65536) as u16;
    lemma_length_at((128 + report_count(s.chunks@.len())) as u8, 202u8, v, body);
}

/// The header of a written goodbye packet (RFC 3550 Section 6.6): version 2, no padding, the
/// source count (when it fits its five bits), packet type 203, and a length field that counts the packet's 32-bit words
/// less one: `4 * (length + 1)` is the number of bytes written, for a packet short enough for
/// the field.
pub proof fn lemma_goodbye_length_field(b: Goodbye)
    requires
        bye_encode(b).len() <= 4 * 65536,
    ensures
        b.ssrcs@.len() <= 31 ==> bye_encode(b)[0] == 0x80 + b.ssrcs@.len(),
        bye_encode(b)[1] == 203,
        bye_encode(b).len() % 4 == 0,
        4 * (be16(bye_encode(b), 2) + 1) == bye_encode(b).len(),
{
    let n = b.ssrcs@.len();
    lemma_u32s_bytes(b.ssrcs@);
    let h = rtcp_header_bytes(
        RtcpHeader {
            version: 2,
            padding: false,
            count: report_count(n),
            packet_type: RtcpType::Goodbye,
            length: bye_length(b),
        },
    );
    let rest = u32s_bytes(b.ssrcs@) + bye_reason_bytes(b.reason);
    assert(bye_encode(b) =~= seq![h[0], h[1]] + u16_bytes(bye_length(b)) + rest);
    lemma_length_at(h[0], h[1], bye_length(b), rest);
    match b.reason {
        None => {},
        Some(r) => {
            let rb = encode_utf8(r@);
            let raw_len: nat = 1 + rb.len();
            assert((4 * n + raw_len) % 4 == raw_len % 4);
            assert(bye_reason_bytes(b.reason).len() == raw_len + pad4(raw_len));
        },
    }
}

} // verus!
