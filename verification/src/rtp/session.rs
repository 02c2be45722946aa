//! RTP session management: sequence numbering and timestamps for sending, and the receiver
//! statistics (loss and interarrival jitter, RFC 3550 A.8) that RTCP reports carry.
use crate::rtp::packet::{seq_distance, sequence_diff, RtpPacket, RtpView};
use crate::rtp::rtcp::{
    is_cname_sdes, NtpTimestamp, ReceiverReport, ReportBlock, RtcpCompound, RtcpPacket, SenderReport,
};
use crate::time::Duration;
use vstd::prelude::*;

verus! {

/// Receiver state for RTCP statistics.
#[derive(Debug, Clone, Copy, PartialEq, Eq, Structural)]
pub struct ReceiverState {
    /// Highest sequence number received.
    pub max_seq: u16,
    /// How many times the sequence number has wrapped past its highest value (RFC 3550 A.1).
    pub cycles: u32,
    /// Sequence number of first packet.
    pub base_seq: u16,
    /// Whether we've received any packets.
    pub initialized: bool,
    /// Packets received.
    pub packets_received: u64,
    /// Packets lost.
    pub packets_lost: u64,
    /// Expected packets (for loss calculation).
    pub expected_packets: u64,
    /// Last received timestamp.
    pub last_timestamp: u32,
    /// Jitter estimate (in timestamp units).
    pub jitter: u32,
    /// Last arrival time, in microseconds of the wall clock.
    pub last_arrival: Option<u64>,
}

/// The state before any packet arrives.
pub open spec fn receiver_initial() -> ReceiverState {
    ReceiverState {
        max_seq: 0,
        cycles: 0,
        base_seq: 0,
        initialized: false,
        packets_received: 0,
        packets_lost: 0,
        expected_packets: 0,
        last_timestamp: 0,
        jitter: 0,
        last_arrival: None,
    }
}

impl Default for ReceiverState {
    fn default() -> (s: Self)
        ensures
            s == receiver_initial(),
    {
        ReceiverState {
            max_seq: 0,
            cycles: 0,
            base_seq: 0,
            initialized: false,
            packets_received: 0,
            packets_lost: 0,
            expected_packets: 0,
            last_timestamp: 0,
            jitter: 0,
            last_arrival: None,
        }
    }
}

/// The receiver statistics are consistent: before the first packet everything is zero; after
/// it, at least one packet was received and fewer packets were lost than expected.
pub open spec fn receiver_wf(s: ReceiverState) -> bool {
    if s.initialized {
        s.packets_received >= 1 && s.packets_lost < s.expected_packets && s.last_arrival is Some
    } else {
        s == receiver_initial()
    }
}

/// Timestamp units (samples) in `us` microseconds at `rate` samples per second, rounded down.
pub open spec fn samples_in(us: nat, rate: u32) -> nat {
    (us * rate / 1_000_000) as nat
}

/// A 32-bit value read as two's complement.
pub open spec fn as_signed32(w: u32) -> int {
    if w >= 0x8000_0000 { w - 0x1_0000_0000 } else { w as int }
}

/// The jitter after a packet whose transit differs from the last one's by `dd` timestamp
/// units: J + (|D| - J)/16, with the division rounding down and the sum kept in `u32`.
pub open spec fn jitter_next(j: u32, dd: nat) -> u32 {
    let adj = (dd - j) / 16;
    if j + adj > u32::MAX {
        u32::MAX
    } else if j + adj < 0 {
        0
    } else {
        (j + adj) as u32
    }
}

/// The transit difference between the last packet and one with timestamp `ts` arriving at
/// `now_us`: the arrival interval in timestamp units (at most `i32::MAX`) less the timestamp
/// interval, taken as a magnitude.
pub open spec fn transit_delta(last_us: u64, now_us: u64, last_ts: u32, ts: u32, rate: u32) -> nat {
    let elapsed: nat = if now_us >= last_us { (now_us - last_us) as nat } else { 0 };
    let s = samples_in(elapsed, rate);
    let arrival: int = if s > i32::MAX { i32::MAX as int } else { s as int };
    let ts_diff = as_signed32(vstd::wrapping::u32_specs::wrapping_sub(ts, last_ts));
    let d = arrival - ts_diff;
    (if d >= 0 { d } else { -d }) as nat
}

/// The statistics after a packet with sequence number `seq` and timestamp `ts` arrives at
/// `now_us` (microseconds), at a clock rate of `rate`.
pub open spec fn receive_step(s: ReceiverState, seq: u16, ts: u32, now_us: u64, rate: u32) -> ReceiverState {
    if !s.initialized {
        ReceiverState {
            base_seq: seq,
            max_seq: seq,
            initialized: true,
            last_timestamp: ts,
            last_arrival: Some(now_us),
            packets_received: 1,
            expected_packets: 1,
            ..s
        }
    } else {
        let d = seq_distance(seq, s.max_seq);
        let expected: u64 = if d > 0 { (s.expected_packets + d) as u64 } else { s.expected_packets };
        let lost: u64 = if d > 1 { (s.packets_lost + d - 1) as u64 } else { s.packets_lost };
        let max_seq = if d > 0 { seq } else { s.max_seq };
        let cycles = if d > 0 && seq < s.max_seq {
            vstd::wrapping::u32_specs::wrapping_add(s.cycles, 1)
        } else {
            s.cycles
        };
        let jitter = match s.last_arrival {
            Some(last) => jitter_next(s.jitter, transit_delta(last, now_us, s.last_timestamp, ts, rate)),
            None => s.jitter,
        };
        ReceiverState {
            packets_received: (s.packets_received + 1) as u64,
            expected_packets: expected,
            packets_lost: lost,
            max_seq,
            cycles,
            jitter,
            last_timestamp: ts,
            last_arrival: Some(now_us),
            ..s
        }
    }
}

/// Whether the counters can take one more packet with sequence number `seq` without leaving
/// the range of `u64`.
pub open spec fn receive_fits(s: ReceiverState, seq: u16) -> bool {
    &&& s.packets_received < u64::MAX
    &&& s.expected_packets + 32768 <= u64::MAX
}

/// The fraction lost as RTCP carries it: lost/expected in units of 1/256, at most 255.
pub open spec fn fraction_lost_of(lost: u64, expected: u64) -> u8 {
    if expected == 0 {
        0
    } else if lost * 256 / (expected as int) > 255 {
        255
    } else {
        (lost * 256 / (expected as int)) as u8
    }
}

/// The extended highest sequence number: the wrap count in the high 16 bits and the highest
/// sequence number in the low 16 bits.
pub open spec fn extended_seq_of(s: ReceiverState) -> u32 {
    ((s.cycles as int * 65536 + s.max_seq as int) % 0x1_0000_0000) as u32
}

/// The report block that describes the received stream of `s`, for the source `ssrc`.
pub open spec fn receiver_block(s: ReceiverState, ssrc: u32) -> ReportBlock {
    ReportBlock {
        ssrc,
        fraction_lost: fraction_lost_of(s.packets_lost, s.expected_packets),
        cumulative_lost: if s.packets_lost > 0x7F_FFFF { 0x7F_FFFF } else { s.packets_lost as i32 },
        extended_seq: extended_seq_of(s),
        jitter: s.jitter,
        last_sr: 0,
        delay_since_sr: 0,
    }
}

/// The report blocks describing the received stream, if any packet has been received.
pub open spec fn receiver_blocks(s: ReceiverState, ssrc: u32) -> Seq<ReportBlock> {
    if s.initialized { seq![receiver_block(s, ssrc)] } else { Seq::empty() }
}

/// RTP session for managing a media stream.
#[derive(Debug)]
pub struct RtpSession {
    /// Local SSRC.
    ssrc: u32,
    /// Payload type.
    payload_type: u8,
    /// Clock rate (samples per second).
    clock_rate: u32,
    /// Next sequence number to send.
    next_seq: u16,
    /// Current timestamp.
    current_timestamp: u32,
    /// Packets sent.
    packets_sent: u64,
    /// Octets sent.
    octets_sent: u64,
    /// Start time for timestamp calculation, in microseconds of the wall clock.
    start_time: u64,
    /// Receiver state for statistics.
    receiver_state: ReceiverState,
}

impl RtpSession {
    /// The local SSRC.
    pub closed spec fn spec_ssrc(&self) -> u32 {
        self.ssrc
    }

    /// The payload type.
    pub closed spec fn spec_payload_type(&self) -> u8 {
        self.payload_type
    }

    /// The clock rate.
    pub closed spec fn spec_clock_rate(&self) -> u32 {
        self.clock_rate
    }

    /// The sequence number of the next packet sent.
    pub closed spec fn spec_next_seq(&self) -> u16 {
        self.next_seq
    }

    /// The timestamp of the next packet sent.
    pub closed spec fn spec_timestamp(&self) -> u32 {
        self.current_timestamp
    }

    /// Packets sent so far.
    pub closed spec fn spec_packets_sent(&self) -> u64 {
        self.packets_sent
    }

    /// Payload octets sent so far.
    pub closed spec fn spec_octets_sent(&self) -> u64 {
        self.octets_sent
    }

    /// When the timestamp was last brought up to date, in microseconds.
    pub closed spec fn spec_start_time(&self) -> u64 {
        self.start_time
    }

    /// The receiver statistics.
    pub closed spec fn spec_receiver(&self) -> ReceiverState {
        self.receiver_state
    }

    /// A session that starts sending at sequence number `initial_seq` and timestamp
    /// `initial_ts`, with its clock started at `now_us`.
    pub fn with_start(ssrc: u32, payload_type: u8, clock_rate: u32, initial_seq: u16, initial_ts: u32, now_us: u64) -> (s: Self)
        ensures
            s.spec_ssrc() == ssrc,
            s.spec_payload_type() == payload_type,
            s.spec_clock_rate() == clock_rate,
            s.spec_next_seq() == initial_seq,
            s.spec_timestamp() == initial_ts,
            s.spec_packets_sent() == 0,
            s.spec_octets_sent() == 0,
            s.spec_start_time() == now_us,
            s.spec_receiver() == receiver_initial(),
    {
        RtpSession {
            ssrc,
            payload_type,
            clock_rate,
            next_seq: initial_seq,
            current_timestamp: initial_ts,
            packets_sent: 0,
            octets_sent: 0,
            start_time: now_us,
            receiver_state: ReceiverState::default(),
        }
    }

    /// Create a new RTP session, starting at a random sequence number and timestamp (RFC 3550).
    pub fn new(ssrc: u32, payload_type: u8, clock_rate: u32) -> (s: Self)
        ensures
            s.spec_ssrc() == ssrc,
            s.spec_payload_type() == payload_type,
            s.spec_clock_rate() == clock_rate,
            s.spec_packets_sent() == 0,
            s.spec_octets_sent() == 0,
            s.spec_receiver() == receiver_initial(),
    {
        let initial_seq = crate::random::random_u16();
        let initial_ts = crate::random::random_u32();
        let now = crate::time::unix_micros_now();
        Self::with_start(ssrc, payload_type, clock_rate, initial_seq, initial_ts, now)
    }

    /// Get the SSRC.
    pub fn ssrc(&self) -> (r: u32)
        ensures
            r == self.spec_ssrc(),
    {
        self.ssrc
    }

    /// Get the payload type.
    pub fn payload_type(&self) -> (r: u8)
        ensures
            r == self.spec_payload_type(),
    {
        self.payload_type
    }

    /// Get the clock rate.
    pub fn clock_rate(&self) -> (r: u32)
        ensures
            r == self.spec_clock_rate(),
    {
        self.clock_rate
    }

    /// Get packets sent count.
    pub fn packets_sent(&self) -> (r: u64)
        ensures
            r == self.spec_packets_sent(),
    {
        self.packets_sent
    }

    /// Get octets sent count.
    pub fn octets_sent(&self) -> (r: u64)
        ensures
            r == self.spec_octets_sent(),
    {
        self.octets_sent
    }

    /// Create an RTP packet for sending.
    ///
    /// `samples` is the number of samples in the payload (for timestamp calculation).
    /// `marker` indicates the start of a talkspurt.
    pub fn create_packet(&mut self, payload: Vec<u8>, samples: u32, marker: bool) -> (p: RtpPacket)
        requires
            old(self).spec_packets_sent() < u64::MAX,
            old(self).spec_octets_sent() + payload@.len() <= u64::MAX,
        ensures
            p@ == (RtpView {
                version: 2,
                padding: false,
                extension: false,
                marker,
                payload_type: old(self).spec_payload_type(),
                sequence_number: old(self).spec_next_seq(),
                timestamp: old(self).spec_timestamp(),
                ssrc: old(self).spec_ssrc(),
                csrc: Seq::empty(),
                extension_header: None,
                payload: payload@,
            }),
            final(self).spec_next_seq() == vstd::wrapping::u16_specs::wrapping_add(old(self).spec_next_seq(), 1),
            final(self).spec_timestamp() == vstd::wrapping::u32_specs::wrapping_add(old(self).spec_timestamp(), samples),
            final(self).spec_packets_sent() == old(self).spec_packets_sent() + 1,
            final(self).spec_octets_sent() == old(self).spec_octets_sent() + payload@.len(),
            final(self).spec_ssrc() == old(self).spec_ssrc(),
            final(self).spec_payload_type() == old(self).spec_payload_type(),
            final(self).spec_clock_rate() == old(self).spec_clock_rate(),
            final(self).spec_start_time() == old(self).spec_start_time(),
            final(self).spec_receiver() == old(self).spec_receiver(),
    {
        let timestamp = self.current_timestamp;
        self.current_timestamp = self.current_timestamp.wrapping_add(samples);
        self.send_packet(payload, timestamp, marker)
    }

    /// Create a packet with specific timestamp (for silence suppression).
    pub fn create_packet_at(&mut self, payload: Vec<u8>, timestamp: u32, marker: bool) -> (p: RtpPacket)
        requires
            old(self).spec_packets_sent() < u64::MAX,
            old(self).spec_octets_sent() + payload@.len() <= u64::MAX,
        ensures
            p@ == (RtpView {
                version: 2,
                padding: false,
                extension: false,
                marker,
                payload_type: old(self).spec_payload_type(),
                sequence_number: old(self).spec_next_seq(),
                timestamp,
                ssrc: old(self).spec_ssrc(),
                csrc: Seq::empty(),
                extension_header: None,
                payload: payload@,
            }),
            final(self).spec_next_seq() == vstd::wrapping::u16_specs::wrapping_add(old(self).spec_next_seq(), 1),
            final(self).spec_timestamp() == timestamp,
            final(self).spec_packets_sent() == old(self).spec_packets_sent() + 1,
            final(self).spec_octets_sent() == old(self).spec_octets_sent() + payload@.len(),
            final(self).spec_ssrc() == old(self).spec_ssrc(),
            final(self).spec_payload_type() == old(self).spec_payload_type(),
            final(self).spec_clock_rate() == old(self).spec_clock_rate(),
            final(self).spec_start_time() == old(self).spec_start_time(),
            final(self).spec_receiver() == old(self).spec_receiver(),
    {
        self.current_timestamp = timestamp;
        self.send_packet(payload, timestamp, marker)
    }

    /// Numbers and counts a packet with the given timestamp.
    fn send_packet(&mut self, payload: Vec<u8>, timestamp: u32, marker: bool) -> (p: RtpPacket)
        requires
            old(self).packets_sent < u64::MAX,
            old(self).octets_sent + payload@.len() <= u64::MAX,
        ensures
            p@ == (RtpView {
                version: 2,
                padding: false,
                extension: false,
                marker,
                payload_type: old(self).payload_type,
                sequence_number: old(self).next_seq,
                timestamp,
                ssrc: old(self).ssrc,
                csrc: Seq::empty(),
                extension_header: None,
                payload: payload@,
            }),
            *final(self) == (RtpSession {
                next_seq: vstd::wrapping::u16_specs::wrapping_add(old(self).next_seq, 1),
                packets_sent: (old(self).packets_sent + 1) as u64,
                octets_sent: (old(self).octets_sent + payload@.len()) as u64,
                ..*old(self)
            }),
    {
        let seq = self.next_seq;
        self.next_seq = self.next_seq.wrapping_add(1);
        self.packets_sent = self.packets_sent + 1;
        self.octets_sent = self.octets_sent + payload.len() as u64;
        let p = RtpPacket::new(self.payload_type, seq, timestamp, self.ssrc).with_marker(marker).with_payload(payload);
        assert(p@.csrc =~= Seq::<u32>::empty());
        p
    }

    /// Bring the timestamp up to date at `now_us`: advance it by the samples elapsed since the
    /// last update (at most `u32::MAX`), and restart the count from `now_us`.
    pub fn update_timestamp_at(&mut self, now_us: u64)
        ensures
            final(self).spec_timestamp() == vstd::wrapping::u32_specs::wrapping_add(
                old(self).spec_timestamp(),
                elapsed_samples(old(self).spec_start_time(), now_us, old(self).spec_clock_rate()),
            ),
            final(self).spec_start_time() == now_us,
            final(self).spec_ssrc() == old(self).spec_ssrc(),
            final(self).spec_payload_type() == old(self).spec_payload_type(),
            final(self).spec_clock_rate() == old(self).spec_clock_rate(),
            final(self).spec_next_seq() == old(self).spec_next_seq(),
            final(self).spec_packets_sent() == old(self).spec_packets_sent(),
            final(self).spec_octets_sent() == old(self).spec_octets_sent(),
            final(self).spec_receiver() == old(self).spec_receiver(),
    {
        let samples = samples_between(self.start_time, now_us, self.clock_rate);
        self.current_timestamp = self.current_timestamp.wrapping_add(samples);
        self.start_time = now_us;
    }

    /// Update timestamp based on elapsed time.
    ///
    /// Call this periodically to keep timestamp in sync with real time.
    pub fn update_timestamp(&mut self)
        ensures
            final(self).spec_ssrc() == old(self).spec_ssrc(),
            final(self).spec_payload_type() == old(self).spec_payload_type(),
            final(self).spec_clock_rate() == old(self).spec_clock_rate(),
            final(self).spec_next_seq() == old(self).spec_next_seq(),
            final(self).spec_packets_sent() == old(self).spec_packets_sent(),
            final(self).spec_octets_sent() == old(self).spec_octets_sent(),
            final(self).spec_receiver() == old(self).spec_receiver(),
    {
        let now = crate::time::unix_micros_now();
        self.update_timestamp_at(now);
    }

    /// Process a packet with sequence number `seq` and timestamp `ts` that arrived at
    /// `now_us`, and update the statistics.
    pub fn receive_at(&mut self, seq: u16, ts: u32, now_us: u64)
        requires
            receiver_wf(old(self).spec_receiver()),
            receive_fits(old(self).spec_receiver(), seq),
        ensures
            final(self).spec_receiver() == receive_step(
                old(self).spec_receiver(),
                seq,
                ts,
                now_us,
                old(self).spec_clock_rate(),
            ),
            receiver_wf(final(self).spec_receiver()),
            final(self).spec_ssrc() == old(self).spec_ssrc(),
            final(self).spec_payload_type() == old(self).spec_payload_type(),
            final(self).spec_clock_rate() == old(self).spec_clock_rate(),
            final(self).spec_next_seq() == old(self).spec_next_seq(),
            final(self).spec_timestamp() == old(self).spec_timestamp(),
            final(self).spec_packets_sent() == old(self).spec_packets_sent(),
            final(self).spec_octets_sent() == old(self).spec_octets_sent(),
            final(self).spec_start_time() == old(self).spec_start_time(),
    {
        proof {
            lemma_receive_keeps_wf(self.receiver_state, seq, ts, now_us, self.clock_rate);
        }
        let rate = self.clock_rate;
        let st = &mut self.receiver_state;
        if !st.initialized {
            st.base_seq = seq;
            st.max_seq = seq;
            st.initialized = true;
            st.last_timestamp = ts;
            st.last_arrival = Some(now_us);
            st.packets_received = 1;
            st.expected_packets = 1;
            return;
        }
        st.packets_received = st.packets_received + 1;
        let seq_diff = sequence_diff(seq, st.max_seq);
        if seq_diff > 0 {
            let expected_increase = seq_diff as u64;
            st.expected_packets = st.expected_packets + expected_increase;
            if expected_increase > 1 {
                st.packets_lost = st.packets_lost + (expected_increase - 1);
            }
            if seq < st.max_seq {
                st.cycles = st.cycles.wrapping_add(1);
            }
            st.max_seq = seq;
        }
        match st.last_arrival {
            Some(last) => {
                let dd = transit_delta_exec(last, now_us, st.last_timestamp, ts, rate);
                st.jitter = jitter_next_exec(st.jitter, dd);
            },
            None => {},
        }
        st.last_timestamp = ts;
        st.last_arrival = Some(now_us);
    }

    /// Process a received RTP packet and update statistics.
    pub fn receive_packet(&mut self, packet: &RtpPacket)
        requires
            receiver_wf(old(self).spec_receiver()),
            receive_fits(old(self).spec_receiver(), packet.sequence_number),
        ensures
            exists|now_us: u64|
                final(self).spec_receiver() == receive_step(
                    old(self).spec_receiver(),
                    packet.sequence_number,
                    packet.timestamp,
                    now_us,
                    old(self).spec_clock_rate(),
                ),
            receiver_wf(final(self).spec_receiver()),
            final(self).spec_ssrc() == old(self).spec_ssrc(),
            final(self).spec_clock_rate() == old(self).spec_clock_rate(),
            final(self).spec_next_seq() == old(self).spec_next_seq(),
            final(self).spec_timestamp() == old(self).spec_timestamp(),
            final(self).spec_packets_sent() == old(self).spec_packets_sent(),
            final(self).spec_octets_sent() == old(self).spec_octets_sent(),
    {
        let now = crate::time::unix_micros_now();
        self.receive_at(packet.sequence_number, packet.timestamp, now);
    }

    /// Get receiver statistics.
    pub fn receiver_stats(&self) -> (r: &ReceiverState)
        ensures
            *r == self.spec_receiver(),
    {
        &self.receiver_state
    }

    /// Calculate timestamp for a given duration from session start: the current timestamp
    /// advanced by the samples in `duration` (rounded down, at most `u32::MAX`).
    pub fn timestamp_for_duration(&self, duration: Duration) -> (t: u32)
        ensures
            t == vstd::wrapping::u32_specs::wrapping_add(
                self.spec_timestamp(),
                duration_samples(duration.nanos as nat, self.spec_clock_rate()),
            ),
    {
        let rate = self.clock_rate as u128;
        let nanos = duration.nanos;
        let samples: u32 = if rate == 0 {
            0
        } else if nanos > u128::MAX / 0x1_0000_0000 {
            assert(nanos * rate / 1_000_000_000 > u32::MAX) by (nonlinear_arith)
                requires
                    nanos > u128::MAX / 0x1_0000_0000,
                    rate >= 1,
            ;
            u32::MAX
        } else {
            assert(nanos * rate <= u128::MAX) by (nonlinear_arith)
                requires
                    nanos <= u128::MAX / 0x1_0000_0000,
                    rate < 0x1_0000_0000,
            ;
            let s = nanos * rate / 1_000_000_000;
            if s > u32::MAX as u128 { u32::MAX } else { s as u32 }
        };
        self.current_timestamp.wrapping_add(samples)
    }

    /// Generate a Sender Report for this session, stamped with `ntp`.
    pub fn sender_report_at(&self, ntp: NtpTimestamp) -> (sr: SenderReport)
        ensures
            sr.ssrc == self.spec_ssrc(),
            sr.ntp_timestamp == ntp,
            sr.rtp_timestamp == self.spec_timestamp(),
            sr.sender_packet_count == self.spec_packets_sent() % 0x1_0000_0000,
            sr.sender_octet_count == self.spec_octets_sent() % 0x1_0000_0000,
            sr.report_blocks@ == receiver_blocks(self.spec_receiver(), 0),
    {
        let report_blocks = self.report_blocks(0);
        SenderReport {
            ssrc: self.ssrc,
            ntp_timestamp: ntp,
            rtp_timestamp: self.current_timestamp,
            sender_packet_count: (self.packets_sent % 0x1_0000_0000) as u32,
            sender_octet_count: (self.octets_sent % 0x1_0000_0000) as u32,
            report_blocks,
        }
    }

    /// Generate a Sender Report for this session.
    ///
    /// Call this periodically (typically every 5 seconds) when sending media.
    pub fn create_sender_report(&self) -> (sr: SenderReport)
        ensures
            sr.ssrc == self.spec_ssrc(),
            sr.rtp_timestamp == self.spec_timestamp(),
            sr.sender_packet_count == self.spec_packets_sent() % 0x1_0000_0000,
            sr.sender_octet_count == self.spec_octets_sent() % 0x1_0000_0000,
            sr.report_blocks@ == receiver_blocks(self.spec_receiver(), 0),
    {
        self.sender_report_at(NtpTimestamp::now())
    }

    /// The report blocks for the received stream: one, once a packet has arrived.
    fn report_blocks(&self, ssrc: u32) -> (v: Vec<ReportBlock>)
        ensures
            v@ == receiver_blocks(self.receiver_state, ssrc),
    {
        let mut report_blocks: Vec<ReportBlock> = Vec::new();
        if self.receiver_state.initialized {
            let state = &self.receiver_state;
            let fraction_lost = fraction_lost(state.packets_lost, state.expected_packets);
            let cumulative_lost: i32 = if state.packets_lost > 0x7F_FFFF {
                0x7F_FFFF
            } else {
                state.packets_lost as i32
            };
            let wide: u64 = (state.cycles as u64) * 65536 + (state.max_seq as u64);
            let extended_seq: u32 = (wide % 0x1_0000_0000) as u32;
            assert(extended_seq == extended_seq_of(*state));
            report_blocks.push(
                ReportBlock {
                    ssrc,
                    fraction_lost,
                    cumulative_lost,
                    extended_seq,
                    jitter: state.jitter,
                    last_sr: 0,
                    delay_since_sr: 0,
                },
            );
            assert(report_blocks@ =~= receiver_blocks(self.receiver_state, ssrc));
        } else {
            assert(report_blocks@ =~= receiver_blocks(self.receiver_state, ssrc));
        }
        report_blocks
    }

    /// Generate a Receiver Report for this session.
    ///
    /// Call this periodically (typically every 5 seconds) when only receiving.
    pub fn create_receiver_report(&self, remote_ssrc: u32) -> (rr: ReceiverReport)
        ensures
            rr.ssrc == self.spec_ssrc(),
            rr.report_blocks@ == receiver_blocks(self.spec_receiver(), remote_ssrc),
    {
        ReceiverReport { ssrc: self.ssrc, report_blocks: self.report_blocks(remote_ssrc) }
    }

    /// Create an RTCP compound packet (SR + SDES or RR + SDES).
    pub fn create_rtcp_compound(&self, cname: &str, is_sender: bool) -> (c: RtcpCompound)
        ensures
            c.packets@.len() == 2,
            is_sender ==> (c.packets@[0] matches RtcpPacket::SenderReport(sr) && sr.ssrc == self.spec_ssrc()
                && sr.rtp_timestamp == self.spec_timestamp() && sr.sender_packet_count
                == self.spec_packets_sent() % 0x1_0000_0000 && sr.sender_octet_count == self.spec_octets_sent() % 0x1_0000_0000
                && sr.report_blocks@ == receiver_blocks(self.spec_receiver(), 0)),
            !is_sender ==> (c.packets@[0] matches RtcpPacket::ReceiverReport(rr) && rr.ssrc == self.spec_ssrc()
                && rr.report_blocks@ == receiver_blocks(self.spec_receiver(), 0)),
            c.packets@[1] matches RtcpPacket::SourceDescription(d) && is_cname_sdes(d, self.spec_ssrc(), cname@),
    {
        if is_sender {
            let sr = self.create_sender_report();
            RtcpCompound::sender_compound(sr, cname)
        } else {
            let rr = self.create_receiver_report(0);
            RtcpCompound::receiver_compound(rr, cname)
        }
    }
}

/// The samples elapsed at `rate` between `start_us` and `now_us` (none if the clock went
/// back), at most `u32::MAX`.
pub open spec fn elapsed_samples(start_us: u64, now_us: u64, rate: u32) -> u32 {
    let elapsed: nat = if now_us >= start_us { (now_us - start_us) as nat } else { 0 };
    let s = samples_in(elapsed, rate);
    if s > u32::MAX { u32::MAX } else { s as u32 }
}

/// The samples in `nanos` nanoseconds at `rate`, rounded down, at most `u32::MAX`.
pub open spec fn duration_samples(nanos: nat, rate: u32) -> u32 {
    let s = nanos * rate / 1_000_000_000int;
    if s > u32::MAX { u32::MAX } else { s as u32 }
}

fn samples_between(start_us: u64, now_us: u64, rate: u32) -> (s: u32)
    ensures
        s == elapsed_samples(start_us, now_us, rate),
{
    let elapsed: u64 = if now_us >= start_us { now_us - start_us } else { 0 };
    let e = elapsed as u128;
    let r = rate as u128;
    assert(e * r <= u128::MAX) by (nonlinear_arith)
        requires
            e <= u64::MAX,
            r <= u32::MAX,
    ;
    let prod: u128 = e * r;
    let q = prod / 1_000_000;
    if q > u32::MAX as u128 { u32::MAX } else { q as u32 }
}

fn transit_delta_exec(last_us: u64, now_us: u64, last_ts: u32, ts: u32, rate: u32) -> (dd: u64)
    ensures
        dd == transit_delta(last_us, now_us, last_ts, ts, rate),
        dd < 0x1_0000_0000,
{
    let elapsed: u64 = if now_us >= last_us { now_us - last_us } else { 0 };
    let e = elapsed as u128;
    let r = rate as u128;
    assert(e * r <= u128::MAX) by (nonlinear_arith)
        requires
            e <= u64::MAX,
            r <= u32::MAX,
    ;
    let prod: u128 = e * r;
    let q = prod / 1_000_000;
    let arrival: i64 = if q > 0x7FFF_FFFF { 0x7FFF_FFFF } else { q as i64 };
    let w = ts.wrapping_sub(last_ts);
    let ts_diff: i64 = if w >= 0x8000_0000 { w as i64 - 0x1_0000_0000 } else { w as i64 };
    let d = arrival - ts_diff;
    if d >= 0 { d as u64 } else { (-d) as u64 }
}

fn jitter_next_exec(j: u32, dd: u64) -> (r: u32)
    requires
        dd < 0x1_0000_0000,
    ensures
        r == jitter_next(j, dd as nat),
{
    let x: i64 = dd as i64 - j as i64;
    let adj: i64 = if x >= 0 { x / 16 } else { -((-x + 15) / 16) };
    assert(adj == x / 16) by (nonlinear_arith)
        requires
            adj == (if x >= 0 { x / 16 } else { -((-x + 15) / 16) }),
    ;
    let sum: i64 = j as i64 + adj;
    if sum > u32::MAX as i64 {
        u32::MAX
    } else if sum < 0 {
        0
    } else {
        sum as u32
    }
}

/// The fraction lost in units of 1/256, at most 255.
fn fraction_lost(lost: u64, expected: u64) -> (f: u8)
    ensures
        f == fraction_lost_of(lost, expected),
{
    if expected == 0 {
        return 0;
    }
    let q: u128 = (lost as u128) * 256 / (expected as u128);
    if q > 255 { 255 } else { q as u8 }
}

/// Receiving a packet keeps the statistics consistent: fewer packets are ever counted lost
/// than expected.
pub proof fn lemma_receive_keeps_wf(s: ReceiverState, seq: u16, ts: u32, now_us: u64, rate: u32)
    requires
        receiver_wf(s),
        receive_fits(s, seq),
    ensures
        receiver_wf(receive_step(s, seq, ts, now_us, rate)),
{
}

/// Once a packet has been received, the fraction lost that the reports carry is below one.
pub proof fn lemma_fraction_lost_below_one(s: ReceiverState)
    requires
        receiver_wf(s),
        s.initialized,
    ensures
        fraction_lost_of(s.packets_lost, s.expected_packets) as int == s.packets_lost * 256 / (s.expected_packets as int),
{
    assert(s.packets_lost * 256 / (s.expected_packets as int) < 256) by (nonlinear_arith)
        requires
            s.packets_lost < s.expected_packets,
    ;
}

} // verus!

verus! {

/// The transit difference of RFC 3550 A.8: for a packet whose timestamp is `k` units after the
/// last one's (forward, under half the timestamp range) and that arrives `a` timestamp units
/// after it (`a` the elapsed wall-clock time at the clock rate, rounded down), the difference
/// is `|a - k|`; a packet that arrives on schedule has difference zero.
pub proof fn lemma_transit_difference(last_us: u64, now_us: u64, last_ts: u32, ts: u32, rate: u32)
    requires
        last_us <= now_us,
        last_ts <= ts,
        ts - last_ts < 0x8000_0000,
        (now_us - last_us) * rate / 1_000_000 <= i32::MAX,
    ensures
        ({
            let a: int = (now_us - last_us) * rate / 1_000_000;
            let k: int = ts - last_ts;
            transit_delta(last_us, now_us, last_ts, ts, rate) == if a >= k { a - k } else { k - a }
        }),
{
}

/// Interarrival jitter (RFC 3550 A.8): when a packet arrives on a stream whose last arrival is
/// known, the estimate `J` moves a sixteenth of the way toward the packet's transit difference
/// `D`: it becomes `J + (D - J)/16` (rounded down), which lies between `J` and `D`. From `J = 0`
/// and `D = 80` it becomes 5.
pub proof fn lemma_jitter_estimate(s: ReceiverState, seq: u16, ts: u32, now_us: u64, rate: u32)
    requires
        s.initialized,
        s.last_arrival is Some,
    ensures
        ({
            let d: int = transit_delta(s.last_arrival->0, now_us, s.last_timestamp, ts, rate) as int;
            let j: int = s.jitter as int;
            let next: int = receive_step(s, seq, ts, now_us, rate).jitter as int;
            &&& next == j + (d - j) / 16
            &&& j <= d ==> j <= next <= d
            &&& d <= j ==> d <= next <= j
            &&& 16 * (next - j) <= d - j < 16 * (next - j) + 16
        }),
{
    let d: int = transit_delta(s.last_arrival->0, now_us, s.last_timestamp, ts, rate) as int;
    let j: int = s.jitter as int;
    let last = s.last_arrival->0;
    let elapsed: nat = if now_us >= last { (now_us - last) as nat } else { 0 };
    let sm = samples_in(elapsed, rate);
    let arrival: int = if sm > i32::MAX { i32::MAX as int } else { sm as int };
    let ts_diff = as_signed32(vstd::wrapping::u32_specs::wrapping_sub(ts, s.last_timestamp));
    assert(0 <= arrival <= i32::MAX);
    assert(-0x8000_0000 <= ts_diff < 0x8000_0000);
    assert(d < 0x1_0000_0000);
    let adj = (d - j) / 16;
    assert(16 * adj <= d - j < 16 * adj + 16);
    assert(j <= d ==> 0 <= adj && j + adj <= d);
    assert(d <= j ==> adj <= 0 && d <= j + adj);
}

} // verus!

verus! {

/// The report block of RFC 3550 Section 6.4.1 for a received stream: the extended highest
/// sequence number carries the highest sequence number in its low 16 bits and the wrap count
/// in its high 16; the fraction lost is the loss since the start as a fixed-point fraction
/// `lost * 256 / expected` (rounded down, at most 255, zero before any packet is expected);
/// the cumulative loss is the loss count, capped at the 24-bit field's largest value.
pub proof fn lemma_report_block_fields(s: ReceiverState, ssrc: u32)
    ensures
        receiver_block(s, ssrc).ssrc == ssrc,
        receiver_block(s, ssrc).extended_seq % 65536 == s.max_seq,
        receiver_block(s, ssrc).extended_seq / 65536 == s.cycles % 65536,
        s.expected_packets == 0 ==> receiver_block(s, ssrc).fraction_lost == 0,
        s.expected_packets > 0 && s.packets_lost * 256 < 256 * s.expected_packets ==> ({
            let f = receiver_block(s, ssrc).fraction_lost as int;
            f * s.expected_packets <= s.packets_lost * 256 < (f + 1) * s.expected_packets
        }),
        s.expected_packets > 0 && s.packets_lost >= s.expected_packets ==> receiver_block(s, ssrc).fraction_lost
            == 255,
        receiver_block(s, ssrc).cumulative_lost == if s.packets_lost > 0x7F_FFFF {
            0x7F_FFFF
        } else {
            s.packets_lost as int
        },
{
    let c = s.cycles as int;
    let m = s.max_seq as int;
    let e = receiver_block(s, ssrc).extended_seq as int;
    assert(e == (c * 65536 + m) % 0x1_0000_0000);
    assert((c * 65536 + m) % 0x1_0000_0000 == (c % 65536) * 65536 + m) by (nonlinear_arith)
        requires
            0 <= c < 0x1_0000_0000,
            0 <= m < 65536,
    {
        assert(c * 65536 + m == (c / 65536) * 0x1_0000_0000 + ((c % 65536) * 65536 + m));
        assert(0 <= (c % 65536) * 65536 + m < 0x1_0000_0000);
    }
    assert(e % 65536 == m && e / 65536 == c % 65536) by (nonlinear_arith)
        requires
            e == (c % 65536) * 65536 + m,
            0 <= m < 65536,
            0 <= c % 65536 < 65536,
    ;
    let x = s.packets_lost as int;
    let n = s.expected_packets as int;
    if n > 0 {
        let q = x * 256 / n;
        assert(q * n <= x * 256 < (q + 1) * n) by (nonlinear_arith)
            requires
                n > 0,
                q == x * 256 / n,
                x >= 0,
        ;
        if x * 256 < 256 * n {
            assert(q <= 255) by (nonlinear_arith)
                requires
                    q * n <= x * 256,
                    x * 256 < 256 * n,
                    n > 0,
            ;
        }
        if x >= n {
            assert(q >= 256) by (nonlinear_arith)
                requires
                    x * 256 < (q + 1) * n,
                    x >= n,
                    n > 0,
            ;
        }
    }
}

} // verus!
