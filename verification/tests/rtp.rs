use rsiprtp::rtp::packet::{sequence_diff, sequence_newer, RtpPacket, RtpParseError};
use rsiprtp::rtp::rtcp::{
    Goodbye, NtpTimestamp, ReceiverReport, ReportBlock, RtcpCompound, RtcpHeader, RtcpParseError, RtcpType,
    SenderReport, SourceDescription,
};
use rsiprtp::rtp::session::RtpSession;
use rsiprtp::time::Duration;

#[test]
fn test_parse_simple_packet() {
    let data = [
        0x80, 0x00, 0x00, 0x01, 0x00, 0x00, 0x00, 0xA0, 0x00, 0x00, 0x30, 0x39, 0xAA, 0xBB, 0xCC, 0xDD,
    ];
    let pkt = RtpPacket::parse(&data).unwrap();
    assert_eq!(pkt.version, 2);
    assert!(!pkt.padding);
    assert!(!pkt.extension);
    assert!(!pkt.marker);
    assert_eq!(pkt.payload_type, 0);
    assert_eq!(pkt.sequence_number, 1);
    assert_eq!(pkt.timestamp, 160);
    assert_eq!(pkt.ssrc, 12345);
    assert!(pkt.csrc.is_empty());
    assert_eq!(&pkt.payload[..], &[0xAA, 0xBB, 0xCC, 0xDD]);
}

#[test]
fn test_parse_with_marker() {
    let data = [0x80, 0x80, 0x00, 0x01, 0x00, 0x00, 0x00, 0xA0, 0x00, 0x00, 0x30, 0x39];
    let pkt = RtpPacket::parse(&data).unwrap();
    assert!(pkt.marker);
    assert_eq!(pkt.payload_type, 0);
}

#[test]
fn test_parse_with_payload_type() {
    let data = [0x80, 0x08, 0x00, 0x01, 0x00, 0x00, 0x00, 0xA0, 0x00, 0x00, 0x30, 0x39];
    let pkt = RtpPacket::parse(&data).unwrap();
    assert_eq!(pkt.payload_type, 8);
}

#[test]
fn test_build_and_parse() {
    let original = RtpPacket::new(0, 100, 1600, 0xDEADBEEF).with_marker(true).with_payload(vec![1, 2, 3, 4]);
    let bytes = original.build();
    let parsed = RtpPacket::parse(&bytes).unwrap();
    assert_eq!(parsed.version, 2);
    assert!(parsed.marker);
    assert_eq!(parsed.payload_type, 0);
    assert_eq!(parsed.sequence_number, 100);
    assert_eq!(parsed.timestamp, 1600);
    assert_eq!(parsed.ssrc, 0xDEADBEEF);
    assert_eq!(&parsed.payload[..], &[1, 2, 3, 4]);
}

#[test]
fn test_with_csrc() {
    let pkt = RtpPacket::new(0, 1, 160, 12345).with_csrc(11111).with_csrc(22222);
    let bytes = pkt.build();
    let parsed = RtpPacket::parse(&bytes).unwrap();
    assert_eq!(parsed.csrc.len(), 2);
    assert_eq!(parsed.csrc[0], 11111);
    assert_eq!(parsed.csrc[1], 22222);
    assert_eq!(pkt.header_size(), 20);
}

#[test]
fn test_sequence_diff() {
    assert_eq!(sequence_diff(10, 5), 5);
    assert_eq!(sequence_diff(5, 10), -5);
    assert_eq!(sequence_diff(0, 65535), 1);
    assert_eq!(sequence_diff(65535, 0), -1);
}

#[test]
fn test_sequence_newer() {
    assert!(sequence_newer(10, 5));
    assert!(!sequence_newer(5, 10));
    assert!(sequence_newer(0, 65535));
}

#[test]
fn sequence_laws_on_values() {
    // One step forward is a difference of one, and the difference is antisymmetric.
    assert_eq!(sequence_diff(65535u16.wrapping_add(1), 65535), 1);
    assert_eq!(sequence_diff(1234, 40000), -sequence_diff(40000, 1234));
    assert!(!(sequence_newer(7, 3) && sequence_newer(3, 7)));
}

#[test]
fn test_too_short() {
    let result = RtpPacket::parse(&[0x80, 0x00, 0x00, 0x01]);
    assert!(matches!(result, Err(RtpParseError::TooShort(_))));
}

#[test]
fn test_invalid_version() {
    let data = [0x40, 0x00, 0x00, 0x01, 0x00, 0x00, 0x00, 0xA0, 0x00, 0x00, 0x30, 0x39];
    assert!(matches!(RtpPacket::parse(&data), Err(RtpParseError::InvalidVersion(1))));
}

#[test]
fn truncated_extension_and_payload_are_errors() {
    // X bit set but no extension header.
    let data = [0x90, 0x00, 0x00, 0x01, 0x00, 0x00, 0x00, 0xA0, 0x00, 0x00, 0x30, 0x39];
    assert!(matches!(RtpPacket::parse(&data), Err(RtpParseError::ExtensionTruncated)));
    // CC = 2 but no CSRC words.
    let data = [0x82, 0x00, 0x00, 0x01, 0x00, 0x00, 0x00, 0xA0, 0x00, 0x00, 0x30, 0x39];
    assert_eq!(RtpParseError::TooShort(12).to_text(), "Packet too short: 12 bytes");
    assert!(RtpPacket::parse(&data).is_err());
}

#[test]
fn test_ntp_timestamp() {
    let ntp = NtpTimestamp::now();
    assert!(ntp.seconds > 0);
    let compact = ntp.compact();
    assert!(compact > 0);
}

#[test]
fn ntp_conversions_exact() {
    let t = NtpTimestamp::from_unix(0, 500_000_000);
    assert_eq!(t.seconds, 2_208_988_800u64 as u32);
    assert_eq!(t.fraction, 0x8000_0000);
    let c = NtpTimestamp { seconds: 0x1234_5678, fraction: 0x9abc_def0 }.compact();
    assert_eq!(c, 0x5678_9abc);
    assert_eq!(NtpTimestamp::from_compact(c).compact(), c);
}

fn sample_sr(blocks: Vec<ReportBlock>) -> SenderReport {
    SenderReport {
        ssrc: 12345,
        ntp_timestamp: NtpTimestamp::now(),
        rtp_timestamp: 160000,
        sender_packet_count: 100,
        sender_octet_count: 16000,
        report_blocks: blocks,
    }
}

#[test]
fn test_sender_report_build_parse() {
    let bytes = sample_sr(vec![]).build();
    let parsed = SenderReport::parse(&bytes).unwrap();
    assert_eq!(parsed.ssrc, 12345);
    assert_eq!(parsed.rtp_timestamp, 160000);
    assert_eq!(parsed.sender_packet_count, 100);
    assert_eq!(parsed.sender_octet_count, 16000);
}

#[test]
fn test_sender_report_with_report_block() {
    let block = ReportBlock {
        ssrc: 67890,
        fraction_lost: 25,
        cumulative_lost: 10,
        extended_seq: 50000,
        jitter: 160,
        last_sr: 0,
        delay_since_sr: 0,
    };
    let bytes = sample_sr(vec![block]).build();
    let parsed = SenderReport::parse(&bytes).unwrap();
    assert_eq!(parsed.report_blocks.len(), 1);
    assert_eq!(parsed.report_blocks[0].ssrc, 67890);
    assert_eq!(parsed.report_blocks[0].fraction_lost, 25);
}

#[test]
fn test_receiver_report_build_parse() {
    let rr = ReceiverReport {
        ssrc: 12345,
        report_blocks: vec![ReportBlock {
            ssrc: 67890,
            fraction_lost: 0,
            cumulative_lost: 0,
            extended_seq: 1000,
            jitter: 80,
            last_sr: 0,
            delay_since_sr: 0,
        }],
    };
    let bytes = rr.build();
    let parsed = ReceiverReport::parse(&bytes).unwrap();
    assert_eq!(parsed.ssrc, 12345);
    assert_eq!(parsed.report_blocks.len(), 1);
    assert_eq!(parsed.report_blocks[0].ssrc, 67890);
}

#[test]
fn test_sdes_build() {
    let sdes = SourceDescription::with_cname(12345, "user@example.com");
    let bytes = sdes.build();
    assert_eq!(bytes[1], RtcpType::SourceDescription.code());
    assert_eq!(bytes.len() % 4, 0);
}

#[test]
fn test_goodbye_build() {
    let bytes = Goodbye::new(12345).build();
    assert_eq!(bytes[1], RtcpType::Goodbye.code());
    assert_eq!(bytes, vec![0x81, 203, 0, 1, 0, 0, 0x30, 0x39]);
}

#[test]
fn test_compound_packet() {
    let compound = RtcpCompound::sender_compound(sample_sr(vec![]), "user@example.com");
    let bytes = compound.build();
    assert!(bytes.len() > 28);
    assert_eq!(bytes[1], RtcpType::SenderReport.code());
}

#[test]
fn test_report_block() {
    let block = ReportBlock {
        ssrc: 12345,
        fraction_lost: 128,
        cumulative_lost: 1000,
        extended_seq: 65536 + 1000,
        jitter: 320,
        last_sr: 0x12345678,
        delay_since_sr: 65536,
    };
    let mut buf = Vec::new();
    block.build(&mut buf);
    let parsed = ReportBlock::parse(&buf).unwrap();
    assert_eq!(parsed.ssrc, 12345);
    assert_eq!(parsed.fraction_lost, 128);
    assert_eq!(parsed.extended_seq, 65536 + 1000);
    assert_eq!(parsed.jitter, 320);
    assert_eq!(parsed, block);
}

#[test]
fn report_block_negative_loss_round_trips() {
    let block = ReportBlock { cumulative_lost: -5, ..ReportBlock::default() };
    let mut buf = Vec::new();
    block.build(&mut buf);
    assert_eq!(&buf[5..8], &[0xff, 0xff, 0xfb]);
    assert_eq!(ReportBlock::parse(&buf).unwrap().cumulative_lost, -5);
}

#[test]
fn rtcp_header_and_types() {
    assert_eq!(RtcpType::from_code(200).unwrap(), RtcpType::SenderReport);
    assert!(RtcpType::from_code(199).is_err());
    let (h, rest) = RtcpHeader::parse(&[0x81, 201, 0, 7, 9]).unwrap();
    assert_eq!(h.count, 1);
    assert_eq!(h.packet_type, RtcpType::ReceiverReport);
    assert_eq!(h.length, 7);
    assert_eq!(rest, &[9]);
}

#[test]
fn test_create_session() {
    let session = RtpSession::new(12345, 0, 8000);
    assert_eq!(session.ssrc(), 12345);
    assert_eq!(session.payload_type(), 0);
    assert_eq!(session.clock_rate(), 8000);
}

#[test]
fn test_create_packet() {
    let mut session = RtpSession::new(12345, 0, 8000);
    let payload = vec![1, 2, 3, 4];
    let pkt1 = session.create_packet(payload.clone(), 160, true);
    assert!(pkt1.marker);
    assert_eq!(pkt1.payload_type, 0);
    assert_eq!(pkt1.ssrc, 12345);
    let pkt2 = session.create_packet(payload, 160, false);
    assert!(!pkt2.marker);
    assert_eq!(pkt2.sequence_number, pkt1.sequence_number.wrapping_add(1));
    assert_eq!(pkt2.timestamp, pkt1.timestamp.wrapping_add(160));
}

#[test]
fn test_packets_sent() {
    let mut session = RtpSession::new(12345, 0, 8000);
    session.create_packet(vec![0; 160], 160, false);
    session.create_packet(vec![0; 160], 160, false);
    session.create_packet(vec![0; 160], 160, false);
    assert_eq!(session.packets_sent(), 3);
    assert_eq!(session.octets_sent(), 480);
}

#[test]
fn test_receive_packet() {
    let mut session = RtpSession::new(12345, 0, 8000);
    let pkt1 = RtpPacket::new(0, 100, 0, 99999).with_payload(vec![0; 160]);
    session.receive_packet(&pkt1);
    assert_eq!(session.receiver_stats().packets_received, 1);
    assert!(session.receiver_stats().initialized);
    let pkt2 = RtpPacket::new(0, 101, 160, 99999).with_payload(vec![0; 160]);
    session.receive_packet(&pkt2);
    assert_eq!(session.receiver_stats().packets_received, 2);
    assert_eq!(session.receiver_stats().max_seq, 101);
}

#[test]
fn test_packet_loss_detection() {
    let mut session = RtpSession::new(12345, 0, 8000);
    session.receive_packet(&RtpPacket::new(0, 100, 0, 99999));
    session.receive_packet(&RtpPacket::new(0, 102, 320, 99999));
    assert_eq!(session.receiver_stats().packets_lost, 1);
    assert_eq!(session.receiver_stats().expected_packets, 3);
}

#[test]
fn session_with_start_is_deterministic() {
    let mut s = RtpSession::with_start(7, 8, 8000, 65535, 4294967200, 0);
    let p1 = s.create_packet(vec![1], 160, false);
    let p2 = s.create_packet(vec![2], 160, false);
    assert_eq!(p1.sequence_number, 65535);
    assert_eq!(p2.sequence_number, 0);
    assert_eq!(p1.timestamp, 4294967200);
    assert_eq!(p2.timestamp, 4294967200u32.wrapping_add(160));
    assert_eq!(s.timestamp_for_duration(Duration::from_millis(20)), 4294967200u32.wrapping_add(320).wrapping_add(160));
}

#[test]
fn receiver_stats_after_jitter_free_stream() {
    let mut s = RtpSession::with_start(1, 0, 8000, 0, 0, 0);
    s.receive_at(10, 0, 1_000_000);
    s.receive_at(11, 160, 1_020_000);
    s.receive_at(12, 320, 1_040_000);
    let st = s.receiver_stats();
    assert_eq!(st.packets_lost, 0);
    assert_eq!(st.jitter, 0);
    assert_eq!(st.base_seq, 10);
    let rr = s.create_receiver_report(99);
    assert_eq!(rr.report_blocks.len(), 1);
    assert_eq!(rr.report_blocks[0].fraction_lost, 0);
    assert_eq!(rr.report_blocks[0].extended_seq, 12);
}

#[test]
fn receiver_report_counts_sequence_wraps() {
    let mut s = RtpSession::new(1, 0, 8000);
    s.receive_packet(&RtpPacket::new(0, 65535, 0, 7));
    s.receive_packet(&RtpPacket::new(0, 0, 160, 7));
    let rr = s.create_receiver_report(7);
    assert_eq!(rr.ssrc, 1);
    assert_eq!(rr.report_blocks.len(), 1);
    assert_eq!(rr.report_blocks[0].ssrc, 7);
    assert_eq!(rr.report_blocks[0].extended_seq, 65536);
    assert_eq!(rr.report_blocks[0].cumulative_lost, 0);
    assert_eq!(rr.report_blocks[0].fraction_lost, 0);
}

#[test]
fn sender_report_with_cut_sender_info_is_too_short() {
    let mut data = vec![0x80u8, 200, 0x00, 0x06];
    data.extend_from_slice(&[0u8; 20]);
    assert!(matches!(SenderReport::parse(&data), Err(RtcpParseError::TooShort(20))));
    let mut data = vec![0x80u8, 200, 0x00, 0x06];
    data.extend_from_slice(&[0u8; 23]);
    assert!(matches!(SenderReport::parse(&data), Err(RtcpParseError::TooShort(23))));
}
