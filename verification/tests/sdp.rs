use rsiprtp::net::IpAddr;
use rsiprtp::sdp::builder::{MediaBuilder, SdpBuilder};
use rsiprtp::sdp::parser::{Direction, MediaType, SdpParseError, SessionDescription};

const BASIC_SDP: &str = "v=0
o=- 1234567890 1 IN IP4 192.168.1.1
s=Test Session
c=IN IP4 192.168.1.1
t=0 0
m=audio 49170 RTP/AVP 0 8
a=rtpmap:0 PCMU/8000
a=rtpmap:8 PCMA/8000
a=sendrecv
";

#[test]
fn test_parse_basic_sdp() {
    let sdp = SessionDescription::parse(BASIC_SDP).unwrap();
    assert_eq!(sdp.version, 0);
    assert_eq!(sdp.origin.username, "-");
    assert_eq!(sdp.session_name, "Test Session");
    assert!(sdp.connection.is_some());
    let audio = sdp.audio_media().unwrap();
    assert_eq!(audio.port, 49170);
    assert_eq!(audio.protocol, "RTP/AVP");
    assert_eq!(audio.formats, vec!["0", "8"]);
    assert_eq!(audio.direction(), Direction::SendRecv);
}

#[test]
fn test_parse_rtpmap() {
    let sdp = SessionDescription::parse(BASIC_SDP).unwrap();
    let audio = sdp.audio_media().unwrap();
    let rtpmaps = audio.rtpmaps();
    assert_eq!(rtpmaps.len(), 2);
    assert_eq!(rtpmaps[0].payload_type, 0);
    assert_eq!(rtpmaps[0].encoding, "PCMU");
    assert_eq!(rtpmaps[0].clock_rate, 8000);
    assert_eq!(rtpmaps[1].payload_type, 8);
    assert_eq!(rtpmaps[1].encoding, "PCMA");
}

#[test]
fn test_connection_ip() {
    let sdp = SessionDescription::parse(BASIC_SDP).unwrap();
    let conn = sdp.connection.unwrap();
    let ip = conn.ip_addr().unwrap();
    assert_eq!(ip.to_text(), "192.168.1.1");
}

#[test]
fn test_media_direction() {
    let sdp = "v=0\no=- 0 0 IN IP4 0.0.0.0\ns=-\nt=0 0\nm=audio 0 RTP/AVP 0\na=inactive\n";
    let parsed = SessionDescription::parse(sdp).unwrap();
    let audio = parsed.audio_media().unwrap();
    assert_eq!(audio.direction(), Direction::Inactive);
    assert!(audio.is_rejected());
}

#[test]
fn parse_errors_name_the_missing_line() {
    assert_eq!(SessionDescription::parse("o=- 0 0 IN IP4 0.0.0.0\n").unwrap_err(), SdpParseError::MissingVersion);
    assert_eq!(SessionDescription::parse("v=x\n").unwrap_err(), SdpParseError::InvalidVersion);
    assert_eq!(SessionDescription::parse("v=1\n").unwrap_err(), SdpParseError::MissingOrigin);
    assert_eq!(SessionDescription::parse("v=0\ns=x\nt=0 0\n").unwrap_err(), SdpParseError::MissingOrigin);
    assert_eq!(SessionDescription::parse("v=0\no=- 0 0 IN IP4 1.2.3.4\ns=x\n").unwrap_err(), SdpParseError::MissingTiming);
    assert_eq!(SdpParseError::InvalidMedia.to_text(), "Invalid media");
}

#[test]
fn fmtp_and_ptime_attributes() {
    let text = "v=0\no=- 1 1 IN IP4 10.0.0.1\ns=-\nt=0 0\nm=audio 5000 RTP/AVP 101\na=rtpmap:101 telephone-event/8000\na=fmtp:101 0-16\na=recvonly\n";
    let sdp = SessionDescription::parse(text).unwrap();
    let audio = sdp.audio_media().unwrap();
    assert_eq!(audio.media_type, MediaType::Audio);
    let f = audio.fmtps();
    assert_eq!(f.len(), 1);
    assert_eq!(f[0].payload_type, 101);
    assert_eq!(f[0].params, "0-16");
    assert_eq!(audio.direction(), Direction::RecvOnly);
}

#[test]
fn test_build_basic_sdp() {
    let addr = IpAddr::V4([192, 168, 1, 1]);
    let sdp = SdpBuilder::new(addr)
        .session_name("Test Call")
        .add_media(MediaBuilder::audio(49170).pcmu().pcma())
        .build();
    assert_eq!(sdp.version, 0);
    assert_eq!(sdp.session_name, "Test Call");
    let audio = sdp.audio_media().unwrap();
    assert_eq!(audio.port, 49170);
    assert_eq!(audio.formats, vec!["0", "8"]);
}

#[test]
fn test_sdp_to_string() {
    let addr = IpAddr::V4([192, 168, 1, 1]);
    let sdp = SdpBuilder::new(addr)
        .session_id(1234567890)
        .session_version(1)
        .add_media(MediaBuilder::audio(49170).pcmu())
        .build();
    let s = sdp.to_sdp_string();
    assert!(s.contains("v=0"));
    assert!(s.contains("o=- 1234567890 1 IN IP4 192.168.1.1"));
    assert!(s.contains("c=IN IP4 192.168.1.1"));
    assert!(s.contains("m=audio 49170 RTP/AVP 0"));
    assert!(s.contains("a=rtpmap:0 PCMU/8000"));
}

#[test]
fn sdp_text_exact() {
    let sdp = SdpBuilder::new(IpAddr::V4([10, 0, 0, 1]))
        .session_id(7)
        .session_version(2)
        .add_media(MediaBuilder::audio(4000).pcmu().ptime(20))
        .build();
    assert_eq!(
        sdp.to_sdp_string(),
        "v=0\no=- 7 2 IN IP4 10.0.0.1\ns=-\nc=IN IP4 10.0.0.1\nt=0 0\nm=audio 4000 RTP/AVP 0\na=rtpmap:0 PCMU/8000\na=ptime:20\na=sendrecv\n"
    );
}

#[test]
fn builder_test_roundtrip() {
    let addr = IpAddr::V4([10, 0, 0, 1]);
    let sdp = SdpBuilder::new(addr)
        .session_id(999)
        .session_version(1)
        .add_media(MediaBuilder::audio(5000).pcmu().pcma().telephone_event(101))
        .build();
    let sdp_str = sdp.to_sdp_string();
    let parsed = SessionDescription::parse(&sdp_str).unwrap();
    assert_eq!(parsed.version, 0);
    assert_eq!(parsed.origin.session_id, "999");
    let audio = parsed.audio_media().unwrap();
    assert_eq!(audio.port, 5000);
    assert_eq!(audio.formats, vec!["0", "8", "101"]);
}

#[test]
fn written_description_reads_back() {
    let text = "v=0\r\no=alice 123 456 IN IP4 10.0.0.1\r\ns=Talk\r\ni=A call\r\nc=IN IP4 10.0.0.1\r\nt=0 0\r\na=tool:test\r\nm=audio 49170 RTP/AVP 0 101\r\nc=IN IP4 10.0.0.2\r\nb=AS:64\r\na=rtpmap:101 telephone-event/8000\r\na=sendrecv\r\n";
    let first = SessionDescription::parse(text).unwrap();
    let written = first.to_sdp_string();
    let second = SessionDescription::parse(&written).unwrap();
    assert_eq!(second.to_sdp_string(), written);
    assert_eq!(second.session_name, "Talk");
    assert_eq!(second.session_info.as_deref(), Some("A call"));
    assert_eq!(second.origin.username, "alice");
    assert_eq!(second.connection.as_ref().unwrap().address, "10.0.0.1");
    assert_eq!(second.attributes.len(), 1);
    assert_eq!(second.attributes[0].name, "tool");
    assert_eq!(second.media.len(), 1);
    let m = &second.media[0];
    assert_eq!(m.port, 49170);
    assert_eq!(m.formats, vec!["0", "101"]);
    assert_eq!(m.connection.as_ref().unwrap().address, "10.0.0.2");
    assert_eq!(m.bandwidth.len(), 1);
    assert_eq!(m.bandwidth[0].value, 64);
    assert_eq!(m.attributes.len(), 2);
    assert_eq!(m.attributes[1].name, "sendrecv");
    assert!(m.attributes[1].value.is_none());
}

#[test]
fn lines_with_unknown_wide_type_characters_are_ignored() {
    let d = SessionDescription::parse("\u{20ac}=1\nv=0\no=- 0 0 IN IP4 0.0.0.0\ns=-\nt=0 0\n\u{e9}=x\n").unwrap();
    assert_eq!(d.version, 0);
    assert!(d.media.is_empty());
    assert!(d.attributes.is_empty());
    assert_eq!(d.session_name, "-");
}
