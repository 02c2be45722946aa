use rsiprtp::config::{CodecConfig, IdentityConfig, MediaConfig, StackConfig, TimerConfig, TransportConfig};
use rsiprtp::net::{IpAddr, SocketAddr};
use rsiprtp::time::Duration;
use rsiprtp::transaction::timer::{ActiveTimer, Timer, TimerValues};

#[test]
fn test_stack_config_default() {
    let config = StackConfig::default();
    assert_eq!(config.identity.uri, "sip:anonymous@localhost");
    assert!(config.transport.udp_bind.is_some());
    assert_eq!(config.media.rtp_port_range, (10000, 20000));
}

#[test]
fn test_stack_config_clone() {
    let config = StackConfig::default();
    let cloned = config.clone();
    assert_eq!(cloned.identity.uri, config.identity.uri);
}

#[test]
fn test_stack_config_debug() {
    let debug = format!("{:?}", StackConfig::default());
    assert!(debug.contains("StackConfig"));
}

#[test]
fn test_identity_config_default() {
    let config = IdentityConfig::default();
    assert!(config.display_name.is_none());
    assert_eq!(config.uri, "sip:anonymous@localhost");
    assert!(config.auth_username.is_none());
    assert!(config.auth_password.is_none());
    assert!(config.realm.is_none());
}

#[test]
fn test_identity_config_with_values() {
    let config = IdentityConfig {
        display_name: Some("Alice".to_string()),
        uri: "sip:alice@example.com".to_string(),
        auth_username: Some("alice_auth".to_string()),
        auth_password: Some("secret".to_string()),
        realm: Some("example.com".to_string()),
    };
    assert_eq!(config.display_name.as_deref(), Some("Alice"));
    assert_eq!(config.uri, "sip:alice@example.com");
    assert_eq!(config.auth_username.as_deref(), Some("alice_auth"));
    assert_eq!(config.auth_password.as_deref(), Some("secret"));
    assert_eq!(config.realm.as_deref(), Some("example.com"));
}

#[test]
fn test_identity_config_clone() {
    let config = IdentityConfig {
        display_name: Some("Bob".to_string()),
        uri: "sip:bob@test.com".to_string(),
        auth_username: None,
        auth_password: None,
        realm: None,
    };
    let cloned = config.clone();
    assert_eq!(cloned.display_name, config.display_name);
    assert_eq!(cloned.uri, config.uri);
}

#[test]
fn test_transport_config_default() {
    let config = TransportConfig::default();
    assert_eq!(config.udp_bind, Some(SocketAddr::new(IpAddr::V4([0, 0, 0, 0]), 5060)));
    assert!(config.tcp_bind.is_none());
    assert!(config.tls_bind.is_none());
    assert!(config.tls_cert_path.is_none());
    assert!(config.tls_key_path.is_none());
    assert!(config.outbound_proxy.is_none());
}

#[test]
fn test_transport_config_ipv6() {
    let any6 = SocketAddr::new(IpAddr::V6([0; 16]), 5060);
    let config = TransportConfig {
        udp_bind: Some(any6),
        tcp_bind: Some(any6),
        tls_bind: None,
        tls_cert_path: None,
        tls_key_path: None,
        outbound_proxy: None,
    };
    assert!(config.udp_bind.unwrap().is_ipv6());
    assert!(config.tcp_bind.unwrap().is_ipv6());
}

#[test]
fn test_media_config_default() {
    let config = MediaConfig::default();
    assert_eq!(config.rtp_port_range, (10000, 20000));
    assert_eq!(config.codecs.len(), 2);
    assert_eq!(config.codecs[0].name, "PCMU");
    assert_eq!(config.codecs[1].name, "PCMA");
    assert_eq!(config.jitter_buffer_ms, 60);
    assert_eq!(config.ptime_ms, 20);
}

#[test]
fn test_media_config_custom_port_range() {
    let config = MediaConfig {
        rtp_port_range: (16384, 32767),
        codecs: vec![CodecConfig::opus()],
        jitter_buffer_ms: 100,
        ptime_ms: 40,
    };
    assert_eq!(config.rtp_port_range.0, 16384);
    assert_eq!(config.rtp_port_range.1, 32767);
    assert_eq!(config.codecs.len(), 1);
    assert_eq!(config.jitter_buffer_ms, 100);
    assert_eq!(config.ptime_ms, 40);
}

#[test]
fn test_codec_pcmu() {
    let codec = CodecConfig::pcmu();
    assert_eq!(codec.name, "PCMU");
    assert_eq!(codec.payload_type, 0);
    assert_eq!(codec.clock_rate, 8000);
    assert_eq!(codec.channels, 1);
    assert!(codec.fmtp.is_none());
}

#[test]
fn test_codec_pcma() {
    let codec = CodecConfig::pcma();
    assert_eq!(codec.name, "PCMA");
    assert_eq!(codec.payload_type, 8);
    assert_eq!(codec.clock_rate, 8000);
    assert_eq!(codec.channels, 1);
    assert!(codec.fmtp.is_none());
}

#[test]
fn test_codec_g722() {
    let codec = CodecConfig::g722();
    assert_eq!(codec.name, "G722");
    assert_eq!(codec.payload_type, 9);
    assert_eq!(codec.clock_rate, 8000);
    assert_eq!(codec.channels, 1);
    assert!(codec.fmtp.is_none());
}

#[test]
fn test_codec_opus() {
    let codec = CodecConfig::opus();
    assert_eq!(codec.name, "opus");
    assert_eq!(codec.payload_type, 111);
    assert_eq!(codec.clock_rate, 48000);
    assert_eq!(codec.channels, 2);
    assert!(codec.fmtp.is_some());
    assert!(codec.fmtp.as_ref().unwrap().contains("useinbandfec"));
}

#[test]
fn test_codec_telephone_event() {
    let codec = CodecConfig::telephone_event();
    assert_eq!(codec.name, "telephone-event");
    assert_eq!(codec.payload_type, 101);
    assert_eq!(codec.clock_rate, 8000);
    assert_eq!(codec.channels, 1);
    assert_eq!(codec.fmtp.as_deref(), Some("0-16"));
}

#[test]
fn test_codec_custom() {
    let codec = CodecConfig {
        name: "AMR".to_string(),
        payload_type: 96,
        clock_rate: 8000,
        channels: 1,
        fmtp: Some("octet-align=1".to_string()),
    };
    assert_eq!(codec.name, "AMR");
    assert_eq!(codec.payload_type, 96);
    assert_eq!(codec.fmtp.as_deref(), Some("octet-align=1"));
}

#[test]
fn test_timer_config_default() {
    let config = TimerConfig::default();
    assert_eq!(config.t1_ms, 500);
    assert_eq!(config.t2_ms, 4000);
    assert_eq!(config.t4_ms, 5000);
}

#[test]
fn config_test_timer_b() {
    assert_eq!(TimerConfig::default().timer_b_ms(), 64 * 500);
}

#[test]
fn config_test_timer_f() {
    assert_eq!(TimerConfig::default().timer_f_ms(), 64 * 500);
}

#[test]
fn test_timer_d() {
    assert_eq!(TimerConfig::default().timer_d_ms(), 32000);
}

#[test]
fn test_timer_h() {
    assert_eq!(TimerConfig::default().timer_h_ms(), 64 * 500);
}

#[test]
fn test_timer_config_custom_t1() {
    let config = TimerConfig { t1_ms: 250, t2_ms: 2000, t4_ms: 2500 };
    assert_eq!(config.timer_b_ms(), 64 * 250);
    assert_eq!(config.timer_f_ms(), 64 * 250);
    assert_eq!(config.timer_h_ms(), 64 * 250);
    assert_eq!(config.timer_d_ms(), 32000);
}

#[test]
fn test_timer_config_copy() {
    let config = TimerConfig::default();
    let copied = config;
    assert_eq!(copied.t1_ms, config.t1_ms);
}

#[test]
fn test_codec_config_clone() {
    let codec = CodecConfig::opus();
    let cloned = codec.clone();
    assert_eq!(cloned.name, codec.name);
    assert_eq!(cloned.payload_type, codec.payload_type);
    assert_eq!(cloned.fmtp, codec.fmtp);
}

#[test]
fn test_media_config_empty_codecs() {
    let config = MediaConfig { rtp_port_range: (10000, 20000), codecs: vec![], jitter_buffer_ms: 60, ptime_ms: 20 };
    assert!(config.codecs.is_empty());
}

#[test]
fn test_default_timers() {
    let tv = TimerValues::default();
    assert_eq!(tv.t1, Duration::from_millis(500));
    assert_eq!(tv.t2, Duration::from_secs(4));
    assert_eq!(tv.t4, Duration::from_secs(5));
}

#[test]
fn timer_test_timer_b() {
    assert_eq!(TimerValues::default().timer_b(), Duration::from_secs(32));
}

#[test]
fn timer_test_timer_f() {
    assert_eq!(TimerValues::default().timer_f(), Duration::from_secs(32));
}

#[test]
fn test_retransmit_backoff() {
    let tv = TimerValues::default();
    let t1 = tv.t1;
    let t2 = tv.next_retransmit(t1);
    assert_eq!(t2, Duration::from_millis(1000));
    let t3 = tv.next_retransmit(t2);
    assert_eq!(t3, Duration::from_millis(2000));
    let t4 = tv.next_retransmit(t3);
    assert_eq!(t4, Duration::from_millis(4000));
    let t5 = tv.next_retransmit(t4);
    assert_eq!(t5, Duration::from_millis(4000));
}

#[test]
fn test_timer_k_reliable() {
    let tv = TimerValues::default();
    assert_eq!(tv.timer_k(true), Duration::zero());
    assert_eq!(tv.timer_k(false), Duration::from_secs(5));
}

#[test]
fn other_timers_exact() {
    let tv = TimerValues::with_t1(100);
    assert_eq!(tv.timer_a(), Duration::from_millis(100));
    assert_eq!(tv.timer_b(), Duration::from_millis(6400));
    assert_eq!(tv.timer_d(), Duration::from_secs(33));
    assert_eq!(tv.timer_j(true), Duration::zero());
    assert_eq!(tv.timer_j(false), Duration::from_millis(6400));
    assert_eq!(tv.timer_i(), Duration::from_secs(5));
    assert_eq!(Timer::B.as_str(), "Timer B");
    let t = ActiveTimer::new(Timer::F, 1000);
    assert!(!t.is_expired(999));
    assert!(t.is_expired(1000));
}

#[test]
fn test_transport_config_with_all_transports() {
    let config = TransportConfig {
        udp_bind: Some(SocketAddr::new(IpAddr::V4([0, 0, 0, 0]), 5060)),
        tcp_bind: Some(SocketAddr::new(IpAddr::V4([0, 0, 0, 0]), 5060)),
        tls_bind: Some(SocketAddr::new(IpAddr::V4([0, 0, 0, 0]), 5061)),
        tls_cert_path: Some(std::path::PathBuf::from("/etc/ssl/cert.pem")),
        tls_key_path: Some(std::path::PathBuf::from("/etc/ssl/key.pem")),
        outbound_proxy: Some("sip:proxy.example.com".to_string()),
    };
    assert!(config.udp_bind.is_some());
    assert!(config.tcp_bind.is_some());
    assert!(config.tls_bind.is_some());
    assert_eq!(config.tls_cert_path.as_ref().unwrap().to_str().unwrap(), "/etc/ssl/cert.pem");
    assert_eq!(config.outbound_proxy.as_deref(), Some("sip:proxy.example.com"));
}
