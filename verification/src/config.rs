//! Configuration types for the stack.

use crate::net::{IpAddr, SocketAddr};
use vstd::prelude::*;

verus! {

/// A filesystem path, held as it was written in the configuration.
#[verifier::external_type_specification]
#[verifier::external_body]
pub struct ExPathBuf(std::path::PathBuf);

/// Main configuration for the SIP/RTP stack.
#[derive(Debug, Clone)]
pub struct StackConfig {
    /// Identity configuration (who we are).
    pub identity: IdentityConfig,
    /// Transport configuration (how we communicate).
    pub transport: TransportConfig,
    /// Media configuration (audio settings).
    pub media: MediaConfig,
}

impl Default for StackConfig {
    fn default() -> (c: Self)
        ensures
            c.identity.is_default(),
            c.transport.is_default(),
            c.media.is_default(),
    {
        StackConfig {
            identity: IdentityConfig::default(),
            transport: TransportConfig::default(),
            media: MediaConfig::default(),
        }
    }
}

/// Identity configuration.
#[derive(Debug, Clone)]
pub struct IdentityConfig {
    /// Display name shown to other parties.
    pub display_name: Option<String>,
    /// SIP URI (e.g., "sip:alice@example.com").
    pub uri: String,
    /// Authentication username (if different from URI user).
    pub auth_username: Option<String>,
    /// Authentication password.
    pub auth_password: Option<String>,
    /// Realm for authentication (usually domain).
    pub realm: Option<String>,
}

impl IdentityConfig {
    /// The anonymous identity used when nothing is configured.
    pub open spec fn is_default(&self) -> bool {
        &&& self.display_name is None
        &&& self.uri@ == "sip:anonymous@localhost"@
        &&& self.auth_username is None
        &&& self.auth_password is None
        &&& self.realm is None
    }
}

impl Default for IdentityConfig {
    fn default() -> (c: Self)
        ensures
            c.is_default(),
    {
        IdentityConfig {
            display_name: None,
            uri: "sip:anonymous@localhost".to_string(),
            auth_username: None,
            auth_password: None,
            realm: None,
        }
    }
}

/// Transport configuration.
#[derive(Debug, Clone)]
pub struct TransportConfig {
    /// UDP bind address (None to disable UDP).
    pub udp_bind: Option<SocketAddr>,
    /// TCP bind address (None to disable TCP).
    pub tcp_bind: Option<SocketAddr>,
    /// TLS bind address (None to disable TLS).
    pub tls_bind: Option<SocketAddr>,
    /// TLS certificate file path.
    pub tls_cert_path: Option<std::path::PathBuf>,
    /// TLS private key file path.
    pub tls_key_path: Option<std::path::PathBuf>,
    /// Outbound proxy URI (optional).
    pub outbound_proxy: Option<String>,
}

impl TransportConfig {
    /// UDP on every IPv4 interface at port 5060, everything else off.
    pub open spec fn is_default(&self) -> bool {
        &&& self.udp_bind == Some(SocketAddr { ip: IpAddr::V4([0u8, 0u8, 0u8, 0u8]), port: 5060u16 })
        &&& self.tcp_bind is None
        &&& self.tls_bind is None
        &&& self.tls_cert_path is None
        &&& self.tls_key_path is None
        &&& self.outbound_proxy is None
    }
}

impl Default for TransportConfig {
    fn default() -> (c: Self)
        ensures
            c.is_default(),
    {
        TransportConfig {
            udp_bind: Some(SocketAddr { ip: IpAddr::V4([0u8, 0u8, 0u8, 0u8]), port: 5060 }),
            tcp_bind: None,
            tls_bind: None,
            tls_cert_path: None,
            tls_key_path: None,
            outbound_proxy: None,
        }
    }
}

/// Media configuration.
#[derive(Debug)]
pub struct MediaConfig {
    /// RTP port range (start, end).
    pub rtp_port_range: (u16, u16),
    /// Enabled codecs in priority order.
    pub codecs: Vec<CodecConfig>,
    /// Jitter buffer size in milliseconds.
    pub jitter_buffer_ms: u32,
    /// Packet time (ptime) in milliseconds.
    pub ptime_ms: u32,
}

impl MediaConfig {
    /// Ports 10000..20000, PCMU then PCMA, a 60 ms jitter buffer and 20 ms packets.
    pub open spec fn is_default(&self) -> bool {
        &&& self.rtp_port_range == (10000u16, 20000u16)
        &&& self.codecs@.len() == 2
        &&& self.codecs@[0].is_pcmu()
        &&& self.codecs@[1].is_pcma()
        &&& self.jitter_buffer_ms == 60
        &&& self.ptime_ms == 20
    }
}

impl Clone for MediaConfig {
    fn clone(&self) -> (c: Self)
        ensures
            c.rtp_port_range == self.rtp_port_range,
            c.jitter_buffer_ms == self.jitter_buffer_ms,
            c.ptime_ms == self.ptime_ms,
            c.codecs@.len() == self.codecs@.len(),
    {
        MediaConfig {
            rtp_port_range: self.rtp_port_range,
            codecs: self.codecs.clone(),
            jitter_buffer_ms: self.jitter_buffer_ms,
            ptime_ms: self.ptime_ms,
        }
    }
}

impl Default for MediaConfig {
    fn default() -> (c: Self)
        ensures
            c.is_default(),
    {
        let mut codecs: Vec<CodecConfig> = Vec::new();
        codecs.push(CodecConfig::pcmu());
        codecs.push(CodecConfig::pcma());
        MediaConfig { rtp_port_range: (10000, 20000), codecs, jitter_buffer_ms: 60, ptime_ms: 20 }
    }
}

/// Codec configuration.
#[derive(Debug, Clone)]
pub struct CodecConfig {
    /// Codec name (e.g., "PCMU", "PCMA", "opus").
    pub name: String,
    /// RTP payload type (0-127).
    pub payload_type: u8,
    /// Clock rate in Hz.
    pub clock_rate: u32,
    /// Number of channels.
    pub channels: u8,
    /// Format-specific parameters (fmtp).
    pub fmtp: Option<String>,
}

impl CodecConfig {
    /// The configuration that `pcmu` returns.
    pub open spec fn is_pcmu(&self) -> bool {
        &&& self.name@ == "PCMU"@
        &&& self.payload_type == 0
        &&& self.clock_rate == 8000
        &&& self.channels == 1
        &&& self.fmtp is None
    }

    /// The configuration that `pcma` returns.
    pub open spec fn is_pcma(&self) -> bool {
        &&& self.name@ == "PCMA"@
        &&& self.payload_type == 8
        &&& self.clock_rate == 8000
        &&& self.channels == 1
        &&& self.fmtp is None
    }

    /// Create G.711 mu-law (PCMU) codec configuration.
    pub fn pcmu() -> (c: Self)
        ensures
            c.is_pcmu(),
    {
        CodecConfig { name: "PCMU".to_string(), payload_type: 0, clock_rate: 8000, channels: 1, fmtp: None }
    }

    /// Create G.711 A-law (PCMA) codec configuration.
    pub fn pcma() -> (c: Self)
        ensures
            c.is_pcma(),
    {
        CodecConfig { name: "PCMA".to_string(), payload_type: 8, clock_rate: 8000, channels: 1, fmtp: None }
    }

    /// Create G.722 wideband codec configuration.
    ///
    /// The RTP clock rate is 8000 even though the codec samples at 16 kHz.
    pub fn g722() -> (c: Self)
        ensures
            c.name@ == "G722"@,
            c.payload_type == 9,
            c.clock_rate == 8000,
            c.channels == 1,
            c.fmtp is None,
    {
        CodecConfig { name: "G722".to_string(), payload_type: 9, clock_rate: 8000, channels: 1, fmtp: None }
    }

    /// Create Opus codec configuration (dynamic payload type 111).
    pub fn opus() -> (c: Self)
        ensures
            c.name@ == "opus"@,
            c.payload_type == 111,
            c.clock_rate == 48000,
            c.channels == 2,
            c.fmtp matches Some(f) && f@ == "minptime=10;useinbandfec=1"@,
    {
        CodecConfig {
            name: "opus".to_string(),
            payload_type: 111,
            clock_rate: 48000,
            channels: 2,
            fmtp: Some("minptime=10;useinbandfec=1".to_string()),
        }
    }

    /// Create telephone-event (DTMF) payload configuration (payload type 101).
    pub fn telephone_event() -> (c: Self)
        ensures
            c.name@ == "telephone-event"@,
            c.payload_type == 101,
            c.clock_rate == 8000,
            c.channels == 1,
            c.fmtp matches Some(f) && f@ == "0-16"@,
    {
        CodecConfig {
            name: "telephone-event".to_string(),
            payload_type: 101,
            clock_rate: 8000,
            channels: 1,
            fmtp: Some("0-16".to_string()),
        }
    }
}

/// SIP timer configuration (RFC 3261), in milliseconds.
#[derive(Debug, Clone, Copy)]
pub struct TimerConfig {
    /// T1: RTT estimate (default 500ms).
    pub t1_ms: u32,
    /// T2: Maximum retransmit interval (default 4000ms).
    pub t2_ms: u32,
    /// T4: Maximum network transit time (default 5000ms).
    pub t4_ms: u32,
}

impl Default for TimerConfig {
    fn default() -> (c: Self)
        ensures
            c.t1_ms == 500,
            c.t2_ms == 4000,
            c.t4_ms == 5000,
    {
        TimerConfig { t1_ms: 500, t2_ms: 4000, t4_ms: 5000 }
    }
}

impl TimerConfig {
    /// Timer B: INVITE transaction timeout (64 * T1).
    pub fn timer_b_ms(&self) -> (ms: u32)
        requires
            64 * self.t1_ms <= u32::MAX,
        ensures
            ms == 64 * self.t1_ms,
    {
        64 * self.t1_ms
    }

    /// Timer F: Non-INVITE transaction timeout (64 * T1).
    pub fn timer_f_ms(&self) -> (ms: u32)
        requires
            64 * self.t1_ms <= u32::MAX,
        ensures
            ms == 64 * self.t1_ms,
    {
        64 * self.t1_ms
    }

    /// Timer D: Wait time in Completed state for unreliable transport (32 s, whatever T1 is).
    pub fn timer_d_ms(&self) -> (ms: u32)
        ensures
            ms == 32000,
    {
        32000
    }

    /// Timer H: Wait for ACK timeout (64 * T1).
    pub fn timer_h_ms(&self) -> (ms: u32)
        requires
            64 * self.t1_ms <= u32::MAX,
        ensures
            ms == 64 * self.t1_ms,
    {
        64 * self.t1_ms
    }
}

} // verus!
