//! Call manager configuration and the RTP port allocation it performs.
use crate::session::call::CallConfig;
use vstd::prelude::*;

verus! {

/// Call manager configuration.
#[derive(Debug)]
pub struct ManagerConfig {
    /// Local SIP address (IP:port).
    pub local_sip_addr: String,
    /// Local RTP address (IP).
    pub local_rtp_addr: String,
    /// RTP port range.
    pub rtp_port_range: (u16, u16),
    /// Default call config.
    pub call_config: CallConfig,
}

impl Clone for ManagerConfig {
    fn clone(&self) -> (c: Self)
        ensures
            c.local_sip_addr@ == self.local_sip_addr@,
            c.local_rtp_addr@ == self.local_rtp_addr@,
            c.rtp_port_range == self.rtp_port_range,
    {
        ManagerConfig {
            local_sip_addr: self.local_sip_addr.clone(),
            local_rtp_addr: self.local_rtp_addr.clone(),
            rtp_port_range: self.rtp_port_range,
            call_config: self.call_config.clone(),
        }
    }
}

impl Default for ManagerConfig {
    fn default() -> (c: Self)
        ensures
            c.local_sip_addr@ == "127.0.0.1:5060"@,
            c.local_rtp_addr@ == "127.0.0.1"@,
            c.rtp_port_range == (10000u16, 20000u16),
            c.call_config.local_uri@ == "sip:user@127.0.0.1"@,
            c.call_config.codecs@.len() == 2,
    {
        ManagerConfig {
            local_sip_addr: "127.0.0.1:5060".to_string(),
            local_rtp_addr: "127.0.0.1".to_string(),
            rtp_port_range: (10000, 20000),
            call_config: CallConfig::default(),
        }
    }
}

/// Allocates the next RTP port from `next`: the port handed out is `next`, and the following
/// one is two above it (RTP on even ports, RTCP on the odd one between), wrapping to the start
/// of the range once it passes the end.
pub fn allocate_rtp_port(next: u16, range: (u16, u16)) -> (r: (u16, u16))
    requires
        next + 2 <= u16::MAX,
    ensures
        r.0 == next,
        r.1 == if next + 2 > range.1 { range.0 } else { (next + 2) as u16 },
{
    let port = next;
    let mut following = next + 2;
    if following > range.1 {
        following = range.0;
    }
    (port, following)
}

} // verus!
