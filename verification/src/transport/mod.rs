//! SIP transports: the protocol kinds, message envelopes and stream framing.
pub mod tls;

use crate::net::SocketAddr;
use crate::text::{push_str, string_of};
use vstd::prelude::*;

verus! {

/// Maximum SIP message size over UDP.
pub const MAX_UDP_SIZE: usize = 65535;

/// A message size that fits a common path MTU.
pub const MTU_SAFE_SIZE: usize = 1300;

/// Transport protocol.
#[derive(Debug, Clone, Copy, PartialEq, Eq, Hash, Structural)]
pub enum TransportProtocol {
    /// UDP (unreliable).
    Udp,
    /// TCP (reliable, connection-oriented).
    Tcp,
    /// TLS over TCP (secure, reliable).
    Tls,
}

/// The name of a transport protocol as it appears in a Via header.
pub open spec fn protocol_name(p: TransportProtocol) -> Seq<char> {
    match p {
        TransportProtocol::Udp => "UDP"@,
        TransportProtocol::Tcp => "TCP"@,
        TransportProtocol::Tls => "TLS"@,
    }
}

impl TransportProtocol {
    /// Check if this is a reliable transport.
    pub fn is_reliable(&self) -> (b: bool)
        ensures
            b == (*self == TransportProtocol::Tcp || *self == TransportProtocol::Tls),
    {
        match self {
            TransportProtocol::Udp => false,
            TransportProtocol::Tcp => true,
            TransportProtocol::Tls => true,
        }
    }

    /// Check if this is a secure transport.
    pub fn is_secure(&self) -> (b: bool)
        ensures
            b == (*self == TransportProtocol::Tls),
    {
        match self {
            TransportProtocol::Tls => true,
            _ => false,
        }
    }

    /// Get the default port for this transport: 5061 for TLS, 5060 otherwise.
    pub fn default_port(&self) -> (p: u16)
        ensures
            p == (if *self == TransportProtocol::Tls { 5061u16 } else { 5060u16 }),
    {
        match self {
            TransportProtocol::Udp | TransportProtocol::Tcp => 5060,
            TransportProtocol::Tls => 5061,
        }
    }

    /// The protocol's name.
    pub fn as_str(&self) -> (s: &'static str)
        ensures
            s@ == protocol_name(*self),
    {
        match self {
            TransportProtocol::Udp => "UDP",
            TransportProtocol::Tcp => "TCP",
            TransportProtocol::Tls => "TLS",
        }
    }
}

/// Incoming message with source address.
#[derive(Debug, Clone)]
pub struct IncomingMessage {
    /// Raw message data.
    pub data: Vec<u8>,
    /// Source address.
    pub source: SocketAddr,
    /// Transport protocol.
    pub transport: TransportProtocol,
}

/// Outgoing message with destination address.
#[derive(Debug, Clone)]
pub struct OutgoingMessage {
    /// Raw message data.
    pub data: Vec<u8>,
    /// Destination address.
    pub destination: SocketAddr,
}

impl OutgoingMessage {
    /// Create a new outgoing message.
    pub fn new(data: Vec<u8>, destination: SocketAddr) -> (m: Self)
        ensures
            m.data@ == data@,
            m.destination == destination,
    {
        OutgoingMessage { data, destination }
    }
}

/// Endpoint address (host + port + transport).
#[derive(Debug, Clone, PartialEq, Eq, Hash)]
pub struct TransportAddress {
    /// Socket address.
    pub addr: SocketAddr,
    /// Transport protocol.
    pub transport: TransportProtocol,
}

impl TransportAddress {
    /// Create a new transport address.
    pub fn new(addr: SocketAddr, transport: TransportProtocol) -> (t: Self)
        ensures
            t.addr == addr,
            t.transport == transport,
    {
        TransportAddress { addr, transport }
    }

    /// Create a UDP transport address.
    pub fn udp(addr: SocketAddr) -> (t: Self)
        ensures
            t.addr == addr,
            t.transport == TransportProtocol::Udp,
    {
        Self::new(addr, TransportProtocol::Udp)
    }

    /// The address as `addr:TRANSPORT`.
    pub fn to_text(&self) -> (s: String)
        ensures
            s@ == self.addr.text() + seq![':'] + protocol_name(self.transport),
    {
        let mut v: Vec<char> = Vec::new();
        self.addr.push_text(&mut v);
        v.push(':');
        push_str(&mut v, self.transport.as_str());
        string_of(v.as_slice())
    }
}

} // verus!
