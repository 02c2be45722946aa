//! RTP and RTCP.
pub mod packet;
pub mod rtcp;
pub mod session;
