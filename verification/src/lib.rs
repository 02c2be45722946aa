//! A SIP/RTP communications stack whose protocol logic is specified and proved with Verus.

pub mod config;
pub mod dialog;
pub mod error;
pub mod ice;
pub mod media;
pub mod net;
mod random;
pub mod rtp;
pub mod sdp;
pub mod session;
pub mod sip;
pub mod text;
pub mod time;
pub mod transaction;
pub mod transport;
pub mod wire;
