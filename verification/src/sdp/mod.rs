//! SDP (RFC 4566): parsing and building session descriptions.
pub mod builder;
pub mod parser;
pub mod roundtrip;
