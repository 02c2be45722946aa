//! ICE (RFC 8445): candidates, STUN, and the agent.
pub mod agent;
pub mod candidate;
pub mod stun;
