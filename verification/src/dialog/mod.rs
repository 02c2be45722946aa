//! SIP dialogs (RFC 3261 Section 12).
pub mod invite;
pub mod manager;
pub mod state;
