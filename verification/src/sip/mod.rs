//! SIP: digest authentication.
pub mod auth;
pub mod message;
