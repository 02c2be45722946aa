//! Client transactions: INVITE and non-INVITE.
pub mod invite;
pub mod non_invite;
