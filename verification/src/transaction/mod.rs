//! RFC 3261 SIP transaction layer: timers, client transactions and their manager.

pub mod timer;
pub mod client;
pub mod manager;
