//! Session layer: registration with a registrar, and calls.
pub mod registration;
pub mod call;
pub mod manager;
