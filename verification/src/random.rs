//! Random numbers from the thread-local generator of the `rand` crate.
use vstd::prelude::*;

verus! {

/// A random `u16` from `rand::random`; any value may come back.
#[verifier::external_body]
pub(crate) fn random_u16() -> u16 {
    rand::random::<u16>()
}

/// A random `u32` from `rand::random`; any value may come back.
#[verifier::external_body]
pub(crate) fn random_u32() -> u32 {
    rand::random::<u32>()
}

/// A random `u64` from `rand::random`; any value may come back.
#[verifier::external_body]
pub(crate) fn random_u64() -> u64 {
    rand::random::<u64>()
}

/// Sixteen random bytes from `rand::random`; any value may come back.
#[verifier::external_body]
pub(crate) fn random_bytes16() -> [u8; 16] {
    rand::random::<[u8; 16]>()
}

/// Twelve random bytes from `rand::random`; any value may come back.
#[verifier::external_body]
pub(crate) fn random_bytes12() -> [u8; 12] {
    rand::random::<[u8; 12]>()
}

} // verus!
