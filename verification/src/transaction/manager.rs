//! Handles and kinds of the transactions that a manager tracks.
use vstd::prelude::*;

verus! {

/// A handle to a transaction in the manager.
#[derive(Debug, Clone, Copy, PartialEq, Eq, Hash, Structural)]
pub struct TransactionHandle(pub u64);

/// Type of transaction.
#[derive(Debug, Clone, Copy, PartialEq, Eq, Structural)]
pub enum TransactionType {
    InviteClient,
    NonInviteClient,
    InviteServer,
    NonInviteServer,
}

impl TransactionType {
    /// Whether the transaction is a client transaction.
    pub fn is_client(&self) -> (b: bool)
        ensures
            b == (*self == TransactionType::InviteClient || *self == TransactionType::NonInviteClient),
    {
        match self {
            TransactionType::InviteClient | TransactionType::NonInviteClient => true,
            _ => false,
        }
    }
}

/// Hands out transaction handles in order, starting from 1.
pub fn alloc_handle(next: &mut u64) -> (h: TransactionHandle)
    requires
        *old(next) < u64::MAX,
    ensures
        h.0 == *old(next),
        *final(next) == *old(next) + 1,
{
    let h = TransactionHandle(*next);
    *next = *next + 1;
    h
}

} // verus!
