use vstd::prelude::*;

verus! {

/// Errors reported by the account-state layer.
///
/// Corruption of a record is reported as `InvalidAccountData`; capacity and
/// index errors (`InvalidOrderIndex`, `OrderNotFound`, `UserAccountFull`) are
/// recoverable by the caller and never leave a buffer half-mutated; the
/// fee-tier resolver reports `OwnerMismatch` and `UnrecognizedMint` for a
/// discount-token account that does not belong to the caller or is not one of
/// the recognized mints.
#[derive(Clone, Copy, Debug, PartialEq, Eq, Structural)]
pub enum DexError {
    /// The record is malformed or its tag does not match the expected shape.
    InvalidAccountData,
    /// An order index at or beyond the account's number of orders.
    InvalidOrderIndex,
    /// The order id is not present in the account's order list.
    OrderNotFound,
    /// The order slab has no room for one more order reference.
    UserAccountFull,
    /// The discount-token account is not owned by the expected wallet.
    OwnerMismatch,
    /// The discount-token account's mint is not a recognized discount mint.
    UnrecognizedMint,
}

} // verus!
