//! The error taxonomy of the ledger.

use vstd::prelude::*;

verus! {

/// Why an operation was refused. Every failing operation returns one of
/// these and leaves the ledger state exactly as it was before the call.
#[derive(Clone, Copy, Debug, PartialEq, Eq, Structural)]
pub enum Error {
    /// The caller lacks the required privilege (admin-only operation).
    NotAuthorized,
    /// The zero identity was supplied where a real identity is required.
    InvalidIdentity,
    /// A registration was attempted for an identity that is still active.
    AlreadyActive,
    /// The registry holds no active entry for the identity.
    NotFound,
    /// The operation requires the caller or target to be an active shelter.
    ShelterInactive,
    /// A zero donation amount was supplied.
    InvalidAmount,
    /// A pooled donation found no active shelter to distribute to.
    NoActiveShelters,
    /// A withdrawal found a zero balance.
    NothingToWithdraw,
    /// Crediting the amount would exceed the representable range.
    Overflow,
    /// The host refused the outbound value transfer; the enclosing
    /// operation is rolled back by the host. The ledger itself never
    /// produces this value; the boundary does, on a failed transfer.
    TransferFailed,
}

} // verus!
