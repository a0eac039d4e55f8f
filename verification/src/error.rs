use vstd::prelude::*;

verus! {

/// Why an operation was refused. A refused operation leaves every account as
/// it was before the call.
#[derive(Clone, Copy, Debug, PartialEq, Eq, Structural)]
pub enum CustodyError {
    /// A record or account already stands at the derived address.
    AlreadyInitialized,
    /// No record or account stands where the operation looked for one.
    NotFound,
    /// The caller is not the recorded owner or maker, or the authority shown
    /// does not control the account to be debited.
    Unauthorized,
    /// The account to be debited holds less than the operation needs.
    InsufficientBalance,
    /// The amount is zero, cannot be credited without overflow, or the
    /// transfer would move value from an account to itself.
    InvalidAmount,
    /// No bump in the scanned range yields a valid derived address.
    DerivationExhausted,
    /// An account is not in the state the operation requires: it is to be
    /// closed while it still holds a balance.
    StaleState,
}

} // verus!
