use vstd::prelude::*;

verus! {

/// Why an entry point refused to act. A refused call changes no state.
#[derive(Debug, PartialEq, Eq, Structural, Clone, Copy)]
pub enum DonationError {
    /// A donor's first deposit does not exceed the reservation fee.
    ValidationError,
    /// The caller is not allowed to perform the action.
    AccessDenied,
    /// The ledger holds no more than the reservation fee.
    InsufficientFunds,
    /// The registry query behind a callback failed or timed out.
    ExternalQueryError,
    /// The callback names no outstanding registry query.
    UnknownRequest,
    /// The donation would push the ledger total past `u128::MAX`.
    AmountOverflow,
    /// A payout is still waiting for its transfer to be confirmed.
    WithdrawalPending,
    /// The host reported that the payout transfer failed.
    TransferFailed,
    /// Every ledger generation or every query identifier has been used.
    CounterExhausted,
}

} // verus!
