use vstd::prelude::*;

verus! {

/// Why a settlement operation was refused. Every validation failure aborts the
/// whole operation before any state mutation, so an error always leaves the
/// affected records exactly as they were.
#[derive(Clone, Copy, Debug, PartialEq, Eq, Structural)]
pub enum SettlementError {
    /// The required signer is missing, or the caller is not entitled to act on
    /// the record (wrong employer, unknown borrower or employee).
    AuthorizationError,
    /// A declared account address differs from its canonical derivation.
    AddressMismatch,
    /// The bounded borrower or employee list is already full.
    CapacityExceeded,
    /// A salary claim was already registered in the current time unit.
    AlreadyClaimedThisPeriod,
    /// A stored record or an instruction payload does not decode.
    DeserializationError,
    /// A callback arrived without the expected computation output.
    ComputationOutputMissing,
}

} // verus!
