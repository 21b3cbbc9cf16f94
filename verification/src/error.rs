use vstd::prelude::*;

verus! {

/// Everything that can go wrong in a single governance operation. Every
/// failure is terminal for that invocation and leaves the record store
/// untouched: the contracts of the operations say exactly which inputs
/// produce which variant.
#[derive(Clone, Copy, PartialEq, Eq, Structural, Debug)]
pub enum GovernanceError {
    /// A zero or otherwise invalid token quantity was requested.
    InvalidAmount,
    /// Crediting the deposit would push the balance past its numeric range.
    Overflow,
    /// The requested withdrawal exceeds the record's current balance.
    InsufficientBalance,
    /// The signers lack the authority the requested mutation demands.
    Unauthorized,
    /// The governing token mint is not recognized under the realm's policy.
    InvalidRealmConfig,
    /// The operation targets a triple with no record (or no stake) where one
    /// is required.
    RecordNotFound,
    /// Withdrawal is blocked by unresolved votes cast with this weight.
    VotesOutstanding,
    /// The external custody movement did not complete.
    TransferFailed,
    /// The vote-hold check could not be completed.
    OracleUnavailable,
}

} // verus!
