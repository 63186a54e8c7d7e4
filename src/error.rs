use vstd::prelude::*;

verus! {

/// Why a dispensation request failed.
#[derive(Debug, Clone, Copy, PartialEq, Eq, Structural)]
pub enum FaucetError {
    /// The recipient address could not be decoded into an account identifier.
    Validation,
    /// The ledger could not be read or written.
    Storage,
    /// The external network could not be reached.
    Connectivity,
    /// The network rejected the transfer before inclusion.
    Submission,
    /// The transfer was included but not finalized.
    Finality,
}

} // verus!
