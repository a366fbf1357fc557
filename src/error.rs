use vstd::prelude::*;

verus! {

/// Why an operation on the ledger was refused.
#[derive(Clone, Copy, Debug, PartialEq, Eq, Structural)]
pub enum Error {
    InsufficientBalance,
    Unauthorized,
    SelfTransfer,
    InsufficientAllowance,
    ContractPaused,
    Blacklisted,
    BatchLengthMismatch,
    Overflow,
}

} // verus!
