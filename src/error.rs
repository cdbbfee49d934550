use vstd::prelude::*;

verus! {

/// Failures that the accounting core reports to its caller.
#[derive(Clone, Copy, Debug, PartialEq, Eq, Structural)]
pub enum ErrorCode {
    /// Addition, subtraction or comparison of decimals of different scales.
    DifferentScale,
    /// A price feed was updated too long ago.
    OutdatedOracle,
    /// A synthetic's supply would exceed its cap.
    MaxSupply,
    /// A vault's minted amount would exceed its borrow limit.
    VaultBorrowLimit,
}

} // verus!
