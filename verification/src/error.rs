//! The ways in which a ledger operation fails.

use vstd::prelude::*;

verus! {

/// Why an operation was rejected. A rejected operation leaves the ledger
/// exactly as it was.
#[derive(Clone, Copy, Debug, PartialEq, Eq, Structural)]
pub enum Error {
    /// The account to debit holds less than the requested amount.
    InsufficientBalance,
    /// The spender's remaining allowance is less than the requested amount.
    InsufficientAllowance,
    /// The pool holds less collateral than the redemption would release.
    InsufficientCollateral,
    /// The pool would still be empty after the deposit that backs a mint.
    CollateralPoolEmpty,
    /// A sum would exceed the range of a 128-bit amount.
    Overflow,
}

} // verus!
