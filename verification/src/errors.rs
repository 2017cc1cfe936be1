//! The ledger's failure taxonomy. Every failure is recoverable by the
//! caller and leaves the ledger unchanged.

use vstd::prelude::*;

verus! {

/// Why a mutating operation was refused.
#[derive(Clone, Copy, Debug, PartialEq, Eq, Structural)]
pub enum Error {
    /// The acting account's spendable balance is less than the requested amount.
    InsufficentBalance,
    /// The spender's allowance over the owner's funds is less than the requested amount.
    InsufficentAllowance,
    /// The caller attempting to mint is not the account that created the ledger.
    NotIssuer,
}

} // verus!
