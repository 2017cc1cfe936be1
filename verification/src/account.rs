//! Account identities and token amounts.

use vstd::prelude::*;

verus! {

/// A token amount. Wide enough that supply-bounded arithmetic cannot
/// overflow in practice; every operation still checks its bounds.
pub type Balance = u128;

/// An opaque, fixed-width account identifier. It carries no structure the
/// ledger reads: it is only compared for equality and used as a map key.
#[derive(Clone, Copy, Debug, Hash, PartialEq, Eq, Structural)]
pub struct AccountId {
    pub id: u128,
}

} // verus!
