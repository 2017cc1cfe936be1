//! Notifications. Each completed state transition produces exactly one of
//! these records; the ledger appends it to its notification log, from which
//! the hosting environment delivers it to external observers.

use crate::account::AccountId;
use crate::account::Balance;
use vstd::prelude::*;

verus! {

/// The ledger was created with `total_supply` tokens, all held by `from`.
#[derive(Clone, Copy, Debug, PartialEq, Eq, Structural)]
pub struct Create {
    pub from: AccountId,
    pub total_supply: Balance,
}

/// `value` tokens moved from `from`'s balance to `to`'s balance.
#[derive(Clone, Copy, Debug, PartialEq, Eq, Structural)]
pub struct Transfer {
    pub from: AccountId,
    pub to: AccountId,
    pub value: Balance,
}

/// `owner` reserved `value` tokens out of their balance for `spender` to draw.
#[derive(Clone, Copy, Debug, PartialEq, Eq, Structural)]
pub struct Approval {
    pub owner: AccountId,
    pub spender: AccountId,
    pub value: Balance,
}

/// Spender `from` drew `value` tokens from `owner`'s allowance into `to`'s balance.
#[derive(Clone, Copy, Debug, PartialEq, Eq, Structural)]
pub struct TransferFrom {
    pub from: AccountId,
    pub owner: AccountId,
    pub to: AccountId,
    pub value: Balance,
}

/// `value` tokens were destroyed out of `from`'s balance.
#[derive(Clone, Copy, Debug, PartialEq, Eq, Structural)]
pub struct Burn {
    pub from: AccountId,
    pub value: Balance,
}

/// The issuer minted `value` new tokens into their own balance.
#[derive(Clone, Copy, Debug, PartialEq, Eq, Structural)]
pub struct Issue {
    pub issuer: AccountId,
    pub value: Balance,
}

/// One entry of the notification log.
#[derive(Clone, Copy, Debug, PartialEq, Eq, Structural)]
pub enum Event {
    Create(Create),
    Transfer(Transfer),
    Approval(Approval),
    TransferFrom(TransferFrom),
    Burn(Burn),
    Issue(Issue),
}

} // verus!
