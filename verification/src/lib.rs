//! A fungible-token ledger: account balances, delegated spending allowances,
//! and total supply, mutated by a fixed set of checked state transitions.
//!
//! The ledger is a pure state machine. The hosting environment's concerns —
//! resolving the caller identity and recording notifications — are abstracted:
//! every mutating operation takes the caller as an explicit argument, and each
//! completed transition appends exactly one notification to the ledger's log.

pub mod account;
pub mod errors;
pub mod events;
pub mod ledger;
pub mod store;

pub use account::AccountId;
pub use account::Balance;
pub use errors::Error;
pub use events::Approval;
pub use events::Burn;
pub use events::Create;
pub use events::Event;
pub use events::Issue;
pub use events::Transfer;
pub use events::TransferFrom;
pub use ledger::Erc20;
