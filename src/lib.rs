//! A fixed-supply fungible-token ledger with balances, allowances and an
//! event log, verified with Verus.
pub mod account;
pub mod table;

pub use account::{AccountId, Balance};
pub mod ledger;

pub use ledger::{Approval, Event, Psp20, Transfer};
