//! A fungible-unit ledger: balances, allowances, an administrator, a halt
//! switch and per-account restrictions, with every operation verified to
//! keep the total supply equal to the sum of all balances.
mod account;
mod error;
mod event;
mod store;
mod ledger;

pub use account::AccountId;
pub use error::Error;
pub use event::{Approval, BlacklistUpdated, Burn, Event, Mint, Paused, Transfer};
pub use ledger::{approve_replaces, balance_within_supply, self_transfer_fails, supply_is_sum_of_balances, Token};
