use vstd::prelude::*;
use crate::account::AccountId;

verus! {

/// Units were created and credited to `to`.
#[derive(Clone, Copy, Debug, PartialEq, Eq, Structural)]
pub struct Mint {
    pub to: AccountId,
    pub amount: u128,
}

/// Units moved from `from` to `to`.
#[derive(Clone, Copy, Debug, PartialEq, Eq, Structural)]
pub struct Transfer {
    pub from: AccountId,
    pub to: AccountId,
    pub amount: u128,
}

/// Units were destroyed out of `from`.
#[derive(Clone, Copy, Debug, PartialEq, Eq, Structural)]
pub struct Burn {
    pub from: AccountId,
    pub amount: u128,
}

/// `owner` set what `spender` may move on its behalf.
#[derive(Clone, Copy, Debug, PartialEq, Eq, Structural)]
pub struct Approval {
    pub owner: AccountId,
    pub spender: AccountId,
    pub amount: u128,
}

/// The halt switch was set or cleared.
#[derive(Clone, Copy, Debug, PartialEq, Eq, Structural)]
pub struct Paused {
    pub is_paused: bool,
}

/// An account's restriction flag was set or cleared.
#[derive(Clone, Copy, Debug, PartialEq, Eq, Structural)]
pub struct BlacklistUpdated {
    pub account: AccountId,
    pub is_blacklisted: bool,
}

/// A notification record, handed to the host after a successful operation.
#[derive(Clone, Copy, Debug, PartialEq, Eq, Structural)]
pub enum Event {
    Mint(Mint),
    Transfer(Transfer),
    Burn(Burn),
    Approval(Approval),
    Paused(Paused),
    BlacklistUpdated(BlacklistUpdated),
}

} // verus!
