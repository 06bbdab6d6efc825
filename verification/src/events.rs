//! What a successful operation reports to the outside world.

use ink_env::AccountId;
use vstd::prelude::*;

verus! {

/// `owner` allowed `spender` to spend up to `amount` on its behalf.
#[derive(Clone, Copy, Debug, PartialEq, Eq)]
pub struct Approval {
    pub owner: AccountId,
    pub spender: AccountId,
    pub amount: u128,
}

/// `amount` moved from `from` to `to`.
#[derive(Clone, Copy, Debug, PartialEq, Eq)]
pub struct Transfer {
    pub from: AccountId,
    pub to: AccountId,
    pub amount: u128,
}

/// `amount` was issued. `from` and `to` are both the account that minted.
#[derive(Clone, Copy, Debug, PartialEq, Eq)]
pub struct Minted {
    pub from: AccountId,
    pub to: AccountId,
    pub amount: u128,
}

/// `amount` was retired. `from` and `to` are both the account that redeemed.
#[derive(Clone, Copy, Debug, PartialEq, Eq)]
pub struct Redeemed {
    pub from: AccountId,
    pub to: AccountId,
    pub amount: u128,
}

} // verus!
