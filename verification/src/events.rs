//! What the ledger tells its observers after a change.

use vstd::prelude::*;
use crate::account::AccountId;

verus! {

/// Shares moved from one account to another. `None` stands for no account:
/// shares that were made, or shares that were destroyed.
#[derive(Debug, Clone, Copy, PartialEq, Eq)]
pub struct Transfer {
    pub from: Option<AccountId>,
    pub to: Option<AccountId>,
    pub value: u128,
}

/// `owner` lets `spender` move up to `value` of the owner's shares.
#[derive(Debug, Clone, Copy, PartialEq, Eq)]
pub struct Approval {
    pub owner: AccountId,
    pub spender: AccountId,
    pub value: u128,
}

} // verus!
