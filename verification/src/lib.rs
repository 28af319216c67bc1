//! A two-asset liquidity-staking pool: share accounting, pricing and the
//! time-lock penalty applied at redemption.

pub mod account;
pub mod error;
pub mod events;
pub mod laws;
pub mod ledger;
pub mod pricing;
pub mod staking;
pub mod table;
