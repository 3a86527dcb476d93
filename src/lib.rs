//! A referral-gated token sale: participants join a referral tree, then
//! deposit a fungible token into time- and amount-bounded sales, optionally
//! gated by a stake held in an outside staking pool.
pub mod account;
pub mod contract;
pub mod error;
pub mod laws;
pub mod migration;
pub mod sale;
pub mod settlement;
pub mod token_receiver;
