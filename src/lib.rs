//! A fungible-token ledger with staking, balance-weighted governance,
//! access control and batch operations, modelled as a state machine whose
//! every transition is checked against its contract.
//!
//! - `ledger`: balances, staked balances, rewards and the supply.
//! - `staking`: stake, unstake, reward crediting and claiming.
//! - `state`: the whole state of the governance token and its creation.
//! - `access`: the authority guard, the pause switch and the blacklist.
//! - `token`: transfers, sends, mints and burns behind their gates.
//! - `governance`: proposals, votes, tallies and paging.
//! - `batch`: batch transfers and mints queued as sub-operations.
//! - `query`: read-side views and the checks of state read from storage.
//! - `game`: the game token's minting rules and configuration.
//! - `laws`: properties that hold across operations.

pub mod error;
pub mod ledger;
pub mod staking;
pub mod state;
pub mod access;
pub mod token;
pub mod governance;
pub mod batch;
pub mod laws;
pub mod game;
pub mod query;
