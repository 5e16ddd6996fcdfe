use vstd::prelude::*;

verus! {

/// The ways an operation can be refused. The first violated precondition
/// decides the error, and a refused operation leaves the state unchanged.
#[derive(Clone, Copy, Debug, PartialEq, Eq, Structural)]
pub enum ContractError {
    /// The caller is not the authority that the operation requires.
    Unauthorized,
    /// A balance or staked balance is too small for the requested amount.
    InsufficientFunds,
    /// The proposer's balance is below the proposal threshold.
    InsufficientBalance,
    /// Transfers are suspended.
    ContractPaused,
    /// The sender is on the blacklist.
    BlacklistedSender,
    /// A proposal or a configuration that the operation needs is absent.
    NotFound,
    /// An argument is malformed or out of range.
    InvalidInput,
    /// An amount would not fit in its integer type.
    Overflow,
    /// There are no accrued rewards to claim.
    NoRewards,
    /// Minting for gameplay is switched off.
    GameplayMintingDisabled,
    /// Minting for breeding is switched off.
    BreedingMintingDisabled,
    /// The amount is above the per-transaction mint limit.
    ExceedsMaxMint,
}

} // verus!
