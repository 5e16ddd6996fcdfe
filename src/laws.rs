use vstd::prelude::*;

use crate::error::ContractError;
use crate::ledger::{lemma_stake_covered, sum_balances};
use crate::state::DaoState;

verus! {

/// In every well-formed state the supply is the sum of all balances and no
/// staked balance exceeds its balance. Instantiation yields a well-formed
/// state and every operation keeps it well formed, so both hold after any
/// sequence of mints, burns, transfers, stakes and unstakes.
pub proof fn lemma_supply_and_stakes(s: DaoState, addr: Seq<char>)
    requires
        s.wf(),
    ensures
        s.ledger.total_supply == sum_balances(s.ledger.accounts@),
        0 <= s.ledger.staked_of(addr) <= s.ledger.balance_of(addr),
{
    lemma_stake_covered(s.ledger.accounts@, addr);
}

/// A paused contract refuses transfers and sends with `ContractPaused`,
/// while mints and burns are decided exactly as if it were not paused.
pub proof fn lemma_pause_stops_transfers_only(
    s: DaoState,
    paused: bool,
    sender: Seq<char>,
    amount: int,
)
    ensures
        s.paused ==> s.transfer_refusal(sender, amount) == Some(ContractError::ContractPaused),
        s.paused ==> s.send_refusal(sender, amount) == Some(ContractError::ContractPaused),
        (DaoState { paused: paused, ..s }).mint_refusal(sender, amount) == s.mint_refusal(
            sender,
            amount,
        ),
        (DaoState { paused: paused, ..s }).burn_refusal(sender, amount) == s.burn_refusal(
            sender,
            amount,
        ),
{
}

/// A blacklisted sender of a running contract is refused with
/// `BlacklistedSender`. Once the address is taken off the blacklist that
/// refusal no longer comes, and a transfer that its unstaked balance covers
/// goes through while the contract runs.
pub proof fn lemma_unblacklist_restores_transfer(
    before: DaoState,
    after: DaoState,
    addr: Seq<char>,
    amount: int,
)
    requires
        before.blacklist_removed(&after, addr),
    ensures
        !before.paused && before.is_blacklisted_spec(addr) ==> before.transfer_refusal(addr, amount)
            == Some(ContractError::BlacklistedSender),
        after.transfer_refusal(addr, amount) != Some(ContractError::BlacklistedSender),
        !after.paused && amount <= after.ledger.available_of(addr) ==> after.transfer_refusal(
            addr,
            amount,
        ) is None,
{
    assert(!after.is_blacklisted_spec(addr));
}

} // verus!
