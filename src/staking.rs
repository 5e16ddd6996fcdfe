use vstd::prelude::*;

use crate::error::ContractError;
use crate::ledger::{Ledger, lemma_balance_le_sum, lemma_stake_covered};

verus! {

impl Ledger {
    /// `new` is `self` with the staked balance and the rewards of `addr` set
    /// to `staked` and `rewards`; every balance and the supply stay.
    pub open spec fn restaked(&self, new: &Ledger, addr: Seq<char>, staked: int, rewards: int) -> bool {
        &&& new.total_supply == self.total_supply
        &&& new.balance_of(addr) == self.balance_of(addr)
        &&& new.staked_of(addr) == staked
        &&& new.rewards_of(addr) == rewards
        &&& self.agrees_except(new, addr, addr)
    }

    /// Gives `addr` the new staked balance and rewards, keeping its balance.
    fn set_stake(&mut self, addr: &String, staked: u128, rewards: u128)
        requires
            old(self).wf(),
            staked <= old(self).balance_of(addr@),
        ensures
            final(self).wf(),
            old(self).restaked(final(self), addr@, staked as int, rewards as int),
    {
        proof {
            lemma_balance_le_sum(self.accounts@, addr@, addr@);
        }
        let bal = self.balance(addr);
        self.put(addr, bal, staked, rewards);
    }

    /// Locks `amount` of the balance of `addr` that is not yet staked;
    /// refused with `InsufficientFunds` when it exceeds that part.
    pub fn stake(&mut self, addr: &String, amount: u128) -> (r: Result<(), ContractError>)
        requires
            old(self).wf(),
        ensures
            final(self).wf(),
            final(self).staked_of(addr@) <= final(self).balance_of(addr@),
            r is Err <==> amount > old(self).available_of(addr@),
            r is Err ==> r == Err::<(), ContractError>(ContractError::InsufficientFunds)
                && *final(self) == *old(self),
            r is Ok ==> old(self).restaked(
                final(self),
                addr@,
                old(self).staked_of(addr@) + amount,
                old(self).rewards_of(addr@),
            ),
    {
        proof {
            lemma_stake_covered(self.accounts@, addr@);
        }
        let available = self.available_balance(addr);
        if amount > available {
            return Err(ContractError::InsufficientFunds);
        }
        let staked = self.staked_balance(addr);
        let rewards = self.rewards(addr);
        self.set_stake(addr, staked + amount, rewards);
        Ok(())
    }

    /// Releases `amount` of the staked balance of `addr`; refused with
    /// `InsufficientFunds`, and nothing changed, when more is asked than is
    /// staked.
    pub fn unstake(&mut self, addr: &String, amount: u128) -> (r: Result<(), ContractError>)
        requires
            old(self).wf(),
        ensures
            final(self).wf(),
            final(self).staked_of(addr@) <= final(self).balance_of(addr@),
            r is Err <==> amount > old(self).staked_of(addr@),
            r is Err ==> r == Err::<(), ContractError>(ContractError::InsufficientFunds)
                && *final(self) == *old(self),
            r is Ok ==> old(self).restaked(
                final(self),
                addr@,
                old(self).staked_of(addr@) - amount,
                old(self).rewards_of(addr@),
            ),
    {
        proof {
            lemma_stake_covered(self.accounts@, addr@);
        }
        let staked = self.staked_balance(addr);
        if amount > staked {
            return Err(ContractError::InsufficientFunds);
        }
        let rewards = self.rewards(addr);
        self.set_stake(addr, staked - amount, rewards);
        Ok(())
    }

    /// Resets the rewards of `addr` to zero and returns what they were;
    /// refused with `NoRewards` when they are zero.
    pub fn claim_rewards(&mut self, addr: &String) -> (r: Result<u128, ContractError>)
        requires
            old(self).wf(),
        ensures
            final(self).wf(),
            r is Err <==> old(self).rewards_of(addr@) == 0,
            r is Err ==> r == Err::<u128, ContractError>(ContractError::NoRewards) && *final(self)
                == *old(self),
            r matches Ok(claimed) ==> claimed == old(self).rewards_of(addr@) && old(self).restaked(
                final(self),
                addr@,
                old(self).staked_of(addr@),
                0,
            ),
    {
        let rewards = self.rewards(addr);
        if rewards == 0 {
            return Err(ContractError::NoRewards);
        }
        proof {
            lemma_stake_covered(self.accounts@, addr@);
        }
        let staked = self.staked_balance(addr);
        self.set_stake(addr, staked, 0);
        Ok(rewards)
    }

    /// Adds `amount` to the rewards of `addr`, as the accrual process does;
    /// refused with `Overflow` when they would exceed `u128::MAX`.
    pub fn credit_rewards(&mut self, addr: &String, amount: u128) -> (r: Result<(), ContractError>)
        requires
            old(self).wf(),
        ensures
            final(self).wf(),
            r is Err <==> old(self).rewards_of(addr@) + amount > u128::MAX,
            r is Err ==> r == Err::<(), ContractError>(ContractError::Overflow) && *final(self)
                == *old(self),
            r is Ok ==> old(self).restaked(
                final(self),
                addr@,
                old(self).staked_of(addr@),
                old(self).rewards_of(addr@) + amount,
            ),
    {
        let rewards = self.rewards(addr);
        if amount > u128::MAX - rewards {
            return Err(ContractError::Overflow);
        }
        proof {
            lemma_stake_covered(self.accounts@, addr@);
        }
        let staked = self.staked_balance(addr);
        self.set_stake(addr, staked, rewards + amount);
        Ok(())
    }
}

} // verus!
