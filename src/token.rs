use vstd::prelude::*;

use crate::error::ContractError;
use crate::state::DaoState;

verus! {

impl DaoState {
    /// Why a transfer of `amount` by `sender` is refused, if it is: a paused
    /// contract, then a blacklisted sender, then too small an unstaked
    /// balance.
    pub open spec fn transfer_refusal(&self, sender: Seq<char>, amount: int) -> Option<
        ContractError,
    > {
        if self.paused {
            Some(ContractError::ContractPaused)
        } else if self.is_blacklisted_spec(sender) {
            Some(ContractError::BlacklistedSender)
        } else if amount > self.ledger.available_of(sender) {
            Some(ContractError::InsufficientFunds)
        } else {
            None
        }
    }

    /// Why a send of `amount` by `sender` is refused, if it is: a paused
    /// contract, then too small an unstaked balance.
    pub open spec fn send_refusal(&self, sender: Seq<char>, amount: int) -> Option<ContractError> {
        if self.paused {
            Some(ContractError::ContractPaused)
        } else if amount > self.ledger.available_of(sender) {
            Some(ContractError::InsufficientFunds)
        } else {
            None
        }
    }

    /// Why a burn of `amount` by `sender` is refused, if it is.
    pub open spec fn burn_refusal(&self, sender: Seq<char>, amount: int) -> Option<ContractError> {
        if amount > self.ledger.available_of(sender) {
            Some(ContractError::InsufficientFunds)
        } else {
            None
        }
    }

    /// Why a mint of `amount` by `sender` is refused, if it is: no minter or
    /// another one, then a supply that does not fit, then one above the cap.
    pub open spec fn mint_refusal(&self, sender: Seq<char>, amount: int) -> Option<ContractError> {
        match self.token.mint {
            None => Some(ContractError::Unauthorized),
            Some(m) => if sender != m.minter@ {
                Some(ContractError::Unauthorized)
            } else if self.ledger.total_supply + amount > u128::MAX {
                Some(ContractError::Overflow)
            } else if m.cap matches Some(cap) && self.ledger.total_supply + amount > cap {
                Some(ContractError::InvalidInput)
            } else {
                None
            },
        }
    }

    /// Moves `amount` from `sender` to `recipient`.
    pub fn transfer(&mut self, sender: &String, recipient: &String, amount: u128) -> (r: Result<
        (),
        ContractError,
    >)
        requires
            old(self).wf(),
        ensures
            final(self).wf(),
            match old(self).transfer_refusal(sender@, amount as int) {
                Some(e) => r == Err::<(), ContractError>(e) && *final(self) == *old(self),
                None => {
                    &&& r is Ok
                    &&& old(self).ledger.transferred(
                        &final(self).ledger,
                        sender@,
                        recipient@,
                        amount as int,
                    )
                    &&& old(self).same_but_ledger(final(self))
                },
            },
    {
        self.require_not_paused()?;
        if self.is_blacklisted(sender) {
            return Err(ContractError::BlacklistedSender);
        }
        self.ledger.transfer(sender, recipient, amount)
    }

    /// Moves `amount` from `sender` to the receiving contract; the
    /// notification of that contract is the host's.
    pub fn send(&mut self, sender: &String, contract: &String, amount: u128) -> (r: Result<
        (),
        ContractError,
    >)
        requires
            old(self).wf(),
        ensures
            final(self).wf(),
            match old(self).send_refusal(sender@, amount as int) {
                Some(e) => r == Err::<(), ContractError>(e) && *final(self) == *old(self),
                None => {
                    &&& r is Ok
                    &&& old(self).ledger.transferred(
                        &final(self).ledger,
                        sender@,
                        contract@,
                        amount as int,
                    )
                    &&& old(self).same_but_ledger(final(self))
                },
            },
    {
        self.require_not_paused()?;
        self.ledger.transfer(sender, contract, amount)
    }

    /// Destroys `amount` of the unstaked balance of `sender`; pausing does
    /// not stop it.
    pub fn burn(&mut self, sender: &String, amount: u128) -> (r: Result<(), ContractError>)
        requires
            old(self).wf(),
        ensures
            final(self).wf(),
            match old(self).burn_refusal(sender@, amount as int) {
                Some(e) => r == Err::<(), ContractError>(e) && *final(self) == *old(self),
                None => {
                    &&& r is Ok
                    &&& old(self).ledger.burned(&final(self).ledger, sender@, amount as int)
                    &&& old(self).same_but_ledger(final(self))
                },
            },
    {
        self.ledger.burn(sender, amount)
    }

    /// Creates `amount` for `recipient`; only the minter may, within the
    /// cap. Pausing does not stop it.
    pub fn mint(&mut self, sender: &String, recipient: &String, amount: u128) -> (r: Result<
        (),
        ContractError,
    >)
        requires
            old(self).wf(),
        ensures
            final(self).wf(),
            match old(self).mint_refusal(sender@, amount as int) {
                Some(e) => r == Err::<(), ContractError>(e) && *final(self) == *old(self),
                None => {
                    &&& r is Ok
                    &&& old(self).ledger.minted(&final(self).ledger, recipient@, amount as int)
                    &&& old(self).same_but_ledger(final(self))
                },
            },
    {
        match &self.token.mint {
            None => {
                return Err(ContractError::Unauthorized);
            },
            Some(m) => {
                if *sender != m.minter {
                    return Err(ContractError::Unauthorized);
                }
                if amount > u128::MAX - self.ledger.total_supply {
                    return Err(ContractError::Overflow);
                }
                if let Some(cap) = m.cap {
                    if self.ledger.total_supply + amount > cap {
                        return Err(ContractError::InvalidInput);
                    }
                }
            },
        }
        self.ledger.mint(recipient, amount)
    }

    /// Locks `amount` of the unstaked balance of `sender`.
    pub fn stake(&mut self, sender: &String, amount: u128) -> (r: Result<(), ContractError>)
        requires
            old(self).wf(),
        ensures
            final(self).wf(),
            r is Err <==> amount > old(self).ledger.available_of(sender@),
            r is Err ==> r == Err::<(), ContractError>(ContractError::InsufficientFunds)
                && *final(self) == *old(self),
            r is Ok ==> old(self).ledger.restaked(
                &final(self).ledger,
                sender@,
                old(self).ledger.staked_of(sender@) + amount,
                old(self).ledger.rewards_of(sender@),
            ) && old(self).same_but_ledger(final(self)),
    {
        self.ledger.stake(sender, amount)
    }

    /// Releases `amount` of the staked balance of `sender`.
    pub fn unstake(&mut self, sender: &String, amount: u128) -> (r: Result<(), ContractError>)
        requires
            old(self).wf(),
        ensures
            final(self).wf(),
            r is Err <==> amount > old(self).ledger.staked_of(sender@),
            r is Err ==> r == Err::<(), ContractError>(ContractError::InsufficientFunds)
                && *final(self) == *old(self),
            r is Ok ==> old(self).ledger.restaked(
                &final(self).ledger,
                sender@,
                old(self).ledger.staked_of(sender@) - amount,
                old(self).ledger.rewards_of(sender@),
            ) && old(self).same_but_ledger(final(self)),
    {
        self.ledger.unstake(sender, amount)
    }

    /// Resets the rewards of `sender` and returns the amount claimed.
    pub fn claim_rewards(&mut self, sender: &String) -> (r: Result<u128, ContractError>)
        requires
            old(self).wf(),
        ensures
            final(self).wf(),
            r is Err <==> old(self).ledger.rewards_of(sender@) == 0,
            r is Err ==> r == Err::<u128, ContractError>(ContractError::NoRewards) && *final(self)
                == *old(self),
            r matches Ok(claimed) ==> claimed == old(self).ledger.rewards_of(sender@)
                && old(self).ledger.restaked(
                &final(self).ledger,
                sender@,
                old(self).ledger.staked_of(sender@),
                0,
            ) && old(self).same_but_ledger(final(self)),
    {
        self.ledger.claim_rewards(sender)
    }

    /// Credits `amount` of rewards to `addr`, as the accrual process does.
    pub fn credit_rewards(&mut self, addr: &String, amount: u128) -> (r: Result<(), ContractError>)
        requires
            old(self).wf(),
        ensures
            final(self).wf(),
            r is Err <==> old(self).ledger.rewards_of(addr@) + amount > u128::MAX,
            r is Err ==> r == Err::<(), ContractError>(ContractError::Overflow) && *final(self)
                == *old(self),
            r is Ok ==> old(self).ledger.restaked(
                &final(self).ledger,
                addr@,
                old(self).ledger.staked_of(addr@),
                old(self).ledger.rewards_of(addr@) + amount,
            ) && old(self).same_but_ledger(final(self)),
    {
        self.ledger.credit_rewards(addr, amount)
    }
}

} // verus!
