use vstd::prelude::*;

use crate::error::ContractError;
use crate::state::{DaoGovernanceConfig, DaoState, StakingConfig, listed};

verus! {

impl DaoState {
    /// Why `caller` may not act as the governance authority, if it may not:
    /// no governance configured, or another address.
    pub open spec fn authority_refusal(&self, caller: Seq<char>) -> Option<ContractError> {
        match self.governance {
            None => Some(ContractError::NotFound),
            Some(c) => if caller != c.governance_contract@ {
                Some(ContractError::Unauthorized)
            } else {
                None
            },
        }
    }

    /// `new` has the pause flag `paused`, and nothing else changed.
    pub open spec fn set_paused(&self, new: &DaoState, paused: bool) -> bool {
        &&& self.same_but_access(new)
        &&& new.paused == paused
        &&& new.blacklist == self.blacklist
    }

    /// `new` has `addr` on the blacklist besides what `self` has there, and
    /// nothing else changed.
    pub open spec fn blacklist_added(&self, new: &DaoState, addr: Seq<char>) -> bool {
        &&& self.same_but_access(new)
        &&& new.paused == self.paused
        &&& forall|b: Seq<char>|
            #[trigger] new.is_blacklisted_spec(b) == (b == addr || self.is_blacklisted_spec(b))
    }

    /// `new` has the blacklist of `self` without `addr`, and nothing else
    /// changed.
    pub open spec fn blacklist_removed(&self, new: &DaoState, addr: Seq<char>) -> bool {
        &&& self.same_but_access(new)
        &&& new.paused == self.paused
        &&& forall|b: Seq<char>|
            #[trigger] new.is_blacklisted_spec(b) == (b != addr && self.is_blacklisted_spec(b))
    }

    pub fn is_paused(&self) -> (r: bool)
        ensures
            r == self.paused,
    {
        self.paused
    }

    /// Whether `addr` is on the blacklist; an unknown address is not.
    pub fn is_blacklisted(&self, addr: &String) -> (r: bool)
        ensures
            r == self.is_blacklisted_spec(addr@),
    {
        let mut i: usize = 0;
        while i < self.blacklist.len()
            invariant
                i <= self.blacklist@.len(),
                forall|k: int| 0 <= k < i ==> #[trigger] self.blacklist@[k]@ != addr@,
            decreases self.blacklist@.len() - i,
        {
            if self.blacklist[i] == *addr {
                return true;
            }
            i += 1;
        }
        false
    }

    /// Refuses with `ContractPaused` while the contract is paused.
    pub fn require_not_paused(&self) -> (r: Result<(), ContractError>)
        ensures
            r is Err <==> self.paused,
            r is Err ==> r == Err::<(), ContractError>(ContractError::ContractPaused),
    {
        if self.paused {
            Err(ContractError::ContractPaused)
        } else {
            Ok(())
        }
    }

    /// The guard of every administrative operation: `caller` must be the
    /// configured governance authority.
    pub fn require_authority(&self, caller: &String) -> (r: Result<(), ContractError>)
        ensures
            match self.authority_refusal(caller@) {
                Some(e) => r == Err::<(), ContractError>(e),
                None => r is Ok,
            },
    {
        match &self.governance {
            None => Err(ContractError::NotFound),
            Some(c) => {
                if *caller != c.governance_contract {
                    Err(ContractError::Unauthorized)
                } else {
                    Ok(())
                }
            },
        }
    }

    /// Suspends transfers; authority only.
    pub fn pause(&mut self, caller: &String) -> (r: Result<(), ContractError>)
        requires
            old(self).wf(),
        ensures
            final(self).wf(),
            match old(self).authority_refusal(caller@) {
                Some(e) => r == Err::<(), ContractError>(e) && *final(self) == *old(self),
                None => r is Ok && old(self).set_paused(final(self), true),
            },
    {
        self.require_authority(caller)?;
        self.paused = true;
        Ok(())
    }

    /// Resumes transfers; authority only.
    pub fn unpause(&mut self, caller: &String) -> (r: Result<(), ContractError>)
        requires
            old(self).wf(),
        ensures
            final(self).wf(),
            match old(self).authority_refusal(caller@) {
                Some(e) => r == Err::<(), ContractError>(e) && *final(self) == *old(self),
                None => r is Ok && old(self).set_paused(final(self), false),
            },
    {
        self.require_authority(caller)?;
        self.paused = false;
        Ok(())
    }

    /// Puts `addr` on the blacklist; authority only.
    pub fn blacklist(&mut self, caller: &String, addr: &String) -> (r: Result<(), ContractError>)
        requires
            old(self).wf(),
        ensures
            final(self).wf(),
            match old(self).authority_refusal(caller@) {
                Some(e) => r == Err::<(), ContractError>(e) && *final(self) == *old(self),
                None => r is Ok && old(self).blacklist_added(final(self), addr@),
            },
    {
        self.require_authority(caller)?;
        if !self.is_blacklisted(addr) {
            let ghost before = self.blacklist@;
            self.blacklist.push(addr.clone());
            proof {
                lemma_listed_push(before, *addr);
            }
        }
        Ok(())
    }

    /// Takes `addr` off the blacklist; authority only.
    pub fn unblacklist(&mut self, caller: &String, addr: &String) -> (r: Result<(), ContractError>)
        requires
            old(self).wf(),
        ensures
            final(self).wf(),
            match old(self).authority_refusal(caller@) {
                Some(e) => r == Err::<(), ContractError>(e) && *final(self) == *old(self),
                None => r is Ok && old(self).blacklist_removed(final(self), addr@),
            },
    {
        self.require_authority(caller)?;
        let mut kept: Vec<String> = Vec::new();
        let mut i: usize = 0;
        while i < self.blacklist.len()
            invariant
                i <= self.blacklist@.len(),
                !listed(kept@, addr@),
                forall|b: Seq<char>|
                    b != addr@ ==> (#[trigger] listed(kept@, b) <==> listed(
                        self.blacklist@.take(i as int),
                        b,
                    )),
            decreases self.blacklist@.len() - i,
        {
            let ghost before = kept@;
            let ghost seen = self.blacklist@.take(i as int);
            let ghost seen_next = self.blacklist@.take(i as int + 1);
            if self.blacklist[i] != *addr {
                kept.push(self.blacklist[i].clone());
            }
            proof {
                assert(seen_next == seen.push(self.blacklist@[i as int]));
                lemma_listed_push(seen, self.blacklist@[i as int]);
                if kept@.len() > before.len() {
                    lemma_listed_push(before, self.blacklist@[i as int]);
                } else {
                    assert(kept@ == before);
                }
            }
            i += 1;
        }
        proof {
            assert(self.blacklist@.take(self.blacklist@.len() as int) == self.blacklist@);
        }
        self.blacklist = kept;
        Ok(())
    }

    /// Replaces the governance configuration wholesale; authority only.
    pub fn update_governance_config(&mut self, caller: &String, config: DaoGovernanceConfig) -> (r:
        Result<(), ContractError>)
        requires
            old(self).wf(),
        ensures
            final(self).wf(),
            match old(self).authority_refusal(caller@) {
                Some(e) => r == Err::<(), ContractError>(e) && *final(self) == *old(self),
                None => r is Ok && *final(self) == (DaoState { governance: Some(config), ..*old(self) }),
            },
    {
        self.require_authority(caller)?;
        self.governance = Some(config);
        Ok(())
    }

    /// Replaces the staking configuration wholesale; authority only.
    pub fn update_staking_config(&mut self, caller: &String, config: StakingConfig) -> (r: Result<
        (),
        ContractError,
    >)
        requires
            old(self).wf(),
        ensures
            final(self).wf(),
            match old(self).authority_refusal(caller@) {
                Some(e) => r == Err::<(), ContractError>(e) && *final(self) == *old(self),
                None => r is Ok && *final(self) == (DaoState { staking: Some(config), ..*old(self) }),
            },
    {
        self.require_authority(caller)?;
        self.staking = Some(config);
        Ok(())
    }
}

/// What a pushed string adds to the strings listed.
pub proof fn lemma_listed_push(s: Seq<String>, x: String)
    ensures
        forall|b: Seq<char>| #[trigger] listed(s.push(x), b) == (b == x@ || listed(s, b)),
{
    assert forall|b: Seq<char>| #[trigger] listed(s.push(x), b) == (b == x@ || listed(s, b)) by {
        let t = s.push(x);
        if b == x@ {
            assert(t[s.len() as int]@ == b);
        }
        if listed(s, b) {
            let i = choose|i: int| 0 <= i < s.len() && #[trigger] s[i]@ == b;
            assert(t[i]@ == b);
        }
        if listed(t, b) && b != x@ {
            let i = choose|i: int| 0 <= i < t.len() && #[trigger] t[i]@ == b;
            assert(s[i]@ == b);
        }
    }
}

} // verus!
