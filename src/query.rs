use vstd::prelude::*;

use crate::game::GameToken;
use crate::ledger::{
    Account,
    Ledger,
    distinct_addresses,
    lemma_lookup_at,
    lookup,
    stakes_covered,
    sum_balances,
};
use crate::state::DaoState;

verus! {

/// The queries of the governance token.
#[derive(Clone, Debug, PartialEq, Eq)]
pub enum QueryMsg {
    Balance { address: String },
    TokenInfo {},
    Minter {},
    AllAllowances { owner: String, start_after: Option<String>, limit: Option<u32> },
    AllAccounts { start_after: Option<String>, limit: Option<u32> },
    DaoConfig {},
    StakingConfig {},
    StakedBalance { address: String },
    Rewards { address: String },
    Proposals { start_after: Option<u64>, limit: Option<u32> },
    Proposal { id: u64 },
    Votes { proposal_id: u64 },
    TotalSupply {},
    CirculatingSupply {},
    IsPaused {},
    Blacklisted { address: String },
    AllBlacklisted { start_after: Option<String>, limit: Option<u32> },
}

/// The four amounts of one address.
#[derive(Clone, Copy, Debug, PartialEq, Eq, Structural)]
pub struct BalanceResponse {
    pub balance: u128,
    pub staked_balance: u128,
    pub available_balance: u128,
    pub rewards: u128,
}

pub proof fn lemma_sum_balances_prefix(s: Seq<Account>, n: int)
    requires
        0 <= n <= s.len(),
    ensures
        0 <= sum_balances(s.take(n)) <= sum_balances(s),
    decreases s.len(),
{
    if s.len() > 0 {
        if n == s.len() {
            assert(s.take(n) == s);
            lemma_sum_balances_prefix(s.drop_last(), n - 1);
            assert(s.drop_last().take(n - 1) == s.take(n).drop_last());
        } else {
            assert(s.drop_last().take(n) == s.take(n));
            lemma_sum_balances_prefix(s.drop_last(), n);
        }
    }
}

/// A record that is found is one of the records.
pub proof fn lemma_lookup_member(s: Seq<Account>, a: Seq<char>)
    ensures
        lookup(s, a) matches Some(x) ==> exists|i: int| 0 <= i < s.len() && #[trigger] s[i] == x,
    decreases s.len(),
{
    if s.len() > 0 {
        if s.last().address@ == a {
            assert(s[s.len() - 1] == s.last());
        } else {
            lemma_lookup_member(s.drop_last(), a);
            if lookup(s, a) is Some {
                let x = lookup(s, a)->Some_0;
                let i = choose|i: int| 0 <= i < s.len() - 1 && #[trigger] s.drop_last()[i] == x;
                assert(s[i] == x);
            }
        }
    }
}

impl Ledger {
    /// Checks the invariant of a ledger read back from storage.
    pub fn is_well_formed(&self) -> (r: bool)
        ensures
            r == self.wf(),
    {
        let s = &self.accounts;
        let mut i: usize = 0;
        while i < s.len()
            invariant
                i <= s@.len(),
                s@ == self.accounts@,
                forall|p: int, q: int|
                    0 <= p < q < s@.len() && p < i ==> #[trigger] s@[p].address@
                        != #[trigger] s@[q].address@,
                forall|p: int| 0 <= p < i ==> #[trigger] s@[p].staked_balance <= s@[p].balance,
            decreases s@.len() - i,
        {
            if s[i].staked_balance > s[i].balance {
                return false;
            }
            let mut j: usize = i + 1;
            while j < s.len()
                invariant
                    i < j <= s@.len(),
                    s@ == self.accounts@,
                    forall|p: int, q: int|
                        0 <= p < q < s@.len() && p < i ==> #[trigger] s@[p].address@
                            != #[trigger] s@[q].address@,
                    forall|q: int| i < q < j ==> s@[i as int].address@ != #[trigger] s@[q].address@,
                decreases s@.len() - j,
            {
                if s[i].address == s[j].address {
                    proof {
                        assert(s@[i as int].address@ == s@[j as int].address@);
                    }
                    return false;
                }
                j += 1;
            }
            i += 1;
        }
        let mut sum: u128 = 0;
        let mut k: usize = 0;
        while k < s.len()
            invariant
                k <= s@.len(),
                s@ == self.accounts@,
                distinct_addresses(s@),
                stakes_covered(s@),
                sum == sum_balances(s@.take(k as int)),
            decreases s@.len() - k,
        {
            assert(s@.take(k as int + 1).drop_last() == s@.take(k as int));
            if s[k].balance > u128::MAX - sum {
                proof {
                    lemma_sum_balances_prefix(s@, k as int + 1);
                }
                return false;
            }
            sum = sum + s[k].balance;
            k += 1;
        }
        proof {
            assert(s@.take(s@.len() as int) == s@);
        }
        sum == self.total_supply
    }
}

impl DaoState {
    /// Checks the invariant of a state read back from storage.
    pub fn is_well_formed(&self) -> (r: bool)
        ensures
            r == self.wf(),
    {
        if !self.ledger.is_well_formed() {
            return false;
        }
        let s = &self.proposals;
        let mut i: usize = 0;
        while i < s.len()
            invariant
                i <= s@.len(),
                s@ == self.proposals@,
                forall|p: int, q: int| 0 <= p < q < i ==> #[trigger] s@[p].id < #[trigger] s@[q].id,
                forall|p: int| 0 <= p < i ==> #[trigger] s@[p].id < self.next_proposal_id,
            decreases s@.len() - i,
        {
            if s[i].id >= self.next_proposal_id {
                return false;
            }
            if i > 0 && s[i - 1].id >= s[i].id {
                return false;
            }
            proof {
                assert forall|p: int, q: int| 0 <= p < q < i + 1 implies #[trigger] s@[p].id
                    < #[trigger] s@[q].id by {
                    if q == i && p < i - 1 {
                        assert(s@[p].id < s@[i - 1].id);
                    }
                }
            }
            i += 1;
        }
        true
    }

    /// The balance, staked balance, unstaked balance and rewards of `addr`.
    pub fn balance_info(&self, addr: &String) -> (r: BalanceResponse)
        requires
            self.wf(),
        ensures
            r.balance == self.ledger.balance_of(addr@),
            r.staked_balance == self.ledger.staked_of(addr@),
            r.available_balance == self.ledger.available_of(addr@),
            r.rewards == self.ledger.rewards_of(addr@),
    {
        BalanceResponse {
            balance: self.ledger.balance(addr),
            staked_balance: self.ledger.staked_balance(addr),
            available_balance: self.ledger.available_balance(addr),
            rewards: self.ledger.rewards(addr),
        }
    }
}

impl GameToken {
    /// Checks the invariant of a game token read back from storage.
    pub fn is_well_formed(&self) -> (r: bool)
        ensures
            r == self.wf(),
    {
        if !self.ledger.is_well_formed() {
            return false;
        }
        let s = &self.ledger.accounts;
        let mut i: usize = 0;
        while i < s.len()
            invariant
                i <= s@.len(),
                s@ == self.ledger.accounts@,
                self.ledger.wf(),
                forall|p: int| 0 <= p < i ==> #[trigger] s@[p].staked_balance == 0,
            decreases s@.len() - i,
        {
            if s[i].staked_balance != 0 {
                proof {
                    lemma_lookup_at(s@, i as int);
                    assert(self.ledger.staked_of(s@[i as int].address@) != 0);
                }
                return false;
            }
            i += 1;
        }
        proof {
            assert forall|a: Seq<char>| #[trigger] self.ledger.staked_of(a) == 0 by {
                lemma_lookup_member(s@, a);
            }
        }
        true
    }
}

} // verus!
