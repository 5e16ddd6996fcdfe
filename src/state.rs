use vstd::prelude::*;

use crate::error::ContractError;
use crate::governance::Proposal;
use crate::ledger::{Ledger, lookup};

verus! {

/// Who may mint, and the largest supply that minting may reach.
#[derive(Clone, Debug, PartialEq, Eq)]
pub struct MinterResponse {
    pub minter: String,
    pub cap: Option<u128>,
}

/// An initial holding.
#[derive(Clone, Debug, PartialEq, Eq)]
pub struct Cw20Coin {
    pub address: String,
    pub amount: u128,
}

/// The governance authority and the rules for proposals.
#[derive(Clone, Debug, PartialEq, Eq)]
pub struct DaoGovernanceConfig {
    /// The sole address allowed to reconfigure, pause and blacklist.
    pub governance_contract: String,
    /// The balance a proposer needs at least.
    pub proposal_threshold: u128,
    /// Seconds between the creation of a proposal and its expiry.
    pub voting_period: u64,
    /// The `Yes` weight a proposal needs at least to pass.
    pub quorum: u128,
}

/// Reward rate and lock period of staking, kept for the accrual process.
#[derive(Clone, Debug, PartialEq, Eq)]
pub struct StakingConfig {
    pub staking_contract: String,
    pub reward_rate: u128,
    pub lock_period: u64,
}

/// Name, symbol, decimals and minter of the token; its supply is the
/// ledger's.
#[derive(Clone, Debug, PartialEq, Eq)]
pub struct TokenInfo {
    pub name: String,
    pub symbol: String,
    pub decimals: u8,
    pub mint: Option<MinterResponse>,
}

/// What instantiation is given.
#[derive(Clone, Debug, PartialEq, Eq)]
pub struct InstantiateMsg {
    pub name: String,
    pub symbol: String,
    pub decimals: u8,
    pub initial_balances: Vec<Cw20Coin>,
    pub mint: Option<MinterResponse>,
    pub dao_governance: Option<DaoGovernanceConfig>,
    pub staking_config: Option<StakingConfig>,
}

/// The whole persistent state: one slot per singleton and one collection per
/// keyed store.
#[derive(Clone, Debug)]
pub struct DaoState {
    pub token: TokenInfo,
    pub ledger: Ledger,
    pub governance: Option<DaoGovernanceConfig>,
    pub staking: Option<StakingConfig>,
    pub paused: bool,
    pub blacklist: Vec<String>,
    /// Proposals in ascending order of id.
    pub proposals: Vec<Proposal>,
    /// The id the next proposal gets; above every id in use.
    pub next_proposal_id: u64,
}

/// Whether some string of `s` reads `b`.
pub open spec fn listed(s: Seq<String>, b: Seq<char>) -> bool {
    exists|i: int| 0 <= i < s.len() && #[trigger] s[i]@ == b
}

pub open spec fn coins_distinct(c: Seq<Cw20Coin>) -> bool {
    forall|i: int, j: int|
        0 <= i < j < c.len() ==> #[trigger] c[i].address@ != #[trigger] c[j].address@
}

pub open spec fn sum_coins(c: Seq<Cw20Coin>) -> int
    decreases c.len(),
{
    if c.len() == 0 {
        0
    } else {
        sum_coins(c.drop_last()) + c.last().amount
    }
}

/// Why instantiation with `msg` is refused, if it is: a repeated address,
/// then an initial supply that does not fit, then one above the cap.
pub open spec fn instantiate_refusal(msg: InstantiateMsg) -> Option<ContractError> {
    if !coins_distinct(msg.initial_balances@) {
        Some(ContractError::InvalidInput)
    } else if sum_coins(msg.initial_balances@) > u128::MAX {
        Some(ContractError::Overflow)
    } else if msg.mint matches Some(m) && m.cap matches Some(cap) && sum_coins(
        msg.initial_balances@,
    ) > cap {
        Some(ContractError::InvalidInput)
    } else {
        None
    }
}

impl DaoState {
    /// Proposal ids strictly ascend and stay below the next id.
    pub open spec fn proposals_ordered(&self) -> bool {
        &&& forall|i: int, j: int|
            0 <= i < j < self.proposals@.len() ==> #[trigger] self.proposals@[i].id
                < #[trigger] self.proposals@[j].id
        &&& forall|i: int|
            0 <= i < self.proposals@.len() ==> #[trigger] self.proposals@[i].id
                < self.next_proposal_id
    }

    pub open spec fn wf(&self) -> bool {
        &&& self.ledger.wf()
        &&& self.proposals_ordered()
    }

    pub open spec fn is_blacklisted_spec(&self, addr: Seq<char>) -> bool {
        listed(self.blacklist@, addr)
    }

    /// `new` differs from `self` in the ledger at most.
    pub open spec fn same_but_ledger(&self, new: &DaoState) -> bool {
        &&& new.token == self.token
        &&& new.governance == self.governance
        &&& new.staking == self.staking
        &&& new.paused == self.paused
        &&& new.blacklist == self.blacklist
        &&& new.proposals == self.proposals
        &&& new.next_proposal_id == self.next_proposal_id
    }

    /// `new` differs from `self` in the pause flag and the blacklist at most.
    pub open spec fn same_but_access(&self, new: &DaoState) -> bool {
        &&& new.token == self.token
        &&& new.ledger == self.ledger
        &&& new.governance == self.governance
        &&& new.staking == self.staking
        &&& new.proposals == self.proposals
        &&& new.next_proposal_id == self.next_proposal_id
    }

    /// Sets up the token, the initial holdings and the optional
    /// configurations; the contract starts unpaused, with an empty blacklist
    /// and no proposals.
    pub fn instantiate(msg: InstantiateMsg) -> (r: Result<DaoState, ContractError>)
        ensures
            match instantiate_refusal(msg) {
                Some(e) => r == Err::<DaoState, ContractError>(e),
                None => r is Ok,
            },
            r matches Ok(s) ==> {
                &&& s.wf()
                &&& s.ledger.total_supply == sum_coins(msg.initial_balances@)
                &&& forall|i: int|
                    0 <= i < msg.initial_balances@.len() ==> {
                        let c = #[trigger] msg.initial_balances@[i];
                        &&& s.ledger.balance_of(c.address@) == c.amount
                        &&& s.ledger.staked_of(c.address@) == 0
                        &&& s.ledger.rewards_of(c.address@) == 0
                    }
                &&& forall|a: Seq<char>|
                    (forall|i: int|
                        0 <= i < msg.initial_balances@.len()
                            ==> #[trigger] msg.initial_balances@[i].address@ != a) ==> lookup(
                        s.ledger.accounts@,
                        a,
                    ) is None
                &&& s.token.name == msg.name
                &&& s.token.symbol == msg.symbol
                &&& s.token.decimals == msg.decimals
                &&& s.token.mint == msg.mint
                &&& s.governance == msg.dao_governance
                &&& s.staking == msg.staking_config
                &&& !s.paused
                &&& s.blacklist@.len() == 0
                &&& s.proposals@.len() == 0
            },
    {
        let coins = &msg.initial_balances;
        // a repeated address is refused before anything is summed
        let mut i: usize = 0;
        while i < coins.len()
            invariant
                i <= coins@.len(),
                coins@ == msg.initial_balances@,
                forall|p: int, q: int|
                    0 <= p < q < coins@.len() && p < i ==> #[trigger] coins@[p].address@
                        != #[trigger] coins@[q].address@,
            decreases coins@.len() - i,
        {
            let mut j: usize = i + 1;
            while j < coins.len()
                invariant
                    i < j <= coins@.len(),
                    coins@ == msg.initial_balances@,
                    forall|p: int, q: int|
                        0 <= p < q < coins@.len() && p < i ==> #[trigger] coins@[p].address@
                            != #[trigger] coins@[q].address@,
                    forall|q: int| i < q < j ==> coins@[i as int].address@ != #[trigger] coins@[q].address@,
                decreases coins@.len() - j,
            {
                if coins[i].address == coins[j].address {
                    proof {
                        assert(coins@[i as int].address@ == coins@[j as int].address@);
                    }
                    return Err(ContractError::InvalidInput);
                }
                j += 1;
            }
            i += 1;
        }
        let mut ledger = Ledger::new();
        let mut k: usize = 0;
        while k < coins.len()
            invariant
                k <= coins@.len(),
                coins@ == msg.initial_balances@,
                coins_distinct(coins@),
                ledger.wf(),
                ledger.total_supply == sum_coins(coins@.take(k as int)),
                forall|p: int|
                    0 <= p < k ==> {
                        let c = #[trigger] coins@[p];
                        &&& ledger.balance_of(c.address@) == c.amount
                        &&& ledger.staked_of(c.address@) == 0
                        &&& ledger.rewards_of(c.address@) == 0
                    },
                forall|a: Seq<char>|
                    (forall|p: int| 0 <= p < k ==> #[trigger] coins@[p].address@ != a) ==> lookup(
                        ledger.accounts@,
                        a,
                    ) is None,
            decreases coins@.len() - k,
        {
            let ghost before = ledger;
            assert(coins@.take(k as int + 1).drop_last() == coins@.take(k as int));
            if coins[k].amount > u128::MAX - ledger.total_supply {
                proof {
                    lemma_sum_coins_prefix(coins@, k as int + 1);
                    assert(sum_coins(coins@.take(k as int + 1)) == sum_coins(coins@.take(k as int))
                        + coins@[k as int].amount);
                }
                return Err(ContractError::Overflow);
            }
            proof {
                assert forall|p: int| 0 <= p < k implies #[trigger] coins@[p].address@
                    != coins@[k as int].address@ by {
                    assert(coins@[p].address@ != coins@[k as int].address@);
                }
            }
            ledger.put(&coins[k].address, coins[k].amount, 0, 0);
            ledger.total_supply = ledger.total_supply + coins[k].amount;
            proof {
                assert forall|p: int| 0 <= p < k + 1 implies {
                    let c = #[trigger] coins@[p];
                    &&& ledger.balance_of(c.address@) == c.amount
                    &&& ledger.staked_of(c.address@) == 0
                    &&& ledger.rewards_of(c.address@) == 0
                } by {
                    if p < k {
                        assert(coins@[p].address@ != coins@[k as int].address@);
                        assert(lookup(ledger.accounts@, coins@[p].address@) == lookup(
                            before.accounts@,
                            coins@[p].address@,
                        ));
                    }
                }
                assert forall|a: Seq<char>|
                    (forall|p: int| 0 <= p < k + 1 ==> #[trigger] coins@[p].address@ != a) implies lookup(
                    ledger.accounts@,
                    a,
                ) is None by {
                    assert(coins@[k as int].address@ != a);
                    assert(lookup(ledger.accounts@, a) == lookup(before.accounts@, a));
                }
            }
            k += 1;
        }
        assert(coins@.take(coins@.len() as int) == coins@);
        let total = ledger.total_supply;
        if let Some(m) = &msg.mint {
            if let Some(cap) = m.cap {
                if total > cap {
                    return Err(ContractError::InvalidInput);
                }
            }
        }
        Ok(
            DaoState {
                token: TokenInfo {
                    name: msg.name,
                    symbol: msg.symbol,
                    decimals: msg.decimals,
                    mint: msg.mint,
                },
                ledger: ledger,
                governance: msg.dao_governance,
                staking: msg.staking_config,
                paused: false,
                blacklist: Vec::new(),
                proposals: Vec::new(),
                next_proposal_id: 1,
            },
        )
    }
}

/// A prefix sums to no more than the whole.
pub proof fn lemma_sum_coins_prefix(c: Seq<Cw20Coin>, n: int)
    requires
        0 <= n <= c.len(),
    ensures
        0 <= sum_coins(c.take(n)) <= sum_coins(c),
    decreases c.len(),
{
    if c.len() > 0 {
        if n == c.len() {
            assert(c.take(n) == c);
            lemma_sum_coins_prefix(c.drop_last(), n - 1);
            assert(c.drop_last().take(n - 1) == c.take(n).drop_last());
        } else {
            assert(c.drop_last().take(n) == c.take(n));
            lemma_sum_coins_prefix(c.drop_last(), n);
        }
    }
}

} // verus!
