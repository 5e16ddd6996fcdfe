use vstd::prelude::*;

use crate::error::ContractError;
use crate::ledger::{Ledger, lookup};
use crate::state::{MinterResponse, TokenInfo};

verus! {

/// Who may mint for the game, and for which purposes.
#[derive(Clone, Debug, PartialEq, Eq)]
pub struct MinterConfig {
    pub owner: String,
    pub can_mint_for_gameplay: bool,
    pub can_mint_for_breeding: bool,
    pub can_mint_for_staking: bool,
    pub max_mint_per_transaction: u128,
}

/// Prices of the game's activities.
#[derive(Clone, Copy, Debug, PartialEq, Eq)]
pub struct GameConfig {
    pub breeding_cost: u128,
    pub feeding_cost: u128,
    /// Percentage reward per staking period.
    pub staking_reward_rate: u128,
    pub tournament_entry_fee: u128,
}

/// What the game token is instantiated with; an absent setting takes its
/// default.
#[derive(Clone, Debug, PartialEq, Eq)]
pub struct InstantiateMsg {
    pub name: String,
    pub symbol: String,
    pub decimals: u8,
    pub mint_cap: Option<u128>,
    pub max_mint_per_tx: Option<u128>,
    pub breeding_cost: Option<u128>,
    pub feeding_cost: Option<u128>,
    pub staking_reward_rate: Option<u128>,
    pub tournament_entry_fee: Option<u128>,
}

/// The kinds of game mint.
#[derive(Clone, Debug, PartialEq, Eq)]
pub enum MintType {
    Gameplay { reason: String },
    Breeding { cat_id: String },
    Staking { duration: u64 },
    Tournament { tournament_id: String },
}

/// The kinds of game activity that cost tokens.
#[derive(Clone, Debug, PartialEq, Eq)]
pub enum ActivityType {
    CatFeeding { cat_id: String },
    CatBreeding { parent1: String, parent2: String },
    TournamentEntry { tournament_id: String },
    StakingReward { duration: u64 },
    TrainingSession { cat_id: String, skill: String },
}

/// Where a tournament stands.
#[derive(Clone, Copy, Debug, PartialEq, Eq, Structural)]
pub enum TournamentStatus {
    Upcoming,
    Active,
    Completed,
    Cancelled,
}

/// The queries of the game token.
#[derive(Clone, Debug, PartialEq, Eq)]
pub enum QueryMsg {
    Balance { address: String },
    TokenInfo {},
    Minter {},
    Allowance { owner: String, spender: String },
    AllAllowances { owner: String, start_after: Option<String>, limit: Option<u32> },
    AllAccounts { start_after: Option<String>, limit: Option<u32> },
    GameConfig {},
    MinterConfig {},
}

/// The state of the game token: its ledger, in which nothing is staked,
/// and its two configurations.
#[derive(Clone, Debug)]
pub struct GameToken {
    pub token: TokenInfo,
    pub ledger: Ledger,
    pub minter_config: MinterConfig,
    pub game_config: GameConfig,
}

pub const DEFAULT_MAX_MINT_PER_TX: u128 = 1000000;

pub const DEFAULT_BREEDING_COST: u128 = 100;

pub const DEFAULT_FEEDING_COST: u128 = 10;

pub const DEFAULT_STAKING_REWARD_RATE: u128 = 5;

pub const DEFAULT_TOURNAMENT_ENTRY_FEE: u128 = 50;

pub open spec fn or_default(v: Option<u128>, d: u128) -> u128 {
    match v {
        Some(x) => x,
        None => d,
    }
}

fn value_or(v: Option<u128>, d: u128) -> (r: u128)
    ensures
        r == or_default(v, d),
{
    match v {
        Some(x) => x,
        None => d,
    }
}

impl GameToken {
    pub open spec fn wf(&self) -> bool {
        &&& self.ledger.wf()
        &&& forall|a: Seq<char>| #[trigger] self.ledger.staked_of(a) == 0
    }

    /// `new` differs from `self` in the ledger at most.
    pub open spec fn same_but_ledger(&self, new: &GameToken) -> bool {
        &&& new.token == self.token
        &&& new.minter_config == self.minter_config
        &&& new.game_config == self.game_config
    }

    /// Why `sender` may not mint `amount` for gameplay, if it may not.
    pub open spec fn mint_for_game_refusal(&self, sender: Seq<char>, amount: int) -> Option<
        ContractError,
    > {
        let c = self.minter_config;
        if sender != c.owner@ {
            Some(ContractError::Unauthorized)
        } else if !c.can_mint_for_gameplay {
            Some(ContractError::GameplayMintingDisabled)
        } else if amount > c.max_mint_per_transaction {
            Some(ContractError::ExceedsMaxMint)
        } else if self.ledger.total_supply + amount > u128::MAX {
            Some(ContractError::Overflow)
        } else {
            None
        }
    }

    /// Why `sender` may not mint `amount` for breeding, if it may not.
    pub open spec fn mint_for_breeding_refusal(&self, sender: Seq<char>, amount: int) -> Option<
        ContractError,
    > {
        let c = self.minter_config;
        if sender != c.owner@ {
            Some(ContractError::Unauthorized)
        } else if !c.can_mint_for_breeding {
            Some(ContractError::BreedingMintingDisabled)
        } else if self.ledger.total_supply + amount > u128::MAX {
            Some(ContractError::Overflow)
        } else {
            None
        }
    }

    /// The instantiating `sender` becomes the minter and the owner of the
    /// configuration, with every kind of game mint enabled; the supply
    /// starts at zero.
    pub fn instantiate(sender: &String, msg: InstantiateMsg) -> (r: GameToken)
        ensures
            r.wf(),
            r.ledger.total_supply == 0,
            forall|a: Seq<char>| lookup(r.ledger.accounts@, a) is None,
            r.token.name == msg.name,
            r.token.symbol == msg.symbol,
            r.token.decimals == msg.decimals,
            r.token.mint matches Some(m) && m.minter@ == sender@ && m.cap == msg.mint_cap,
            r.minter_config.owner@ == sender@,
            r.minter_config.can_mint_for_gameplay,
            r.minter_config.can_mint_for_breeding,
            r.minter_config.can_mint_for_staking,
            r.minter_config.max_mint_per_transaction == or_default(
                msg.max_mint_per_tx,
                DEFAULT_MAX_MINT_PER_TX,
            ),
            r.game_config == (GameConfig {
                breeding_cost: or_default(msg.breeding_cost, DEFAULT_BREEDING_COST),
                feeding_cost: or_default(msg.feeding_cost, DEFAULT_FEEDING_COST),
                staking_reward_rate: or_default(msg.staking_reward_rate, DEFAULT_STAKING_REWARD_RATE),
                tournament_entry_fee: or_default(msg.tournament_entry_fee, DEFAULT_TOURNAMENT_ENTRY_FEE),
            }),
    {
        let ledger = Ledger::new();
        let minter_config = MinterConfig {
            owner: sender.clone(),
            can_mint_for_gameplay: true,
            can_mint_for_breeding: true,
            can_mint_for_staking: true,
            max_mint_per_transaction: value_or(msg.max_mint_per_tx, DEFAULT_MAX_MINT_PER_TX),
        };
        let game_config = GameConfig {
            breeding_cost: value_or(msg.breeding_cost, DEFAULT_BREEDING_COST),
            feeding_cost: value_or(msg.feeding_cost, DEFAULT_FEEDING_COST),
            staking_reward_rate: value_or(msg.staking_reward_rate, DEFAULT_STAKING_REWARD_RATE),
            tournament_entry_fee: value_or(msg.tournament_entry_fee, DEFAULT_TOURNAMENT_ENTRY_FEE),
        };
        let token = TokenInfo {
            name: msg.name,
            symbol: msg.symbol,
            decimals: msg.decimals,
            mint: Some(MinterResponse { minter: sender.clone(), cap: msg.mint_cap }),
        };
        GameToken { token, ledger, minter_config, game_config }
    }

    /// Adds `amount` to the balance of `recipient` and to the supply.
    fn mint_tokens(&mut self, recipient: &String, amount: u128) -> (r: Result<(), ContractError>)
        requires
            old(self).wf(),
        ensures
            final(self).wf(),
            r is Err <==> old(self).ledger.total_supply + amount > u128::MAX,
            r is Err ==> r == Err::<(), ContractError>(ContractError::Overflow) && *final(self)
                == *old(self),
            r is Ok ==> old(self).ledger.minted(&final(self).ledger, recipient@, amount as int)
                && old(self).same_but_ledger(final(self)),
    {
        let ghost before = self.ledger;
        let r = self.ledger.mint(recipient, amount);
        proof {
            assert forall|a: Seq<char>| #[trigger] self.ledger.staked_of(a) == 0 by {
                assert(before.staked_of(a) == 0);
                if a != recipient@ {
                    assert(lookup(self.ledger.accounts@, a) == lookup(before.accounts@, a));
                }
            }
        }
        r
    }

    /// Mints `amount` for `recipient` as a gameplay reward: the owner only,
    /// while gameplay minting is enabled, within the per-transaction limit.
    pub fn execute_mint_for_game(&mut self, sender: &String, recipient: &String, amount: u128) -> (r:
        Result<(), ContractError>)
        requires
            old(self).wf(),
        ensures
            final(self).wf(),
            match old(self).mint_for_game_refusal(sender@, amount as int) {
                Some(e) => r == Err::<(), ContractError>(e) && *final(self) == *old(self),
                None => r is Ok && old(self).ledger.minted(
                    &final(self).ledger,
                    recipient@,
                    amount as int,
                ) && old(self).same_but_ledger(final(self)),
            },
    {
        if *sender != self.minter_config.owner {
            return Err(ContractError::Unauthorized);
        }
        if !self.minter_config.can_mint_for_gameplay {
            return Err(ContractError::GameplayMintingDisabled);
        }
        if amount > self.minter_config.max_mint_per_transaction {
            return Err(ContractError::ExceedsMaxMint);
        }
        self.mint_tokens(recipient, amount)
    }

    /// Mints `amount` for `recipient` for a breeding: the owner only, while
    /// breeding minting is enabled.
    pub fn execute_mint_for_breeding(&mut self, sender: &String, recipient: &String, amount: u128) -> (r:
        Result<(), ContractError>)
        requires
            old(self).wf(),
        ensures
            final(self).wf(),
            match old(self).mint_for_breeding_refusal(sender@, amount as int) {
                Some(e) => r == Err::<(), ContractError>(e) && *final(self) == *old(self),
                None => r is Ok && old(self).ledger.minted(
                    &final(self).ledger,
                    recipient@,
                    amount as int,
                ) && old(self).same_but_ledger(final(self)),
            },
    {
        if *sender != self.minter_config.owner {
            return Err(ContractError::Unauthorized);
        }
        if !self.minter_config.can_mint_for_breeding {
            return Err(ContractError::BreedingMintingDisabled);
        }
        self.mint_tokens(recipient, amount)
    }

    /// Burns `amount` of the balance of `sender` to pay for an activity;
    /// refused with `InsufficientFunds` when the balance is smaller.
    pub fn execute_burn_for_activity(&mut self, sender: &String, amount: u128) -> (r: Result<
        (),
        ContractError,
    >)
        requires
            old(self).wf(),
        ensures
            final(self).wf(),
            r is Err <==> amount > old(self).ledger.balance_of(sender@),
            r is Err ==> r == Err::<(), ContractError>(ContractError::InsufficientFunds)
                && *final(self) == *old(self),
            r is Ok ==> old(self).ledger.burned(&final(self).ledger, sender@, amount as int)
                && old(self).same_but_ledger(final(self)),
    {
        let ghost before = self.ledger;
        assert(before.staked_of(sender@) == 0);
        let r = self.ledger.burn(sender, amount);
        proof {
            assert forall|a: Seq<char>| #[trigger] self.ledger.staked_of(a) == 0 by {
                assert(before.staked_of(a) == 0);
                if a != sender@ {
                    assert(lookup(self.ledger.accounts@, a) == lookup(before.accounts@, a));
                }
            }
        }
        r
    }

    /// Replaces each price that is given; the owner only.
    pub fn execute_update_game_config(
        &mut self,
        sender: &String,
        breeding_cost: Option<u128>,
        feeding_cost: Option<u128>,
        staking_reward_rate: Option<u128>,
        tournament_entry_fee: Option<u128>,
    ) -> (r: Result<(), ContractError>)
        requires
            old(self).wf(),
        ensures
            final(self).wf(),
            r is Err <==> sender@ != old(self).minter_config.owner@,
            r is Err ==> r == Err::<(), ContractError>(ContractError::Unauthorized) && *final(self)
                == *old(self),
            r is Ok ==> {
                let c = old(self).game_config;
                *final(self) == GameToken {
                    game_config: GameConfig {
                        breeding_cost: or_default(breeding_cost, c.breeding_cost),
                        feeding_cost: or_default(feeding_cost, c.feeding_cost),
                        staking_reward_rate: or_default(staking_reward_rate, c.staking_reward_rate),
                        tournament_entry_fee: or_default(tournament_entry_fee, c.tournament_entry_fee),
                    },
                    ..*old(self)
                }
            },
    {
        if *sender != self.minter_config.owner {
            return Err(ContractError::Unauthorized);
        }
        let c = self.game_config;
        self.game_config = GameConfig {
            breeding_cost: value_or(breeding_cost, c.breeding_cost),
            feeding_cost: value_or(feeding_cost, c.feeding_cost),
            staking_reward_rate: value_or(staking_reward_rate, c.staking_reward_rate),
            tournament_entry_fee: value_or(tournament_entry_fee, c.tournament_entry_fee),
        };
        Ok(())
    }

    /// Replaces each minting switch and the limit that are given; the owner
    /// only.
    pub fn execute_update_minter_config(
        &mut self,
        sender: &String,
        can_mint_for_gameplay: Option<bool>,
        can_mint_for_breeding: Option<bool>,
        can_mint_for_staking: Option<bool>,
        max_mint_per_transaction: Option<u128>,
    ) -> (r: Result<(), ContractError>)
        requires
            old(self).wf(),
        ensures
            final(self).wf(),
            r is Err <==> sender@ != old(self).minter_config.owner@,
            r is Err ==> r == Err::<(), ContractError>(ContractError::Unauthorized) && *final(self)
                == *old(self),
            r is Ok ==> {
                let c = old(self).minter_config;
                let n = final(self).minter_config;
                &&& final(self).token == old(self).token
                &&& final(self).ledger == old(self).ledger
                &&& final(self).game_config == old(self).game_config
                &&& n.owner == c.owner
                &&& n.can_mint_for_gameplay == match can_mint_for_gameplay {
                    Some(b) => b,
                    None => c.can_mint_for_gameplay,
                }
                &&& n.can_mint_for_breeding == match can_mint_for_breeding {
                    Some(b) => b,
                    None => c.can_mint_for_breeding,
                }
                &&& n.can_mint_for_staking == match can_mint_for_staking {
                    Some(b) => b,
                    None => c.can_mint_for_staking,
                }
                &&& n.max_mint_per_transaction == or_default(
                    max_mint_per_transaction,
                    c.max_mint_per_transaction,
                )
            },
    {
        if *sender != self.minter_config.owner {
            return Err(ContractError::Unauthorized);
        }
        if let Some(b) = can_mint_for_gameplay {
            self.minter_config.can_mint_for_gameplay = b;
        }
        if let Some(b) = can_mint_for_breeding {
            self.minter_config.can_mint_for_breeding = b;
        }
        if let Some(b) = can_mint_for_staking {
            self.minter_config.can_mint_for_staking = b;
        }
        if let Some(m) = max_mint_per_transaction {
            self.minter_config.max_mint_per_transaction = m;
        }
        Ok(())
    }
}

} // verus!
