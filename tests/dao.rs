use mwt_dao::batch::{MintRequest, SubOperation, TransferRequest};
use mwt_dao::error::ContractError;
use mwt_dao::governance::{ProposalStatus, VoteOption};
use mwt_dao::state::{Cw20Coin, DaoGovernanceConfig, DaoState, InstantiateMsg, MinterResponse, StakingConfig};

fn s(x: &str) -> String {
    x.to_string()
}

fn coin(address: &str, amount: u128) -> Cw20Coin {
    Cw20Coin { address: s(address), amount }
}

fn governance(threshold: u128, period: u64, quorum: u128) -> DaoGovernanceConfig {
    DaoGovernanceConfig {
        governance_contract: s("governance"),
        proposal_threshold: threshold,
        voting_period: period,
        quorum,
    }
}

fn msg_with(balances: Vec<Cw20Coin>, gov: Option<DaoGovernanceConfig>) -> InstantiateMsg {
    InstantiateMsg {
        name: s("MeowTopia DAO Token"),
        symbol: s("MWT"),
        decimals: 6,
        initial_balances: balances,
        mint: Some(MinterResponse { minter: s("creator"), cap: Some(10000000) }),
        dao_governance: gov,
        staking_config: None,
    }
}

fn state(balances: Vec<Cw20Coin>) -> DaoState {
    DaoState::instantiate(msg_with(balances, Some(governance(1000, 604800, 10000)))).unwrap()
}

fn sum_of_balances(st: &DaoState) -> u128 {
    st.ledger.accounts.iter().map(|a| a.balance).sum()
}

#[test]
fn test_instantiate() {
    let msg = InstantiateMsg {
        name: "MeowTopia DAO Token".to_string(),
        symbol: "MWT".to_string(),
        decimals: 6,
        initial_balances: vec![Cw20Coin { address: "creator".to_string(), amount: 1000000 }],
        mint: Some(MinterResponse { minter: "creator".to_string(), cap: Some(10000000) }),
        dao_governance: Some(DaoGovernanceConfig {
            governance_contract: "governance".to_string(),
            proposal_threshold: 1000,
            voting_period: 604800,
            quorum: 10000,
        }),
        staking_config: Some(StakingConfig {
            staking_contract: "staking".to_string(),
            reward_rate: 100,
            lock_period: 86400,
        }),
    };
    let st = DaoState::instantiate(msg).unwrap();
    assert_eq!(0, st.proposals.len());
    assert_eq!(st.ledger.total_supply, 1000000);
    assert_eq!(st.ledger.balance(&s("creator")), 1000000);
    assert!(!st.is_paused());
    assert!(st.is_well_formed());
}

#[test]
fn instantiate_refuses_repeated_address() {
    let r = DaoState::instantiate(msg_with(vec![coin("a", 1), coin("b", 2), coin("a", 3)], None));
    assert_eq!(r.unwrap_err(), ContractError::InvalidInput);
}

#[test]
fn instantiate_refuses_supply_above_cap() {
    let r = DaoState::instantiate(msg_with(vec![coin("a", 10000001)], None));
    assert_eq!(r.unwrap_err(), ContractError::InvalidInput);
}

#[test]
fn instantiate_refuses_supply_that_does_not_fit() {
    let r = DaoState::instantiate(msg_with(vec![coin("a", u128::MAX), coin("b", 1)], None));
    assert_eq!(r.unwrap_err(), ContractError::Overflow);
}

#[test]
fn supply_equals_sum_of_balances_after_each_operation() {
    let mut st = state(vec![coin("a", 500), coin("b", 300)]);
    assert_eq!(st.ledger.total_supply, sum_of_balances(&st));
    st.mint(&s("creator"), &s("c"), 200).unwrap();
    assert_eq!(st.ledger.total_supply, 1000);
    assert_eq!(st.ledger.total_supply, sum_of_balances(&st));
    st.burn(&s("a"), 100).unwrap();
    assert_eq!(st.ledger.total_supply, 900);
    assert_eq!(st.ledger.total_supply, sum_of_balances(&st));
    st.transfer(&s("b"), &s("d"), 250).unwrap();
    assert_eq!(st.ledger.balance(&s("b")), 50);
    assert_eq!(st.ledger.balance(&s("d")), 250);
    assert_eq!(st.ledger.total_supply, 900);
    assert_eq!(st.ledger.total_supply, sum_of_balances(&st));
    assert!(st.is_well_formed());
}

#[test]
fn burn_more_than_unstaked_fails() {
    let mut st = state(vec![coin("a", 100)]);
    st.stake(&s("a"), 60).unwrap();
    assert_eq!(st.burn(&s("a"), 50), Err(ContractError::InsufficientFunds));
    assert_eq!(st.burn(&s("a"), 40), Ok(()));
    assert_eq!(st.ledger.balance(&s("a")), 60);
}

#[test]
fn mint_refusals() {
    let mut st = state(vec![coin("a", 100)]);
    assert_eq!(st.mint(&s("a"), &s("a"), 1), Err(ContractError::Unauthorized));
    assert_eq!(st.mint(&s("creator"), &s("a"), 9999901), Err(ContractError::InvalidInput));
    assert_eq!(st.mint(&s("creator"), &s("a"), u128::MAX), Err(ContractError::Overflow));
    assert_eq!(st.mint(&s("creator"), &s("a"), 9999900), Ok(()));
    assert_eq!(st.ledger.total_supply, 10000000);
    let mut no_minter = state(vec![coin("a", 100)]);
    no_minter.token.mint = None;
    assert_eq!(no_minter.mint(&s("creator"), &s("a"), 1), Err(ContractError::Unauthorized));
}

#[test]
fn staked_balance_stays_within_balance() {
    let mut st = state(vec![coin("a", 100)]);
    assert_eq!(st.stake(&s("a"), 101), Err(ContractError::InsufficientFunds));
    st.stake(&s("a"), 70).unwrap();
    assert_eq!(st.transfer(&s("a"), &s("b"), 31), Err(ContractError::InsufficientFunds));
    st.transfer(&s("a"), &s("b"), 30).unwrap();
    let info = st.balance_info(&s("a"));
    assert_eq!(info.balance, 70);
    assert_eq!(info.staked_balance, 70);
    assert_eq!(info.available_balance, 0);
    assert!(info.staked_balance <= info.balance);
}

#[test]
fn unstake_more_than_staked_leaves_state_unchanged() {
    let mut st = state(vec![coin("a", 100)]);
    st.stake(&s("a"), 40).unwrap();
    let before = st.balance_info(&s("a"));
    let supply = st.ledger.total_supply;
    assert_eq!(st.unstake(&s("a"), 41), Err(ContractError::InsufficientFunds));
    assert_eq!(st.balance_info(&s("a")), before);
    assert_eq!(st.ledger.total_supply, supply);
}

#[test]
fn stake_then_unstake_scenario() {
    let mut st = state(vec![coin("a", 1000)]);
    assert_eq!(st.stake(&s("a"), 100), Ok(()));
    assert_eq!(st.unstake(&s("a"), 150), Err(ContractError::InsufficientFunds));
    assert_eq!(st.unstake(&s("a"), 100), Ok(()));
    assert_eq!(st.ledger.staked_balance(&s("a")), 0);
    assert_eq!(st.ledger.balance(&s("a")), 1000);
}

#[test]
fn claim_rewards_scenario() {
    let mut st = state(vec![coin("a", 1000)]);
    assert_eq!(st.claim_rewards(&s("a")), Err(ContractError::NoRewards));
    st.credit_rewards(&s("a"), 50).unwrap();
    assert_eq!(st.ledger.rewards(&s("a")), 50);
    assert_eq!(st.claim_rewards(&s("a")), Ok(50));
    assert_eq!(st.ledger.rewards(&s("a")), 0);
    assert_eq!(st.claim_rewards(&s("a")), Err(ContractError::NoRewards));
}

#[test]
fn credit_rewards_overflow() {
    let mut st = state(vec![coin("a", 1000)]);
    st.credit_rewards(&s("a"), u128::MAX).unwrap();
    assert_eq!(st.credit_rewards(&s("a"), 1), Err(ContractError::Overflow));
}

#[test]
fn pause_stops_transfer_and_send_only() {
    let mut st = state(vec![coin("a", 1000)]);
    st.pause(&s("governance")).unwrap();
    assert!(st.is_paused());
    assert_eq!(st.transfer(&s("a"), &s("b"), 10), Err(ContractError::ContractPaused));
    assert_eq!(st.send(&s("a"), &s("contract"), 10), Err(ContractError::ContractPaused));
    assert_eq!(st.require_not_paused(), Err(ContractError::ContractPaused));
    assert_eq!(st.burn(&s("a"), 10), Ok(()));
    assert_eq!(st.mint(&s("creator"), &s("a"), 10), Ok(()));
    assert_eq!(st.stake(&s("a"), 10), Ok(()));
    st.unpause(&s("governance")).unwrap();
    assert_eq!(st.transfer(&s("a"), &s("b"), 10), Ok(()));
    assert_eq!(st.send(&s("a"), &s("contract"), 10), Ok(()));
    assert_eq!(st.ledger.balance(&s("contract")), 10);
}

#[test]
fn administration_needs_the_authority() {
    let mut st = state(vec![coin("a", 1000)]);
    assert_eq!(st.pause(&s("a")), Err(ContractError::Unauthorized));
    assert_eq!(st.unpause(&s("a")), Err(ContractError::Unauthorized));
    assert_eq!(st.blacklist(&s("a"), &s("b")), Err(ContractError::Unauthorized));
    assert_eq!(st.unblacklist(&s("a"), &s("b")), Err(ContractError::Unauthorized));
    assert_eq!(
        st.update_governance_config(&s("a"), governance(1, 1, 1)),
        Err(ContractError::Unauthorized)
    );
    let staking = StakingConfig { staking_contract: s("staking"), reward_rate: 7, lock_period: 60 };
    assert_eq!(st.update_staking_config(&s("a"), staking.clone()), Err(ContractError::Unauthorized));
    assert_eq!(st.update_staking_config(&s("governance"), staking.clone()), Ok(()));
    assert_eq!(st.staking, Some(staking));
    assert_eq!(st.update_governance_config(&s("governance"), governance(5, 6, 7)), Ok(()));
    assert_eq!(st.governance, Some(governance(5, 6, 7)));
    assert!(!st.is_paused());

    let mut bare = DaoState::instantiate(msg_with(vec![coin("a", 1)], None)).unwrap();
    assert_eq!(bare.pause(&s("governance")), Err(ContractError::NotFound));
    assert_eq!(bare.require_authority(&s("governance")), Err(ContractError::NotFound));
}

#[test]
fn blacklist_then_unblacklist_restores_transfer() {
    let mut st = state(vec![coin("a", 1000)]);
    assert!(!st.is_blacklisted(&s("a")));
    st.blacklist(&s("governance"), &s("a")).unwrap();
    st.blacklist(&s("governance"), &s("a")).unwrap();
    assert!(st.is_blacklisted(&s("a")));
    assert_eq!(st.transfer(&s("a"), &s("b"), 10), Err(ContractError::BlacklistedSender));
    assert_eq!(st.transfer(&s("b"), &s("a"), 0), Ok(()));
    st.unblacklist(&s("governance"), &s("a")).unwrap();
    assert!(!st.is_blacklisted(&s("a")));
    assert_eq!(st.transfer(&s("a"), &s("b"), 10), Ok(()));
    assert_eq!(st.ledger.balance(&s("b")), 10);
}

#[test]
fn create_proposal_threshold_scenario() {
    let mut st = state(vec![coin("a", 1500), coin("b", 500)]);
    let id = st.create_proposal(&s("a"), s("title"), s("description"), 42, 1_700_000_000).unwrap();
    let p = st.proposal(id).unwrap();
    assert_eq!(p.status, ProposalStatus::Active);
    assert_eq!(p.proposer, s("a"));
    assert_eq!(p.amount, 42);
    assert_eq!(p.created_at, 1_700_000_000);
    assert_eq!(p.expires_at, p.created_at + 604800);
    assert_eq!(
        st.create_proposal(&s("b"), s("t"), s("d"), 1, 1_700_000_000),
        Err(ContractError::InsufficientBalance)
    );
}

#[test]
fn proposal_ids_are_unique_within_one_tick() {
    let mut st = state(vec![coin("a", 1500)]);
    let first = st.create_proposal(&s("a"), s("t1"), s("d1"), 0, 100).unwrap();
    let second = st.create_proposal(&s("a"), s("t2"), s("d2"), 0, 100).unwrap();
    assert!(first < second);
    assert_eq!(st.proposal(first).unwrap().title, s("t1"));
    assert_eq!(st.proposal(second).unwrap().title, s("t2"));
}

#[test]
fn create_proposal_refusals() {
    let mut bare = DaoState::instantiate(msg_with(vec![coin("a", 5000)], None)).unwrap();
    assert_eq!(bare.create_proposal(&s("a"), s("t"), s("d"), 0, 0), Err(ContractError::NotFound));
    let mut st = state(vec![coin("a", 5000)]);
    assert_eq!(st.create_proposal(&s("a"), s("t"), s("d"), 0, u64::MAX), Err(ContractError::Overflow));
}

#[test]
fn votes_are_weighted_by_current_balance() {
    let mut st = state(vec![coin("a", 1500), coin("b", 500)]);
    assert_eq!(st.vote(&s("a"), 7, VoteOption::Yes), Err(ContractError::NotFound));
    let id = st.create_proposal(&s("a"), s("t"), s("d"), 0, 10).unwrap();
    st.vote(&s("a"), id, VoteOption::Yes).unwrap();
    st.transfer(&s("a"), &s("b"), 500).unwrap();
    st.vote(&s("b"), id, VoteOption::No).unwrap();
    st.vote(&s("b"), id, VoteOption::Veto).unwrap();
    let votes = st.votes(id).unwrap();
    assert_eq!(votes.len(), 3);
    assert_eq!(votes[0].voter, s("a"));
    assert_eq!(votes[0].amount, 1500);
    assert_eq!(votes[1].amount, 1000);
    assert_eq!(votes[2].vote, VoteOption::Veto);
    assert_eq!(st.votes(id + 1).unwrap_err(), ContractError::NotFound);
}

#[test]
fn tally_passes_with_quorum_and_majority() {
    let mut st = state(vec![coin("a", 15000), coin("b", 5000)]);
    let id = st.create_proposal(&s("a"), s("t"), s("d"), 0, 10).unwrap();
    st.vote(&s("a"), id, VoteOption::Yes).unwrap();
    st.vote(&s("b"), id, VoteOption::No).unwrap();
    assert_eq!(st.tally(id, 10 + 604799), Err(ContractError::InvalidInput));
    assert_eq!(st.tally(id + 1, 10 + 604800), Err(ContractError::NotFound));
    assert_eq!(st.tally(id, 10 + 604800), Ok(ProposalStatus::Passed));
    assert_eq!(st.proposal(id).unwrap().status, ProposalStatus::Passed);
    assert_eq!(st.tally(id, 10 + 604800), Err(ContractError::InvalidInput));
}

#[test]
fn tally_rejects_without_quorum_or_majority() {
    let mut st = state(vec![coin("a", 9000), coin("b", 12000)]);
    let low = st.create_proposal(&s("a"), s("t"), s("d"), 0, 0).unwrap();
    st.vote(&s("a"), low, VoteOption::Yes).unwrap();
    assert_eq!(st.tally(low, 604800), Ok(ProposalStatus::Rejected));
    let tie = st.create_proposal(&s("a"), s("t"), s("d"), 0, 0).unwrap();
    st.vote(&s("b"), tie, VoteOption::Yes).unwrap();
    st.vote(&s("b"), tie, VoteOption::No).unwrap();
    assert_eq!(st.tally(tie, 604800), Ok(ProposalStatus::Rejected));
}

#[test]
fn tally_overflow() {
    let mut st = DaoState::instantiate(InstantiateMsg {
        mint: None,
        ..msg_with(vec![coin("a", u128::MAX)], Some(governance(1, 0, 1)))
    })
    .unwrap();
    let id = st.create_proposal(&s("a"), s("t"), s("d"), 0, 0).unwrap();
    st.vote(&s("a"), id, VoteOption::Yes).unwrap();
    st.vote(&s("a"), id, VoteOption::Yes).unwrap();
    assert_eq!(st.tally(id, 0), Err(ContractError::Overflow));
}

#[test]
fn proposals_are_paged_in_ascending_order() {
    let mut st = state(vec![coin("a", 5000)]);
    let mut ids = Vec::new();
    for k in 0..105u64 {
        ids.push(st.create_proposal(&s("a"), format!("t{}", k), s("d"), 0, k).unwrap());
    }
    let page = st.query_proposals(None, None);
    assert_eq!(page.len(), 30);
    assert_eq!(page[0].id, ids[0]);
    assert_eq!(page[29].id, ids[29]);
    let capped = st.query_proposals(None, Some(500));
    assert_eq!(capped.len(), 100);
    let after = st.query_proposals(Some(ids[9]), Some(3));
    let got: Vec<u64> = after.iter().map(|p| p.id).collect();
    assert_eq!(got, vec![ids[10], ids[11], ids[12]]);
    let tail = st.query_proposals(Some(ids[100]), None);
    assert_eq!(tail.len(), 4);
    assert_eq!(st.query_proposals(Some(ids[104]), None).len(), 0);
}

#[test]
fn batch_transfer_checks_the_total() {
    let mut st = state(vec![coin("a", 100)]);
    let transfers = vec![
        TransferRequest { recipient: s("b"), amount: 30 },
        TransferRequest { recipient: s("c"), amount: 50 },
    ];
    let batch = st.batch_transfer(&s("a"), &transfers).unwrap();
    assert_eq!(batch.total_amount, 80);
    assert_eq!(
        batch.operations,
        vec![
            SubOperation::Transfer { recipient: s("b"), amount: 30 },
            SubOperation::Transfer { recipient: s("c"), amount: 50 },
        ]
    );
    st.stake(&s("a"), 30).unwrap();
    assert_eq!(st.batch_transfer(&s("a"), &transfers), Err(ContractError::InsufficientFunds));
    let huge = vec![
        TransferRequest { recipient: s("b"), amount: u128::MAX },
        TransferRequest { recipient: s("c"), amount: 1 },
    ];
    assert_eq!(st.batch_transfer(&s("a"), &huge), Err(ContractError::Overflow));
    st.pause(&s("governance")).unwrap();
    assert_eq!(st.batch_transfer(&s("a"), &transfers), Err(ContractError::ContractPaused));
    assert_eq!(st.ledger.balance(&s("b")), 0);
}

#[test]
fn batch_mint_queues_each_entry() {
    let st = state(vec![]);
    let mints = vec![
        MintRequest { recipient: s("b"), amount: 3 },
        MintRequest { recipient: s("c"), amount: 4 },
    ];
    assert_eq!(
        st.batch_mint(&mints),
        vec![
            SubOperation::Mint { recipient: s("b"), amount: 3 },
            SubOperation::Mint { recipient: s("c"), amount: 4 },
        ]
    );
    assert!(st.batch_mint(&vec![]).is_empty());
}

#[test]
fn corrupt_state_is_detected() {
    let mut st = state(vec![coin("a", 100), coin("b", 50)]);
    assert!(st.is_well_formed());
    st.ledger.total_supply = 151;
    assert!(!st.ledger.is_well_formed());
    st.ledger.total_supply = 150;
    st.ledger.accounts[0].staked_balance = 101;
    assert!(!st.is_well_formed());
    st.ledger.accounts[0].staked_balance = 0;
    st.ledger.accounts[1].address = s("a");
    assert!(!st.is_well_formed());
    st.ledger.accounts[1].address = s("b");
    st.next_proposal_id = 0;
    st.proposals.clear();
    assert!(st.is_well_formed());
}
