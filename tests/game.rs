use mwt_dao::error::ContractError;
use mwt_dao::game::{GameConfig, GameToken, InstantiateMsg, TournamentStatus};

fn s(x: &str) -> String {
    x.to_string()
}

fn token() -> GameToken {
    GameToken::instantiate(
        &s("owner"),
        InstantiateMsg {
            name: s("Meowtopia Token"),
            symbol: s("MWT"),
            decimals: 6,
            mint_cap: Some(1_000_000_000),
            max_mint_per_tx: None,
            breeding_cost: None,
            feeding_cost: Some(12),
            staking_reward_rate: None,
            tournament_entry_fee: None,
        },
    )
}

#[test]
fn instantiate_takes_defaults() {
    let t = token();
    assert_eq!(t.ledger.total_supply, 0);
    assert_eq!(t.minter_config.owner, s("owner"));
    assert_eq!(t.minter_config.max_mint_per_transaction, 1000000);
    assert!(t.minter_config.can_mint_for_gameplay);
    assert!(t.minter_config.can_mint_for_breeding);
    assert!(t.minter_config.can_mint_for_staking);
    assert_eq!(
        t.game_config,
        GameConfig { breeding_cost: 100, feeding_cost: 12, staking_reward_rate: 5, tournament_entry_fee: 50 }
    );
    assert_eq!(t.token.mint.as_ref().unwrap().minter, s("owner"));
    assert_eq!(t.token.mint.as_ref().unwrap().cap, Some(1_000_000_000));
    assert!(t.is_well_formed());
}

#[test]
fn mint_for_game_checks_owner_switch_and_limit() {
    let mut t = token();
    assert_eq!(t.execute_mint_for_game(&s("player"), &s("player"), 10), Err(ContractError::Unauthorized));
    assert_eq!(t.execute_mint_for_game(&s("owner"), &s("player"), 1000001), Err(ContractError::ExceedsMaxMint));
    assert_eq!(t.execute_mint_for_game(&s("owner"), &s("player"), 1000000), Ok(()));
    assert_eq!(t.ledger.balance(&s("player")), 1000000);
    assert_eq!(t.ledger.total_supply, 1000000);
    t.execute_update_minter_config(&s("owner"), Some(false), None, None, None).unwrap();
    assert_eq!(
        t.execute_mint_for_game(&s("owner"), &s("player"), 1),
        Err(ContractError::GameplayMintingDisabled)
    );
}

#[test]
fn mint_for_breeding_checks_owner_and_switch() {
    let mut t = token();
    assert_eq!(t.execute_mint_for_breeding(&s("x"), &s("x"), 5), Err(ContractError::Unauthorized));
    assert_eq!(t.execute_mint_for_breeding(&s("owner"), &s("breeder"), 5_000_000), Ok(()));
    assert_eq!(t.ledger.balance(&s("breeder")), 5_000_000);
    t.execute_update_minter_config(&s("owner"), None, Some(false), None, None).unwrap();
    assert_eq!(
        t.execute_mint_for_breeding(&s("owner"), &s("breeder"), 1),
        Err(ContractError::BreedingMintingDisabled)
    );
}

#[test]
fn mint_overflow_is_refused() {
    let mut t = token();
    t.execute_update_minter_config(&s("owner"), None, None, None, Some(u128::MAX)).unwrap();
    t.execute_mint_for_game(&s("owner"), &s("p"), u128::MAX).unwrap();
    assert_eq!(t.execute_mint_for_game(&s("owner"), &s("p"), 1), Err(ContractError::Overflow));
    assert_eq!(t.execute_mint_for_breeding(&s("owner"), &s("p"), 1), Err(ContractError::Overflow));
}

#[test]
fn burn_for_activity() {
    let mut t = token();
    t.execute_mint_for_game(&s("owner"), &s("p"), 100).unwrap();
    assert_eq!(t.execute_burn_for_activity(&s("p"), 101), Err(ContractError::InsufficientFunds));
    assert_eq!(t.execute_burn_for_activity(&s("q"), 1), Err(ContractError::InsufficientFunds));
    assert_eq!(t.execute_burn_for_activity(&s("p"), 40), Ok(()));
    assert_eq!(t.ledger.balance(&s("p")), 60);
    assert_eq!(t.ledger.total_supply, 60);
}

#[test]
fn update_game_config_replaces_given_prices() {
    let mut t = token();
    assert_eq!(
        t.execute_update_game_config(&s("p"), Some(1), None, None, None),
        Err(ContractError::Unauthorized)
    );
    t.execute_update_game_config(&s("owner"), Some(1), None, Some(9), None).unwrap();
    assert_eq!(
        t.game_config,
        GameConfig { breeding_cost: 1, feeding_cost: 12, staking_reward_rate: 9, tournament_entry_fee: 50 }
    );
}

#[test]
fn update_minter_config_replaces_given_settings() {
    let mut t = token();
    assert_eq!(
        t.execute_update_minter_config(&s("p"), Some(false), None, None, None),
        Err(ContractError::Unauthorized)
    );
    t.execute_update_minter_config(&s("owner"), None, None, Some(false), Some(7)).unwrap();
    assert!(t.minter_config.can_mint_for_gameplay);
    assert!(t.minter_config.can_mint_for_breeding);
    assert!(!t.minter_config.can_mint_for_staking);
    assert_eq!(t.minter_config.max_mint_per_transaction, 7);
    assert_eq!(t.minter_config.owner, s("owner"));
}

#[test]
fn staked_game_ledger_is_not_well_formed() {
    let mut t = token();
    t.execute_mint_for_game(&s("owner"), &s("p"), 100).unwrap();
    assert!(t.is_well_formed());
    t.ledger.accounts[0].staked_balance = 1;
    assert!(!t.is_well_formed());
    assert_ne!(TournamentStatus::Upcoming, TournamentStatus::Active);
}
