use krypto_pallets::kryptokurrency::{AccountData, Config, GenesisConfig, GenesisError, Pallet};

fn genesis(balances: Vec<(u64, u128)>, max_token_supply: Option<u128>) -> GenesisConfig {
    GenesisConfig { balances, max_token_supply }
}

fn rejection(balances: Vec<(u64, u128)>, max: Option<u128>, config: &Config) -> Option<GenesisError> {
    genesis(balances, max).build(config).err()
}

#[test]
fn account_data_sums_free_and_locked() {
    let data = AccountData { free: 3, locked: 4 };
    assert_eq!(data.usable(), 3);
    assert_eq!(data.locked(), 4);
    assert_eq!(data.total(), 7);
}

#[test]
fn account_data_total_stops_at_the_largest_balance() {
    let data = AccountData { free: u128::MAX - 1, locked: 5 };
    assert_eq!(data.total(), u128::MAX);
    assert_eq!(data.usable(), u128::MAX - 1);
}

#[test]
fn account_data_default_holds_nothing() {
    assert_eq!(AccountData::default(), AccountData { free: 0, locked: 0 });
}

#[test]
fn new_pallet_has_no_supply_set() {
    let pallet = Pallet::new(&Config { max_token_supply: 1000 });
    assert_eq!(pallet.total_issuance(), None);
    assert_eq!(pallet.account_of(&1), None);
    assert_eq!(pallet.max_token_supply(), 1000);
}

#[test]
fn default_genesis_takes_the_configured_maximum() {
    let genesis = GenesisConfig::default(&Config { max_token_supply: 1000 });
    assert!(genesis.balances.is_empty());
    assert_eq!(genesis.max_token_supply, Some(1000));
}

#[test]
fn default_genesis_leaves_out_a_maximum_of_zero() {
    let genesis = GenesisConfig::default(&Config { max_token_supply: 0 });
    assert!(genesis.balances.is_empty());
    assert_eq!(genesis.max_token_supply, None);
}

#[test]
fn default_genesis_builds_an_empty_ledger() {
    let config = Config { max_token_supply: 1000 };
    let pallet = GenesisConfig::default(&config).build(&config).unwrap();
    assert_eq!(pallet.total_issuance(), Some(0));
    assert_eq!(pallet.account_of(&1), None);
}

#[test]
fn genesis_endows_the_accounts() {
    let config = Config { max_token_supply: 1000 };
    let pallet = genesis(vec![(1, 100), (2, 250), (7, 0)], Some(500)).build(&config).unwrap();
    assert_eq!(pallet.account_of(&1), Some(AccountData { free: 100, locked: 0 }));
    assert_eq!(pallet.account_of(&2), Some(AccountData { free: 250, locked: 0 }));
    assert_eq!(pallet.account_of(&7), Some(AccountData { free: 0, locked: 0 }));
    assert_eq!(pallet.account_of(&3), None);
    assert_eq!(pallet.total_issuance(), Some(350));
    assert_eq!(pallet.max_token_supply(), 1000);
}

#[test]
fn genesis_supply_is_the_sum_of_the_free_funds() {
    let config = Config { max_token_supply: 10_000 };
    let balances = vec![(5, 1), (4, 20), (3, 300), (2, 4000)];
    let pallet = genesis(balances.clone(), None).build(&config).unwrap();
    let sum: u128 = balances.iter().map(|(who, _)| pallet.account_of(who).unwrap().free).sum();
    assert_eq!(sum, 4321);
    assert_eq!(pallet.total_issuance(), Some(4321));
}

#[test]
fn genesis_accepts_a_sum_at_the_limit() {
    let config = Config { max_token_supply: 1 };
    let pallet = genesis(vec![(1, 600), (2, 400)], Some(1000)).build(&config).unwrap();
    assert_eq!(pallet.total_issuance(), Some(1000));
}

#[test]
fn genesis_rejects_a_sum_beyond_the_limit() {
    let config = Config { max_token_supply: 5000 };
    assert_eq!(
        rejection(vec![(1, 600), (2, 401)], Some(1000), &config),
        Some(GenesisError::TotalExceedsMaxTokenSupply)
    );
    assert_eq!(
        rejection(vec![(2, 401), (1, 600)], Some(1000), &config),
        Some(GenesisError::TotalExceedsMaxTokenSupply)
    );
}

#[test]
fn genesis_rejects_a_sum_beyond_the_limit_in_every_order() {
    let config = Config { max_token_supply: 10 };
    let orders: [[(u64, u128); 3]; 6] = [
        [(1, 5), (2, 5), (3, 1)],
        [(1, 5), (3, 1), (2, 5)],
        [(2, 5), (1, 5), (3, 1)],
        [(2, 5), (3, 1), (1, 5)],
        [(3, 1), (1, 5), (2, 5)],
        [(3, 1), (2, 5), (1, 5)],
    ];
    for order in orders {
        assert_eq!(
            rejection(order.to_vec(), None, &config),
            Some(GenesisError::TotalExceedsMaxTokenSupply)
        );
    }
}

#[test]
fn genesis_without_a_limit_of_its_own_takes_the_configured_maximum() {
    let config = Config { max_token_supply: 1000 };
    assert_eq!(rejection(vec![(1, 600), (2, 400)], None, &config), None);
    assert_eq!(
        rejection(vec![(1, 600), (2, 401)], None, &config),
        Some(GenesisError::TotalExceedsMaxTokenSupply)
    );
    let nothing = Config { max_token_supply: 0 };
    assert_eq!(rejection(vec![], None, &nothing), None);
    assert_eq!(rejection(vec![(1, 0)], None, &nothing), None);
    assert_eq!(
        rejection(vec![(1, 1)], None, &nothing),
        Some(GenesisError::TotalExceedsMaxTokenSupply)
    );
}

#[test]
fn genesis_rejects_a_sum_that_no_balance_can_hold() {
    let config = Config { max_token_supply: u128::MAX };
    assert_eq!(
        rejection(vec![(1, u128::MAX), (2, 1)], Some(u128::MAX), &config),
        Some(GenesisError::TotalExceedsMaxTokenSupply)
    );
    assert_eq!(
        rejection(vec![(2, 1), (1, u128::MAX), (3, 0)], None, &config),
        Some(GenesisError::TotalExceedsMaxTokenSupply)
    );
    assert_eq!(rejection(vec![(1, u128::MAX), (2, 0)], None, &config), None);
}

#[test]
fn genesis_rejects_a_duplicate_account() {
    let config = Config { max_token_supply: 1000 };
    assert_eq!(
        rejection(vec![(1, 10), (2, 20), (1, 30)], None, &config),
        Some(GenesisError::DuplicateAccounts)
    );
    assert_eq!(
        rejection(vec![(1, 10), (1, 10)], None, &config),
        Some(GenesisError::DuplicateAccounts)
    );
}

#[test]
fn genesis_rejects_a_duplicate_account_in_every_order() {
    let config = Config { max_token_supply: 1000 };
    let orders: [[(u64, u128); 3]; 6] = [
        [(1, 10), (2, 20), (1, 30)],
        [(1, 10), (1, 30), (2, 20)],
        [(2, 20), (1, 10), (1, 30)],
        [(2, 20), (1, 30), (1, 10)],
        [(1, 30), (1, 10), (2, 20)],
        [(1, 30), (2, 20), (1, 10)],
    ];
    for order in orders {
        assert_eq!(rejection(order.to_vec(), None, &config), Some(GenesisError::DuplicateAccounts));
    }
}

#[test]
fn genesis_reports_a_duplicate_before_the_sum() {
    let config = Config { max_token_supply: 10 };
    assert_eq!(
        rejection(vec![(1, 600), (1, 600)], None, &config),
        Some(GenesisError::DuplicateAccounts)
    );
    assert_eq!(
        rejection(vec![(1, u128::MAX), (2, 5), (1, u128::MAX)], Some(3), &config),
        Some(GenesisError::DuplicateAccounts)
    );
}

#[test]
fn has_duplicate_accounts_looks_at_the_accounts_only() {
    assert!(!genesis(vec![], None).has_duplicate_accounts());
    assert!(!genesis(vec![(1, 5), (2, 5), (3, 5)], None).has_duplicate_accounts());
    assert!(genesis(vec![(1, 5), (2, 6), (3, 7), (2, 8)], None).has_duplicate_accounts());
}

#[test]
fn total_at_genesis_is_the_sum_where_it_fits() {
    assert_eq!(genesis(vec![], None).total_at_genesis(), Some(0));
    assert_eq!(genesis(vec![(1, 5), (2, 6), (3, 7)], None).total_at_genesis(), Some(18));
    assert_eq!(genesis(vec![(1, u128::MAX - 1), (2, 1)], None).total_at_genesis(), Some(u128::MAX));
    assert_eq!(genesis(vec![(1, u128::MAX - 1), (2, 2)], None).total_at_genesis(), None);
}
