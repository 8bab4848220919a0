use steptions::{OptionType, OptionsContract, OptionsError};

fn setup_pool(contract: &mut OptionsContract, admin: u64) -> u64 {
    contract.initialize(admin).unwrap();
    contract
        .add_liquidity_pool(admin, 10, 11, 12, String::from("BTC/USDC Pool"))
        .unwrap()
}

#[test]
fn test_provide_liquidity() {
    let mut contract = OptionsContract::new();
    let admin: u64 = 1;
    let provider: u64 = 2;
    let pool_id = setup_pool(&mut contract, admin);
    let amount: i128 = 1000;
    let shares = contract.provide_liquidity(pool_id, provider, amount).unwrap();
    // For the first provider, shares equal the amount (1:1 ratio).
    assert_eq!(shares, amount);
    assert_eq!(contract.get_pool_total_liquidity(pool_id), amount);
    assert_eq!(contract.get_pool_total_lp_shares(pool_id), amount);
    assert_eq!(contract.get_pool_lp_shares(pool_id, provider), amount);
}

#[test]
fn test_first_deposit_bootstraps_one_to_one() {
    let mut contract = OptionsContract::new();
    let admin: u64 = 1;
    let provider: u64 = 2;
    let pool_id = setup_pool(&mut contract, admin);
    assert_eq!(contract.get_pool_total_lp_shares(pool_id), 0);
    let shares = contract.provide_liquidity(pool_id, provider, 123456789).unwrap();
    assert_eq!(shares, 123456789);
}

#[test]
fn test_second_deposit_pro_rata() {
    let mut contract = OptionsContract::new();
    let admin: u64 = 1;
    let pool_id = setup_pool(&mut contract, admin);
    contract.provide_liquidity(pool_id, 2, 1000).unwrap();
    // Pool value per share is unchanged, so a second deposit also buys
    // floor(500 * 1000 / 1000) = 500 shares.
    let shares = contract.provide_liquidity(pool_id, 3, 500).unwrap();
    assert_eq!(shares, 500);
    assert_eq!(contract.get_pool_total_lp_shares(pool_id), 1500);
    assert_eq!(contract.get_pool_total_liquidity(pool_id), 1500);
}

#[test]
fn test_deposit_withdraw_roundtrip() {
    let mut contract = OptionsContract::new();
    let admin: u64 = 1;
    let provider: u64 = 2;
    let pool_id = setup_pool(&mut contract, admin);
    let amount: i128 = 1000;
    let shares = contract.provide_liquidity(pool_id, provider, amount).unwrap();
    // Redeeming every share issued by a deposit into a fresh pool pays
    // back exactly the deposit.
    let paid = contract.withdraw_liquidity(pool_id, provider, shares).unwrap();
    assert_eq!(paid, amount);
    assert_eq!(contract.get_pool_total_liquidity(pool_id), 0);
    assert_eq!(contract.get_pool_total_lp_shares(pool_id), 0);
    assert_eq!(contract.get_pool_lp_shares(pool_id, provider), 0);
}

#[test]
fn test_partial_withdraw() {
    let mut contract = OptionsContract::new();
    let admin: u64 = 1;
    let provider: u64 = 2;
    let pool_id = setup_pool(&mut contract, admin);
    let shares = contract.provide_liquidity(pool_id, provider, 1000).unwrap();
    let withdrawn = contract.withdraw_liquidity(pool_id, provider, shares / 2).unwrap();
    assert_eq!(withdrawn, 500);
    assert_eq!(contract.get_pool_lp_shares(pool_id, provider), 500);
    assert_eq!(contract.get_pool_total_liquidity(pool_id), 500);
}

#[test]
fn test_withdraw_insufficient_shares() {
    let mut contract = OptionsContract::new();
    let admin: u64 = 1;
    let provider: u64 = 2;
    let pool_id = setup_pool(&mut contract, admin);
    contract.provide_liquidity(pool_id, provider, 1000).unwrap();
    assert_eq!(
        contract.withdraw_liquidity(pool_id, provider, 1001),
        Err(OptionsError::InsufficientShares)
    );
    assert_eq!(
        contract.withdraw_liquidity(pool_id, 9, 1),
        Err(OptionsError::InsufficientShares)
    );
}

#[test]
fn test_withdraw_capped_by_locked_collateral() {
    let mut contract = OptionsContract::new();
    let admin: u64 = 1;
    let provider: u64 = 2;
    let buyer: u64 = 3;
    let pool_id = setup_pool(&mut contract, admin);
    let shares = contract.provide_liquidity(pool_id, provider, 2100_0000000).unwrap();
    // The option locks the entire deposit as collateral; its premium joins
    // the pool's liquidity.
    contract
        .buy_option(pool_id, buyer, OptionType::Call, 2100_0000000, 86400, 10_000_000, 0)
        .unwrap();
    assert_eq!(contract.get_pool_locked_collateral(pool_id), 2100_0000000);
    assert_eq!(contract.get_pool_total_liquidity(pool_id), 2142_0000000);
    // The provider holds every share, yet the pro-rata amount exceeds the
    // unlocked portion, so the withdrawal is rejected.
    assert_eq!(
        contract.withdraw_liquidity(pool_id, provider, shares),
        Err(OptionsError::InsufficientLiquidity)
    );
    // Only the unlocked premium is reachable: one share's pro-rata slice,
    // floor(1 * 2142_0000000 / 2100_0000000) = 1, fits under it.
    assert_eq!(contract.withdraw_liquidity(pool_id, provider, 1), Ok(1));
}

#[test]
fn test_invalid_amounts() {
    let mut contract = OptionsContract::new();
    let admin: u64 = 1;
    let pool_id = setup_pool(&mut contract, admin);
    assert_eq!(contract.provide_liquidity(pool_id, 2, 0), Err(OptionsError::InvalidAmount));
    assert_eq!(contract.provide_liquidity(pool_id, 2, -5), Err(OptionsError::InvalidAmount));
    assert_eq!(contract.withdraw_liquidity(pool_id, 2, 0), Err(OptionsError::InvalidAmount));
    assert_eq!(contract.withdraw_liquidity(pool_id, 2, -5), Err(OptionsError::InvalidAmount));
    contract.provide_liquidity(pool_id, 2, 1000).unwrap();
    assert_eq!(
        contract.buy_option(pool_id, 3, OptionType::Call, 0, 86400, 10_000_000, 0),
        Err(OptionsError::InvalidAmount)
    );
    assert_eq!(
        contract.buy_option(pool_id, 3, OptionType::Call, 2100_0000000, 86400, 0, 0),
        Err(OptionsError::InvalidAmount)
    );
}

#[test]
fn test_pool_guards() {
    let mut contract = OptionsContract::new();
    let admin: u64 = 1;
    // Admin operations before initialization are rejected.
    assert_eq!(
        contract.add_liquidity_pool(admin, 10, 11, 12, String::from("Pool")),
        Err(OptionsError::NotInitialized)
    );
    assert_eq!(contract.get_admin(), Err(OptionsError::NotInitialized));
    let pool_id = setup_pool(&mut contract, admin);
    // Only the admin may manage pools.
    assert_eq!(
        contract.add_liquidity_pool(7, 20, 21, 22, String::from("Pool")),
        Err(OptionsError::Unauthorized)
    );
    assert_eq!(contract.set_pool_status(7, pool_id, false), Err(OptionsError::Unauthorized));
    assert_eq!(contract.update_pool_price_feed(7, pool_id, 30), Err(OptionsError::Unauthorized));
    // Unknown pools are reported as such.
    assert_eq!(contract.get_pool(5).err().unwrap(), OptionsError::PoolNotFound);
    assert_eq!(contract.provide_liquidity(5, 2, 100), Err(OptionsError::PoolNotFound));
    assert_eq!(contract.withdraw_liquidity(5, 2, 100), Err(OptionsError::PoolNotFound));
    assert_eq!(
        contract.buy_option(5, 3, OptionType::Call, 1, 86400, 1, 0),
        Err(OptionsError::PoolNotFound)
    );
    assert_eq!(contract.get_pool_by_assets(99, 98), Err(OptionsError::PoolNotFound));
    // A paused pool takes no deposits or purchases, but never freezes
    // depositors' funds: withdrawals still run.
    contract.provide_liquidity(pool_id, 2, 1000).unwrap();
    contract.set_pool_status(admin, pool_id, false).unwrap();
    assert_eq!(contract.provide_liquidity(pool_id, 2, 100), Err(OptionsError::PoolNotActive));
    assert_eq!(
        contract.buy_option(pool_id, 3, OptionType::Call, 1, 86400, 1, 0),
        Err(OptionsError::PoolNotActive)
    );
    assert_eq!(contract.withdraw_liquidity(pool_id, 2, 100), Ok(100));
    assert_eq!(contract.get_pool_total_liquidity(pool_id), 900);
}

#[test]
fn test_buy_option_guards() {
    let mut contract = OptionsContract::new();
    let admin: u64 = 1;
    let buyer: u64 = 3;
    let pool_id = setup_pool(&mut contract, admin);
    contract.provide_liquidity(pool_id, 2, 1000).unwrap();
    // A past (or present) expiry is rejected before anything else about
    // the order is examined.
    assert_eq!(
        contract.buy_option(pool_id, buyer, OptionType::Call, 2100_0000000, 100, 10_000_000, 100),
        Err(OptionsError::OptionExpired)
    );
    // Collateral beyond the pool's unlocked liquidity is rejected.
    assert_eq!(
        contract.buy_option(pool_id, buyer, OptionType::Call, 2100_0000000, 86400, 10_000_000, 0),
        Err(OptionsError::InsufficientLiquidity)
    );
    assert_eq!(contract.get_option(0).err().unwrap(), OptionsError::OptionNotFound);
}

#[test]
fn test_get_pool_by_assets() {
    let mut contract = OptionsContract::new();
    let admin: u64 = 1;
    contract.initialize(admin).unwrap();
    let a = contract.add_liquidity_pool(admin, 10, 11, 12, String::from("A")).unwrap();
    let b = contract.add_liquidity_pool(admin, 10, 13, 12, String::from("B")).unwrap();
    assert_eq!(contract.get_pool_by_assets(10, 11).unwrap(), a);
    assert_eq!(contract.get_pool_by_assets(10, 13).unwrap(), b);
    assert_eq!(contract.get_pool_by_assets(13, 10), Err(OptionsError::PoolNotFound));
}

#[test]
fn test_update_pool_price_feed() {
    let mut contract = OptionsContract::new();
    let admin: u64 = 1;
    let pool_id = setup_pool(&mut contract, admin);
    assert_eq!(contract.get_pool(pool_id).unwrap().price_feed, 12);
    contract.update_pool_price_feed(admin, pool_id, 77).unwrap();
    assert_eq!(contract.get_pool(pool_id).unwrap().price_feed, 77);
}

#[test]
fn test_shares_isolated_per_pool_and_provider() {
    let mut contract = OptionsContract::new();
    let admin: u64 = 1;
    contract.initialize(admin).unwrap();
    let a = contract.add_liquidity_pool(admin, 10, 11, 12, String::from("A")).unwrap();
    let b = contract.add_liquidity_pool(admin, 10, 13, 12, String::from("B")).unwrap();
    contract.provide_liquidity(a, 2, 100).unwrap();
    contract.provide_liquidity(b, 2, 250).unwrap();
    contract.provide_liquidity(a, 3, 40).unwrap();
    assert_eq!(contract.get_pool_lp_shares(a, 2), 100);
    assert_eq!(contract.get_pool_lp_shares(b, 2), 250);
    assert_eq!(contract.get_pool_lp_shares(a, 3), 40);
    assert_eq!(contract.get_pool_lp_shares(b, 3), 0);
    assert_eq!(contract.get_pool_total_lp_shares(a), 140);
    assert_eq!(contract.get_pool_total_lp_shares(b), 250);
}

#[test]
fn test_premium_accrues_to_lp_yield() {
    let mut contract = OptionsContract::new();
    let admin: u64 = 1;
    let provider: u64 = 2;
    let buyer: u64 = 3;
    let pool_id = setup_pool(&mut contract, admin);
    let shares = contract.provide_liquidity(pool_id, provider, 1000_0000000).unwrap();
    // Selling an option adds its premium (2% of the $100 strike) to the
    // pool's liquidity without minting shares.
    let option_id = contract
        .buy_option(pool_id, buyer, OptionType::Call, 100_0000000, 86400, 10_000_000, 0)
        .unwrap();
    assert_eq!(contract.get_pool_total_liquidity(pool_id), 1002_0000000);
    assert_eq!(contract.get_pool_total_lp_shares(pool_id), 1000_0000000);
    // Once the option finishes worthless, the sole provider redeems every
    // share for the deposit plus the retained premium.
    contract.expire_option(option_id, 86401).unwrap();
    let paid = contract.withdraw_liquidity(pool_id, provider, shares).unwrap();
    assert_eq!(paid, 1002_0000000);
    assert_eq!(contract.get_pool_total_liquidity(pool_id), 0);
}
