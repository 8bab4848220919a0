use steptions::math::{collateral_for, normalize_amount, payoff_for, premium_for};
use steptions::{MyPriceFeed, OptionType, OptionsContract, OptionsError, PriceData};

#[test]
fn test_normalize_floors_to_one_unit() {
    assert_eq!(normalize_amount(10_000_000), 1);
    assert_eq!(normalize_amount(25_000_000), 2);
    // Sub-unit amounts still count as one whole unit.
    assert_eq!(normalize_amount(1), 1);
    assert_eq!(normalize_amount(9_999_999), 1);
}

#[test]
fn test_premium_formula() {
    // One unit at a $2100 strike: 2% of 2100_0000000 is 42_0000000.
    assert_eq!(premium_for(2100_0000000, 10_000_000), Ok(42_0000000));
    // Two units double the premium.
    assert_eq!(premium_for(2100_0000000, 20_000_000), Ok(84_0000000));
    // A sub-unit amount is charged the full per-unit premium.
    assert_eq!(premium_for(2100_0000000, 1), Ok(42_0000000));
}

#[test]
fn test_collateral_formula() {
    assert_eq!(collateral_for(2100_0000000, 10_000_000), Ok(2100_0000000));
    assert_eq!(collateral_for(2100_0000000, 5_000_000), Ok(1050_0000000));
    // Truncating division: a tiny notional rounds down to nothing.
    assert_eq!(collateral_for(3, 3), Ok(0));
}

#[test]
fn test_payoff_formula() {
    let call = OptionType::Call;
    let put = OptionType::Put;
    assert_eq!(payoff_for(call, 2100_0000000, 2200_0000000, 10_000_000), Ok(100_0000000));
    assert_eq!(payoff_for(call, 2100_0000000, 2000_0000000, 10_000_000), Ok(0));
    assert_eq!(payoff_for(call, 2100_0000000, 2100_0000000, 10_000_000), Ok(0));
    assert_eq!(payoff_for(put, 2100_0000000, 2000_0000000, 10_000_000), Ok(100_0000000));
    assert_eq!(payoff_for(put, 2100_0000000, 2200_0000000, 10_000_000), Ok(0));
    // Two units double the gap.
    assert_eq!(payoff_for(call, 2100_0000000, 2200_0000000, 20_000_000), Ok(200_0000000));
}

#[test]
fn test_premium_overflow_is_reported() {
    // strike * units leaves i128.
    assert_eq!(
        premium_for(i128::MAX, 20_000_000),
        Err(OptionsError::ArithmeticOverflow)
    );
    // strike * amount leaves i128 even though the premium chain fits.
    assert_eq!(
        collateral_for(1_000_000_000_000_000_000_000_000_000_000_0, 100_000_000),
        Err(OptionsError::ArithmeticOverflow)
    );
}

#[test]
fn test_buy_option_overflow_is_reported() {
    let mut contract = OptionsContract::new();
    let admin: u64 = 1;
    contract.initialize(admin).unwrap();
    let pool_id = contract
        .add_liquidity_pool(admin, 10, 11, 12, String::from("Pool"))
        .unwrap();
    contract.provide_liquidity(pool_id, 2, i128::MAX).unwrap();
    assert_eq!(
        contract.buy_option(pool_id, 3, OptionType::Call, i128::MAX, 86400, 20_000_000, 0),
        Err(OptionsError::ArithmeticOverflow)
    );
    // Nothing was committed: no option exists and nothing is locked.
    assert_eq!(contract.get_option_counter(), 0);
    assert_eq!(contract.get_pool_locked_collateral(pool_id), 0);
}

#[test]
fn test_exercise_overflow_leaves_option_live() {
    let mut contract = OptionsContract::new();
    let admin: u64 = 1;
    let buyer: u64 = 3;
    contract.initialize(admin).unwrap();
    let pool_id = contract
        .add_liquidity_pool(admin, 10, 11, 12, String::from("Pool"))
        .unwrap();
    contract.provide_liquidity(pool_id, 2, 1_000_000_000).unwrap();
    // Two units: the payoff multiplies the spot-strike gap by 2.
    let option_id = contract
        .buy_option(pool_id, buyer, OptionType::Call, 10_000_000, 86400, 20_000_000, 0)
        .unwrap();
    let absurd = Some(PriceData { price: i128::MAX, timestamp: 0 });
    assert_eq!(
        contract.exercise_option(buyer, option_id, 0, absurd),
        Err(OptionsError::ArithmeticOverflow)
    );
    // The failed exercise committed nothing; a sane quote still settles,
    // with the intrinsic 40_000_000 capped at the 20_000_000 collateral.
    assert_eq!(contract.get_option(option_id).unwrap().is_active, true);
    let quote = Some(PriceData { price: 30_000_000, timestamp: 0 });
    assert_eq!(contract.exercise_option(buyer, option_id, 0, quote), Ok(20_000_000));
}

#[test]
fn test_price_feed_stub() {
    let mut feed = MyPriceFeed::new();
    let asset: u64 = 11;
    assert_eq!(feed.lastprice(asset), None);
    assert_eq!(
        OptionsContract::get_price_from_feed(feed.lastprice(asset)),
        Err(OptionsError::InvalidPrice)
    );
    feed.set_price(PriceData { price: 2200_0000000, timestamp: 5 });
    let quote = feed.lastprice(asset);
    assert_eq!(quote, Some(PriceData { price: 2200_0000000, timestamp: 5 }));
    assert_eq!(OptionsContract::get_price_from_feed(quote), Ok(2200_0000000));
}

#[test]
fn test_exercise_through_feed() {
    let mut contract = OptionsContract::new();
    let mut feed = MyPriceFeed::new();
    let admin: u64 = 1;
    let buyer: u64 = 2;
    contract.initialize(admin).unwrap();
    let pool_id = contract
        .add_liquidity_pool(admin, 10, 11, 12, String::from("Pool"))
        .unwrap();
    contract.provide_liquidity(pool_id, 3, 50000_0000000).unwrap();
    let option_id = contract
        .buy_option(pool_id, buyer, OptionType::Call, 2100_0000000, 86400, 10_000_000, 0)
        .unwrap();
    feed.set_price(PriceData { price: 2200_0000000, timestamp: 3600 });
    let payoff = contract
        .exercise_option(buyer, option_id, 3600, feed.lastprice(11))
        .unwrap();
    assert_eq!(payoff, 100_0000000);
}
