use token_lending::decimal::Decimal;
use token_lending::error::LendingError;
use token_lending::fees::ReserveFees;
use token_lending::last_update::LastUpdate;
use token_lending::lending::{deposit_reserve_liquidity, redeem_reserve_collateral};
use token_lending::oracle::{select_price, OraclePrice};
use token_lending::rate::Rate;
use token_lending::refresh::refresh_reserve;
use token_lending::reserve::{
    amount_for_value, decimals_factor, market_value, Reserve, ReserveCollateral, ReserveConfig,
    ReserveLiquidity, SLOTS_PER_YEAR,
};

const WAD: u128 = 1_000_000_000_000_000_000;

fn config() -> ReserveConfig {
    ReserveConfig {
        optimal_utilization_rate: 80,
        loan_to_value_ratio: 50,
        liquidation_bonus: 5,
        liquidation_threshold: 55,
        min_borrow_rate: 0,
        optimal_borrow_rate: 4,
        max_borrow_rate: 30,
        fees: ReserveFees {
            borrow_fee_wad: 100_000_000_000,
            flash_loan_fee_wad: 3_000_000_000_000_000,
            host_fee_percentage: 20,
        },
        deposit_limit: u64::MAX,
        borrow_limit: u64::MAX,
    }
}

fn reserve(available: u64, borrowed: u64, supply: u64) -> Reserve {
    Reserve {
        last_update: LastUpdate { slot: 1, stale: false },
        liquidity: ReserveLiquidity {
            mint_decimals: 6,
            available_amount: available,
            borrowed_amount_wads: Decimal::from_u64(borrowed),
            cumulative_borrow_rate_wads: Decimal::one(),
            market_price: Decimal::one(),
        },
        collateral: ReserveCollateral { mint_total_supply: supply },
        config: config(),
    }
}

fn price(value: u64, published_slot: u64) -> OraclePrice {
    OraclePrice { price: Decimal::from_u64(value), confidence: 0, published_slot }
}

#[test]
fn config_validation() {
    assert_eq!(config().validate(), Ok(()));
    let broken: [fn(&mut ReserveConfig); 9] = [
        |c| c.optimal_utilization_rate = 101,
        |c| c.loan_to_value_ratio = 100,
        |c| c.liquidation_bonus = 101,
        |c| c.liquidation_threshold = 50,
        |c| c.liquidation_threshold = 101,
        |c| c.min_borrow_rate = 5,
        |c| c.max_borrow_rate = 3,
        |c| c.fees.borrow_fee_wad = 1_000_000_000_000_000_000,
        |c| c.fees.host_fee_percentage = 101,
    ];
    for change in broken {
        let mut c = config();
        change(&mut c);
        assert_eq!(c.validate(), Err(LendingError::InvalidConfig));
    }
    let mut c = config();
    c.fees.flash_loan_fee_wad = 1_000_000_000_000_000_000;
    assert_eq!(c.validate(), Err(LendingError::InvalidConfig));
}

#[test]
fn powers_of_ten() {
    assert_eq!(decimals_factor(0), Ok(1));
    assert_eq!(decimals_factor(6), Ok(1_000_000));
    assert_eq!(decimals_factor(9), Ok(1_000_000_000));
    assert_eq!(decimals_factor(19), Ok(10_000_000_000_000_000_000));
    assert_eq!(decimals_factor(20), Err(LendingError::MathOverflow));
    assert_eq!(decimals_factor(255), Err(LendingError::MathOverflow));
}

#[test]
fn values_and_amounts() {
    // 100 SOL in lamports at 20 a SOL are worth 2000
    assert_eq!(
        market_value(Decimal::from_u64(100_000_000_000), Decimal::from_u64(20), 1_000_000_000),
        Ok(Decimal::from_u64(2000))
    );
    // 1000 buy 50 SOL
    assert_eq!(
        amount_for_value(Decimal::from_u64(1000), Decimal::from_u64(20), 1_000_000_000),
        Ok(Decimal::from_u64(50_000_000_000))
    );
    assert_eq!(
        amount_for_value(Decimal::from_u64(1000), Decimal::zero(), 1_000_000_000),
        Err(LendingError::MathOverflow)
    );
    assert_eq!(
        market_value(Decimal::from_u64(1), Decimal::from_u64(20), 0),
        Err(LendingError::MathOverflow)
    );
}

#[test]
fn total_supply_and_utilization() {
    let r = reserve(60, 40, 100);
    assert_eq!(r.liquidity.total_supply(), Ok(Decimal::from_u64(100)));
    assert_eq!(r.liquidity.utilization_rate(), Ok(Rate::from_percent(40)));
    assert_eq!(reserve(0, 0, 0).liquidity.utilization_rate(), Ok(Rate::zero()));
    assert_eq!(reserve(0, 10, 0).liquidity.utilization_rate(), Ok(Rate::one()));
}

#[test]
fn borrow_rate_follows_the_two_lines() {
    assert_eq!(reserve(100, 0, 100).current_borrow_rate(), Ok(Rate::zero()));
    assert_eq!(reserve(60, 40, 100).current_borrow_rate(), Ok(Rate::from_percent(2)));
    assert_eq!(reserve(20, 80, 100).current_borrow_rate(), Ok(Rate::from_percent(4)));
    assert_eq!(reserve(10, 90, 100).current_borrow_rate(), Ok(Rate::from_percent(17)));
    assert_eq!(reserve(0, 100, 100).current_borrow_rate(), Ok(Rate::from_percent(30)));

    let mut flat = reserve(0, 100, 100);
    flat.config.optimal_utilization_rate = 100;
    assert_eq!(flat.current_borrow_rate(), Ok(Rate::from_percent(4)));

    let mut broken = reserve(10, 90, 100);
    broken.config.max_borrow_rate = 3;
    assert_eq!(broken.current_borrow_rate(), Err(LendingError::MathOverflow));
}

#[test]
fn exchange_rate_and_conversions() {
    let empty = reserve(0, 0, 0);
    let rate = empty.collateral_exchange_rate().unwrap();
    assert_eq!(rate.0, Rate::one());
    assert_eq!(rate.liquidity_to_collateral(7), Ok(7));
    assert_eq!(rate.collateral_to_liquidity(7), Ok(7));

    // 200 of liquidity against 100 of collateral: two units for a token
    let grown = reserve(100, 100, 100);
    let rate = grown.collateral_exchange_rate().unwrap();
    assert_eq!(rate.0, Rate(2_000_000_000_000_000_000));
    assert_eq!(rate.liquidity_to_collateral(10), Ok(5));
    assert_eq!(rate.liquidity_to_collateral(11), Ok(5));
    assert_eq!(rate.collateral_to_liquidity(5), Ok(10));
    assert_eq!(
        rate.decimal_liquidity_to_collateral(Decimal::from_u64(11)),
        Ok(Decimal::from_scaled_val(5_500_000_000_000_000_000))
    );
    assert_eq!(
        rate.decimal_collateral_to_liquidity(Decimal::from_u64(5)),
        Ok(Decimal::from_u64(10))
    );
    assert_eq!(
        grown.collateral.exchange_rate(Decimal::from_u64(200)).unwrap().0,
        Rate(2_000_000_000_000_000_000)
    );
    assert_eq!(
        grown.collateral.exchange_rate(Decimal::from_u64(50)).unwrap().0,
        Rate::from_percent(50)
    );
}

#[test]
fn deposit_and_redeem_at_par_restore_the_reserve() {
    let before = reserve(1000, 500, 1500);
    let mut r = before;
    assert_eq!(r.deposit_liquidity(250), Ok(250));
    assert_eq!(r.liquidity.available_amount, 1250);
    assert_eq!(r.collateral.mint_total_supply, 1750);
    assert_eq!(r.redeem_collateral(250), Ok(250));
    assert_eq!(r, before);

    let mut empty = reserve(0, 0, 0);
    assert_eq!(empty.deposit_liquidity(42), Ok(42));
    assert_eq!(empty.redeem_collateral(42), Ok(42));
    assert_eq!(empty, reserve(0, 0, 0));
}

#[test]
fn deposit_and_redeem_round_in_favour_of_the_reserve() {
    // 5 of liquidity against 3 of collateral: a token is worth one and two thirds
    let mut r = reserve(5, 0, 3);
    assert_eq!(r.deposit_liquidity(2), Ok(1));
    assert_eq!(r.liquidity.available_amount, 7);
    assert_eq!(r.collateral.mint_total_supply, 4);
    assert_eq!(r.redeem_collateral(1), Ok(1));
    assert_eq!(r.liquidity.available_amount, 6);
}

#[test]
fn redeem_failures_leave_the_reserve_alone() {
    let before = reserve(10, 90, 100);
    let mut r = before;
    assert_eq!(r.redeem_collateral(50), Err(LendingError::InsufficientLiquidity));
    assert_eq!(r, before);
    assert_eq!(r.redeem_collateral(101), Err(LendingError::MathUnderflow));
    assert_eq!(r, before);
    let mut full = reserve(u64::MAX, 0, u64::MAX);
    assert_eq!(full.deposit_liquidity(1), Err(LendingError::MathOverflow));
    assert_eq!(full, reserve(u64::MAX, 0, u64::MAX));
}

#[test]
fn liquidity_moves() {
    let mut r = reserve(100, 0, 100);
    assert_eq!(r.liquidity.deposit(5), Ok(()));
    assert_eq!(r.liquidity.available_amount, 105);
    assert_eq!(r.liquidity.withdraw(106), Err(LendingError::InsufficientLiquidity));
    assert_eq!(r.liquidity.withdraw(105), Ok(()));
    assert_eq!(r.liquidity.deposit(10), Ok(()));
    // 2.5 is owed, 2 leave the pool
    let amount = Decimal::from_scaled_val(2_500_000_000_000_000_000);
    assert_eq!(r.liquidity.borrow(amount), Ok(()));
    assert_eq!(r.liquidity.available_amount, 8);
    assert_eq!(r.liquidity.borrowed_amount_wads, amount);
    assert_eq!(
        r.liquidity.borrow(Decimal::from_u64(9)),
        Err(LendingError::InsufficientLiquidity)
    );
    // 3 come in, and no more is settled than is owed
    assert_eq!(r.liquidity.repay(3, Decimal::from_u64(3)), Ok(()));
    assert_eq!(r.liquidity.available_amount, 11);
    assert_eq!(r.liquidity.borrowed_amount_wads, Decimal::zero());
    assert_eq!(r.collateral.mint(u64::MAX), Err(LendingError::MathOverflow));
    assert_eq!(r.collateral.burn(101), Err(LendingError::MathUnderflow));
    assert_eq!(r.collateral.burn(100), Ok(()));
    assert_eq!(r.collateral.mint(3), Ok(()));
    assert_eq!(r.collateral.mint_total_supply, 3);
}

#[test]
fn interest_of_one_slot() {
    let mut r = reserve(0, 1000, 1000);
    assert_eq!(r.accrue_interest(2), Ok(()));
    assert_eq!(
        r.liquidity.cumulative_borrow_rate_wads,
        Decimal::from_scaled_val(1_000_000_004_756_468_797)
    );
    assert_eq!(
        r.liquidity.borrowed_amount_wads,
        Decimal::from_scaled_val(1_000_000_004_756_468_797_000)
    );
    assert_eq!(r.liquidity.available_amount, 0);
}

#[test]
fn interest_of_a_year() {
    let mut r = reserve(0, 1000, 1000);
    assert_eq!(r.accrue_interest(1 + SLOTS_PER_YEAR), Ok(()));
    assert_eq!(
        r.liquidity.cumulative_borrow_rate_wads,
        Decimal::from_scaled_val(1_349_858_806_507_944_813)
    );
    assert_eq!(
        r.liquidity.borrowed_amount_wads,
        Decimal::from_scaled_val(1_349_858_806_507_944_813_000)
    );
}

#[test]
fn no_interest_without_time() {
    let before = reserve(0, 1000, 1000);
    let mut r = before;
    assert_eq!(r.accrue_interest(1), Ok(()));
    assert_eq!(r, before);
    assert_eq!(r.accrue_interest(0), Err(LendingError::MathUnderflow));
    assert_eq!(r, before);
    assert_eq!(
        r.liquidity.compound_interest(Rate::from_percent(30), 0),
        Ok(())
    );
    assert_eq!(r, before);
}

#[test]
fn cumulative_rate_never_decreases_over_refreshes() {
    let mut r = reserve(500, 500, 1000);
    let mut last = r.liquidity.cumulative_borrow_rate_wads;
    let mut last_owed = r.liquidity.borrowed_amount_wads;
    for slot in [1u64, 1, 2, 10, 10, 1_000, 1_000_000, 63_072_001] {
        refresh_reserve(&mut r, slot, &price(slot % 7 + 1, slot), &None, 10).unwrap();
        assert!(last.le(r.liquidity.cumulative_borrow_rate_wads));
        assert!(last_owed.le(r.liquidity.borrowed_amount_wads));
        assert_eq!(r.last_update, LastUpdate { slot, stale: false });
        assert_eq!(r.liquidity.market_price, Decimal::from_u64(slot % 7 + 1));
        last = r.liquidity.cumulative_borrow_rate_wads;
        last_owed = r.liquidity.borrowed_amount_wads;
    }
    assert!(Decimal::one().lt(last));
    // going back in time is refused and changes nothing
    let before = r;
    assert_eq!(
        refresh_reserve(&mut r, 5, &price(1, 5), &None, 10),
        Err(LendingError::MathUnderflow)
    );
    assert_eq!(r, before);
}

#[test]
fn refresh_takes_the_price_and_clears_the_stale_mark() {
    let mut r = reserve(100, 0, 100);
    r.last_update.mark_stale();
    assert_eq!(refresh_reserve(&mut r, 1, &price(20, 1), &None, 0), Ok(()));
    assert_eq!(r.liquidity.market_price, Decimal::from_u64(20));
    assert_eq!(r.last_update, LastUpdate { slot: 1, stale: false });
    assert_eq!(r.liquidity.cumulative_borrow_rate_wads, Decimal::one());
}

#[test]
fn price_selection() {
    let fresh = price(20, 100);
    let old = price(21, 50);
    let zero = price(0, 100);
    assert_eq!(select_price(&fresh, &None, 100, 10), Ok(Decimal::from_u64(20)));
    assert_eq!(select_price(&fresh, &None, 110, 10), Ok(Decimal::from_u64(20)));
    assert_eq!(select_price(&fresh, &None, 111, 10), Err(LendingError::StalePrice));
    assert_eq!(select_price(&fresh, &None, 99, 10), Err(LendingError::StalePrice));
    assert_eq!(select_price(&old, &None, 100, 10), Err(LendingError::StalePrice));
    assert_eq!(select_price(&old, &Some(fresh), 100, 10), Ok(Decimal::from_u64(20)));
    assert_eq!(select_price(&old, &Some(old), 100, 10), Err(LendingError::StalePrice));
    assert_eq!(select_price(&old, &Some(zero), 100, 10), Err(LendingError::StalePrice));
    assert_eq!(select_price(&zero, &Some(fresh), 100, 10), Err(LendingError::InvalidOracleConfig));
    assert_eq!(select_price(&fresh, &Some(old), 100, 10), Ok(Decimal::from_u64(20)));
    assert!(fresh.usable(100, 0));
    assert!(!zero.usable(100, 0));
    assert!(zero.in_window(100, 0));
}

#[test]
fn refresh_with_unusable_prices_changes_nothing() {
    let before = reserve(500, 500, 1000);
    let mut r = before;
    assert_eq!(
        refresh_reserve(&mut r, 100, &price(20, 50), &None, 10),
        Err(LendingError::StalePrice)
    );
    assert_eq!(r, before);
    assert_eq!(
        refresh_reserve(&mut r, 100, &price(0, 100), &None, 10),
        Err(LendingError::InvalidOracleConfig)
    );
    assert_eq!(r, before);
    assert_eq!(refresh_reserve(&mut r, 100, &price(20, 50), &Some(price(19, 95)), 10), Ok(()));
    assert_eq!(r.liquidity.market_price, Decimal::from_u64(19));
}

#[test]
fn deposit_into_a_reserve() {
    let mut r = reserve(100, 100, 100);
    assert_eq!(deposit_reserve_liquidity(&mut r, 10, 1), Ok(5));
    assert_eq!(r.liquidity.available_amount, 110);
    assert_eq!(r.collateral.mint_total_supply, 105);
    assert!(r.last_update.stale);
    // a stale reserve takes nothing
    assert_eq!(deposit_reserve_liquidity(&mut r, 10, 1), Err(LendingError::ReserveStale));
    r.last_update.update_slot(1);
    assert_eq!(deposit_reserve_liquidity(&mut r, 10, 2), Err(LendingError::ReserveStale));
    assert_eq!(deposit_reserve_liquidity(&mut r, 0, 1), Err(LendingError::InvalidAmount));
    assert_eq!(deposit_reserve_liquidity(&mut r, 10, 0), Err(LendingError::MathUnderflow));
}

#[test]
fn deposit_limit() {
    let mut r = reserve(100, 100, 200);
    r.config.deposit_limit = 250;
    let before = r;
    assert_eq!(deposit_reserve_liquidity(&mut r, 51, 1), Err(LendingError::InvalidAmount));
    assert_eq!(r, before);
    assert_eq!(deposit_reserve_liquidity(&mut r, 50, 1), Ok(50));
    assert_eq!(r.liquidity.available_amount, 150);
}

#[test]
fn redeem_from_a_reserve() {
    let mut r = reserve(100, 100, 100);
    assert_eq!(redeem_reserve_collateral(&mut r, 5, 1), Ok(10));
    assert_eq!(r.liquidity.available_amount, 90);
    assert_eq!(r.collateral.mint_total_supply, 95);
    assert!(r.last_update.stale);
    assert_eq!(redeem_reserve_collateral(&mut r, 5, 1), Err(LendingError::ReserveStale));
    r.last_update.update_slot(1);
    assert_eq!(redeem_reserve_collateral(&mut r, 0, 1), Err(LendingError::InvalidAmount));
    assert_eq!(redeem_reserve_collateral(&mut r, 60, 1), Err(LendingError::InsufficientLiquidity));
}

#[test]
fn repay_calculation() {
    let r = reserve(100, 100, 100);
    let owed = Decimal::from_scaled_val(10_500_000_000_000_000_000);
    let all = r.calculate_repay(u64::MAX, owed).unwrap();
    assert_eq!(all.settle_amount, owed);
    assert_eq!(all.repay_amount, 11);
    let part = r.calculate_repay(4, owed).unwrap();
    assert_eq!(part.settle_amount, Decimal::from_u64(4));
    assert_eq!(part.repay_amount, 4);
    let more = r.calculate_repay(1000, owed).unwrap();
    assert_eq!(more.settle_amount, owed);
    assert_eq!(more.repay_amount, 11);
}

#[test]
fn borrow_calculation() {
    let mut r = reserve(1_000_000, 0, 1_000_000);
    r.config.fees.borrow_fee_wad = 10_000_000_000_000_000;
    let plenty = Decimal::from_u64(1_000_000);
    // the fee on top: 1000 received, 10 of fee, 1010 owed
    let exact = r.calculate_borrow(1000, plenty, plenty, false).unwrap();
    assert_eq!(exact.receive_amount, 1000);
    assert_eq!(exact.borrow_fee, 10);
    assert_eq!(exact.host_fee, 2);
    assert_eq!(exact.borrow_amount, Decimal::from_u64(1010));
    // everything that a value of 0.00101 allows: 1010 owed, 10 of fee carved out
    let value = Decimal::from_scaled_val(1_010_000_000_000_000);
    let most = r.calculate_borrow(u64::MAX, value, plenty, false).unwrap();
    assert_eq!(most.borrow_amount, Decimal::from_u64(1010));
    assert_eq!(most.borrow_fee, 10);
    assert_eq!(most.host_fee, 2);
    assert_eq!(most.receive_amount, 1000);
    // without fees
    let free = r.calculate_borrow(1000, plenty, plenty, true).unwrap();
    assert_eq!(free.borrow_amount, Decimal::from_u64(1000));
    assert_eq!((free.borrow_fee, free.host_fee), (0, 0));
    // the limits
    assert_eq!(
        r.calculate_borrow(1000, Decimal::from_scaled_val(1_009_999_999_999_999), plenty, false)
            .unwrap_err(),
        LendingError::BorrowTooLarge
    );
    assert_eq!(
        r.calculate_borrow(1000, plenty, Decimal::from_u64(1009), false).unwrap_err(),
        LendingError::InvalidAmount
    );
    assert_eq!(
        r.calculate_borrow(1, plenty, plenty, false).unwrap_err(),
        LendingError::BorrowTooSmall
    );
    r.liquidity.mint_decimals = 20;
    assert_eq!(
        r.calculate_borrow(1000, plenty, plenty, false).unwrap_err(),
        LendingError::MathOverflow
    );
    assert_eq!(WAD, 1_000_000_000_000_000_000);
}
