use token_lending::address::Address;
use token_lending::borrowing::{borrow_obligation_liquidity, repay_obligation_liquidity};
use token_lending::decimal::Decimal;
use token_lending::error::LendingError;
use token_lending::fees::ReserveFees;
use token_lending::last_update::LastUpdate;
use token_lending::lending::{
    deposit_obligation_collateral, deposit_reserve_liquidity_and_obligation_collateral,
    require_fresh, withdraw_obligation_collateral,
    withdraw_obligation_collateral_and_redeem_reserve_collateral,
};
use token_lending::oracle::OraclePrice;
use token_lending::refresh::refresh_reserve;
use token_lending::obligation::{
    Obligation, ObligationCollateral, ObligationLiquidity, MAX_OBLIGATION_RESERVES,
};
use token_lending::obligation_refresh::{check_account, refresh_obligation, ReserveAccount};
use token_lending::rate::Rate;
use token_lending::reserve::{Reserve, ReserveCollateral, ReserveConfig, ReserveLiquidity};

const SLOT: u64 = 7;
const LAMPORTS: u64 = 1_000_000_000;
const USDC: u64 = 1_000_000;

fn key(tag: u8) -> Address {
    Address::new([tag; 32])
}

fn config() -> ReserveConfig {
    ReserveConfig {
        optimal_utilization_rate: 80,
        loan_to_value_ratio: 50,
        liquidation_bonus: 5,
        liquidation_threshold: 55,
        min_borrow_rate: 0,
        optimal_borrow_rate: 4,
        max_borrow_rate: 30,
        fees: ReserveFees { borrow_fee_wad: 0, flash_loan_fee_wad: 0, host_fee_percentage: 0 },
        deposit_limit: u64::MAX,
        borrow_limit: u64::MAX,
    }
}

fn reserve(decimals: u8, price: u64, available: u64) -> Reserve {
    Reserve {
        last_update: LastUpdate { slot: SLOT, stale: false },
        liquidity: ReserveLiquidity {
            mint_decimals: decimals,
            available_amount: available,
            borrowed_amount_wads: Decimal::zero(),
            cumulative_borrow_rate_wads: Decimal::one(),
            market_price: Decimal::from_u64(price),
        },
        collateral: ReserveCollateral { mint_total_supply: available },
        config: config(),
    }
}

fn sol() -> ReserveAccount {
    ReserveAccount { key: key(1), reserve: reserve(9, 20, 0) }
}

fn usdc() -> ReserveAccount {
    ReserveAccount { key: key(2), reserve: reserve(6, 1, 10_000 * USDC) }
}

/// 100 SOL deposited, worth 2000, refreshed at `SLOT`.
fn funded() -> Obligation {
    let mut obligation = Obligation::new(SLOT);
    deposit_obligation_collateral(&mut obligation, &sol().reserve, key(1), 100 * LAMPORTS, SLOT)
        .unwrap();
    refresh_obligation(&mut obligation, &vec![sol()], SLOT).unwrap();
    obligation
}

/// As `funded`, with 400 USDC borrowed and refreshed again.
fn indebted() -> (Obligation, ReserveAccount) {
    let mut obligation = funded();
    let mut lender = usdc();
    borrow_obligation_liquidity(
        &mut lender.reserve,
        &mut obligation,
        key(2),
        400 * USDC,
        SLOT,
        false,
        false,
    )
    .unwrap();
    lender.reserve.last_update.update_slot(SLOT);
    refresh_obligation(&mut obligation, &vec![sol(), lender], SLOT).unwrap();
    (obligation, lender)
}

#[test]
fn new_obligation_is_empty_and_stale() {
    let obligation = Obligation::new(3);
    assert_eq!(obligation.last_update, LastUpdate { slot: 3, stale: true });
    assert!(obligation.deposits.is_empty());
    assert!(obligation.borrows.is_empty());
    assert_eq!(obligation.deposited_value, Decimal::zero());
    assert!(obligation.has_room());
    assert_eq!(LastUpdate::new(3).is_stale(3), Ok(true));
    assert_eq!(LastUpdate { slot: 3, stale: false }.is_stale(3), Ok(false));
    assert_eq!(LastUpdate { slot: 3, stale: false }.is_stale(4), Ok(true));
    assert_eq!(LastUpdate { slot: 3, stale: false }.is_stale(2), Err(LendingError::MathUnderflow));
    assert_eq!(LastUpdate { slot: 3, stale: false }.slots_elapsed(10), Ok(7));
}

#[test]
fn freshness_checks() {
    let fresh = LastUpdate { slot: SLOT, stale: false };
    assert_eq!(require_fresh(&fresh, SLOT, LendingError::ReserveStale), Ok(()));
    assert_eq!(
        require_fresh(&fresh, SLOT + 1, LendingError::ReserveStale),
        Err(LendingError::ReserveStale)
    );
    assert_eq!(
        require_fresh(&LastUpdate::new(SLOT), SLOT, LendingError::ObligationStale),
        Err(LendingError::ObligationStale)
    );
    assert_eq!(
        require_fresh(&fresh, SLOT - 1, LendingError::ObligationStale),
        Err(LendingError::MathUnderflow)
    );
    assert_eq!(check_account(&key(1), &sol(), SLOT), Ok(()));
    assert_eq!(check_account(&key(2), &sol(), SLOT), Err(LendingError::InvalidAccountInput));
    assert_eq!(check_account(&key(1), &sol(), SLOT + 1), Err(LendingError::ReserveStale));
}

#[test]
fn deposits_accumulate_in_one_entry_per_reserve() {
    let mut obligation = Obligation::new(SLOT);
    assert_eq!(obligation.deposit(key(1), 5), Ok(()));
    assert_eq!(obligation.deposit(key(2), 7), Ok(()));
    assert_eq!(obligation.deposit(key(1), 6), Ok(()));
    assert_eq!(
        obligation.deposits,
        vec![ObligationCollateral::new(key(1), 11), ObligationCollateral::new(key(2), 7)]
    );
    assert_eq!(obligation.find_collateral_index(&key(2)), Some(1));
    assert_eq!(obligation.find_collateral_index(&key(3)), None);
    assert_eq!(obligation.deposit(key(2), u64::MAX), Err(LendingError::MathOverflow));
    assert_eq!(obligation.deposits.len(), 2);
}

#[test]
fn borrows_accumulate_in_one_entry_per_reserve() {
    let mut obligation = Obligation::new(SLOT);
    let rate = Decimal::from_scaled_val(1_100_000_000_000_000_000);
    assert_eq!(obligation.borrow(key(1), rate, Decimal::from_u64(5)), Ok(()));
    assert_eq!(obligation.borrow(key(1), Decimal::one(), Decimal::from_u64(6)), Ok(()));
    assert_eq!(
        obligation.borrows,
        vec![ObligationLiquidity::new(key(1), rate, Decimal::from_u64(11))]
    );
    assert_eq!(obligation.find_liquidity_index(&key(1)), Some(0));
    assert_eq!(obligation.find_liquidity_index(&key(2)), None);
}

#[test]
fn an_obligation_refers_to_ten_reserves_at_most() {
    let mut obligation = Obligation::new(SLOT);
    for tag in 0..6u8 {
        obligation.deposit(key(tag), 1).unwrap();
    }
    for tag in 0..4u8 {
        obligation.borrow(key(tag), Decimal::one(), Decimal::one()).unwrap();
    }
    assert_eq!(obligation.deposits.len() + obligation.borrows.len(), MAX_OBLIGATION_RESERVES);
    assert!(!obligation.has_room());
    assert_eq!(obligation.deposit(key(100), 1), Err(LendingError::TooManyObligationReserves));
    assert_eq!(
        obligation.borrow(key(100), Decimal::one(), Decimal::one()),
        Err(LendingError::TooManyObligationReserves)
    );
    // the reserves that are there still take more
    assert_eq!(obligation.deposit(key(5), 1), Ok(()));
    assert_eq!(obligation.borrow(key(3), Decimal::one(), Decimal::one()), Ok(()));
    assert_eq!(obligation.deposits.len() + obligation.borrows.len(), MAX_OBLIGATION_RESERVES);
}

#[test]
fn the_borrow_handler_respects_the_capacity() {
    let mut obligation = funded();
    for tag in 10..19u8 {
        obligation.deposits.push(ObligationCollateral::new(key(tag), 1));
    }
    let mut lender = usdc();
    let before = lender.reserve;
    assert_eq!(
        borrow_obligation_liquidity(
            &mut lender.reserve,
            &mut obligation,
            key(2),
            10,
            SLOT,
            false,
            false
        ),
        Err(LendingError::TooManyObligationReserves)
    );
    assert_eq!(lender.reserve, before);
    assert!(obligation.borrows.is_empty());
}

#[test]
fn withdrawals_empty_or_shrink_an_entry() {
    let mut obligation = Obligation::new(SLOT);
    obligation.deposit(key(1), 10).unwrap();
    obligation.deposit(key(2), 20).unwrap();
    assert_eq!(obligation.withdraw(4, 0), Ok(()));
    assert_eq!(obligation.deposits[0].deposited_amount, 6);
    assert_eq!(obligation.withdraw(7, 0), Err(LendingError::MathUnderflow));
    assert_eq!(obligation.withdraw(6, 0), Ok(()));
    assert_eq!(obligation.deposits, vec![ObligationCollateral::new(key(2), 20)]);
}

#[test]
fn repayments_empty_or_shrink_an_entry() {
    let mut obligation = Obligation::new(SLOT);
    obligation.borrow(key(1), Decimal::one(), Decimal::from_u64(10)).unwrap();
    assert_eq!(obligation.repay(Decimal::from_u64(4), 0), Ok(()));
    assert_eq!(obligation.borrows[0].borrowed_amount_wads, Decimal::from_u64(6));
    assert_eq!(obligation.repay(Decimal::from_u64(7), 0), Err(LendingError::MathUnderflow));
    assert_eq!(obligation.repay(Decimal::from_u64(6), 0), Ok(()));
    assert!(obligation.borrows.is_empty());
}

#[test]
fn searching_the_entries() {
    let mut obligation = Obligation::new(SLOT);
    assert_eq!(
        obligation.find_collateral_in_deposits(&key(1)).unwrap_err(),
        LendingError::ObligationDepositsEmpty
    );
    assert_eq!(
        obligation.find_liquidity_in_borrows(&key(1)).unwrap_err(),
        LendingError::ObligationBorrowsEmpty
    );
    obligation.deposit(key(1), 10).unwrap();
    obligation.borrow(key(2), Decimal::one(), Decimal::one()).unwrap();
    assert_eq!(
        obligation.find_collateral_in_deposits(&key(2)).unwrap_err(),
        LendingError::InvalidObligationCollateral
    );
    assert_eq!(
        obligation.find_liquidity_in_borrows(&key(1)).unwrap_err(),
        LendingError::InvalidObligationLiquidity
    );
    assert_eq!(
        obligation.find_collateral_in_deposits(&key(1)),
        Ok((ObligationCollateral::new(key(1), 10), 0))
    );
    assert_eq!(obligation.find_liquidity_in_borrows(&key(2)).unwrap().1, 0);
}

#[test]
fn refresh_values_the_entries() {
    let obligation = funded();
    assert_eq!(obligation.last_update, LastUpdate { slot: SLOT, stale: false });
    assert_eq!(obligation.deposits[0].market_value, Decimal::from_u64(2000));
    assert_eq!(obligation.deposited_value, Decimal::from_u64(2000));
    assert_eq!(obligation.allowed_borrow_value, Decimal::from_u64(1000));
    assert_eq!(obligation.unhealthy_borrow_value, Decimal::from_u64(1100));
    assert_eq!(obligation.borrowed_value, Decimal::zero());
    assert_eq!(obligation.remaining_borrow_value(), Ok(Decimal::from_u64(1000)));

    let (indebted, _) = indebted();
    assert_eq!(indebted.borrows[0].market_value, Decimal::from_u64(400));
    assert_eq!(indebted.borrowed_value, Decimal::from_u64(400));
    assert_eq!(indebted.remaining_borrow_value(), Ok(Decimal::from_u64(600)));
    assert_eq!(indebted.loan_to_value(), Ok(Decimal::from_percent(20)));
    assert_eq!(
        indebted.max_withdraw_value(Rate::from_percent(50)),
        Ok(Decimal::from_u64(1200))
    );
    assert_eq!(indebted.max_withdraw_value(Rate::zero()), Ok(Decimal::from_u64(2000)));
    assert_eq!(
        indebted.borrows[0].max_liquidation_amount(),
        Ok(Decimal::from_u64(200 * USDC))
    );
}

#[test]
fn refresh_adds_interest_to_the_borrows() {
    let (mut obligation, mut lender) = indebted();
    lender.reserve.liquidity.cumulative_borrow_rate_wads =
        Decimal::from_scaled_val(1_100_000_000_000_000_000);
    refresh_obligation(&mut obligation, &vec![sol(), lender], SLOT).unwrap();
    assert_eq!(obligation.borrows[0].borrowed_amount_wads, Decimal::from_u64(440 * USDC));
    assert_eq!(
        obligation.borrows[0].cumulative_borrow_rate_wads,
        Decimal::from_scaled_val(1_100_000_000_000_000_000)
    );
    assert_eq!(obligation.borrowed_value, Decimal::from_u64(440));

    // a rate that went down is refused, and nothing changes
    lender.reserve.liquidity.cumulative_borrow_rate_wads = Decimal::one();
    assert_eq!(
        refresh_obligation(&mut obligation, &vec![sol(), lender], SLOT),
        Err(LendingError::NegativeInterestRate)
    );
    assert_eq!(obligation.borrows[0].borrowed_amount_wads, Decimal::from_u64(440 * USDC));
}

#[test]
fn refresh_wants_the_reserves_of_the_entries_in_order() {
    let (mut obligation, lender) = indebted();
    let before = format!("{:?}", obligation);
    assert_eq!(
        refresh_obligation(&mut obligation, &vec![lender, sol()], SLOT),
        Err(LendingError::InvalidAccountInput)
    );
    assert_eq!(
        refresh_obligation(&mut obligation, &vec![sol()], SLOT),
        Err(LendingError::InvalidAccountInput)
    );
    assert_eq!(
        refresh_obligation(&mut obligation, &vec![sol(), lender, lender], SLOT),
        Err(LendingError::InvalidAccountInput)
    );
    assert_eq!(
        refresh_obligation(&mut obligation, &vec![sol(), sol()], SLOT),
        Err(LendingError::InvalidAccountInput)
    );
    let mut stale = sol();
    stale.reserve.last_update.mark_stale();
    assert_eq!(
        refresh_obligation(&mut obligation, &vec![stale, lender], SLOT),
        Err(LendingError::ReserveStale)
    );
    assert_eq!(
        refresh_obligation(&mut obligation, &vec![sol(), lender], SLOT + 1),
        Err(LendingError::ReserveStale)
    );
    let mut unvalued = sol();
    unvalued.reserve.liquidity.mint_decimals = 30;
    assert_eq!(
        refresh_obligation(&mut obligation, &vec![unvalued, lender], SLOT),
        Err(LendingError::MathOverflow)
    );
    assert_eq!(format!("{:?}", obligation), before);
    assert_eq!(refresh_obligation(&mut obligation, &vec![sol(), lender], SLOT), Ok(()));
}

#[test]
fn refresh_of_an_empty_obligation() {
    let mut obligation = Obligation::new(1);
    assert_eq!(refresh_obligation(&mut obligation, &vec![], SLOT), Ok(()));
    assert_eq!(obligation.last_update, LastUpdate { slot: SLOT, stale: false });
    assert_eq!(
        refresh_obligation(&mut obligation, &vec![sol()], SLOT),
        Err(LendingError::InvalidAccountInput)
    );
}

#[test]
fn deposit_then_withdraw_removes_the_entry_and_leaves_the_reserve() {
    let account = sol();
    let reserve_before = account.reserve;
    let mut obligation = Obligation::new(SLOT);
    deposit_obligation_collateral(&mut obligation, &account.reserve, key(1), 55, SLOT).unwrap();
    assert!(obligation.last_update.stale);
    assert_eq!(obligation.deposits, vec![ObligationCollateral::new(key(1), 55)]);
    // the obligation must be refreshed before anything leaves it
    assert_eq!(
        withdraw_obligation_collateral(&mut obligation, &account.reserve, key(1), 55, SLOT),
        Err(LendingError::ObligationStale)
    );
    refresh_obligation(&mut obligation, &vec![account], SLOT).unwrap();
    assert_eq!(
        withdraw_obligation_collateral(&mut obligation, &account.reserve, key(1), 55, SLOT),
        Ok(55)
    );
    assert!(obligation.deposits.is_empty());
    assert!(obligation.last_update.stale);
    assert_eq!(account.reserve, reserve_before);
    assert_eq!(account.reserve.liquidity.available_amount, reserve_before.liquidity.available_amount);
}

#[test]
fn deposit_then_withdraw_restores_an_older_entry() {
    let account = sol();
    let mut obligation = funded();
    deposit_obligation_collateral(&mut obligation, &account.reserve, key(1), 55, SLOT).unwrap();
    assert_eq!(obligation.deposits[0].deposited_amount, 100 * LAMPORTS + 55);
    refresh_obligation(&mut obligation, &vec![account], SLOT).unwrap();
    assert_eq!(
        withdraw_obligation_collateral(&mut obligation, &account.reserve, key(1), 55, SLOT),
        Ok(55)
    );
    assert_eq!(obligation.deposits.len(), 1);
    assert_eq!(obligation.deposits[0].deposited_amount, 100 * LAMPORTS);
}

#[test]
fn deposit_of_liquidity_then_withdrawal_restores_the_reserve() {
    let mut account = usdc();
    let before = account.reserve;
    let price = OraclePrice { price: Decimal::one(), confidence: 0, published_slot: SLOT };
    let mut obligation = Obligation::new(SLOT);

    assert_eq!(
        deposit_reserve_liquidity_and_obligation_collateral(
            &mut account.reserve,
            &mut obligation,
            key(2),
            500 * USDC,
            SLOT
        ),
        Ok(500 * USDC)
    );
    assert_eq!(account.reserve.liquidity.available_amount, 10_500 * USDC);
    assert_eq!(account.reserve.collateral.mint_total_supply, 10_500 * USDC);
    assert_eq!(obligation.deposits, vec![ObligationCollateral::new(key(2), 500 * USDC)]);
    assert!(account.reserve.last_update.stale);
    assert!(obligation.last_update.stale);

    refresh_reserve(&mut account.reserve, SLOT, &price, &None, 0).unwrap();
    refresh_obligation(&mut obligation, &vec![account], SLOT).unwrap();
    assert_eq!(
        withdraw_obligation_collateral_and_redeem_reserve_collateral(
            &mut account.reserve,
            &mut obligation,
            key(2),
            500 * USDC,
            SLOT
        ),
        Ok(500 * USDC)
    );
    assert!(obligation.deposits.is_empty());
    assert_eq!(account.reserve.liquidity, before.liquidity);
    assert_eq!(account.reserve.collateral, before.collateral);
    assert_eq!(account.reserve.liquidity.available_amount, before.liquidity.available_amount);
}

#[test]
fn a_deposit_that_mints_nothing_is_refused() {
    let mut account = usdc();
    // twice the liquidity for the same collateral: a token is worth two units
    account.reserve.liquidity.borrowed_amount_wads = Decimal::from_u64(10_000 * USDC);
    let before = account.reserve;
    let mut obligation = Obligation::new(SLOT);
    assert_eq!(
        deposit_reserve_liquidity_and_obligation_collateral(
            &mut account.reserve,
            &mut obligation,
            key(2),
            1,
            SLOT
        ),
        Err(LendingError::InvalidAmount)
    );
    assert_eq!(account.reserve, before);
    assert!(obligation.deposits.is_empty());
    assert_eq!(
        deposit_reserve_liquidity_and_obligation_collateral(
            &mut account.reserve,
            &mut obligation,
            key(2),
            3,
            SLOT
        ),
        Ok(1)
    );
}

#[test]
fn a_withdrawal_that_cannot_be_paid_changes_nothing() {
    let mut account = usdc();
    let mut obligation = Obligation::new(SLOT);
    deposit_obligation_collateral(&mut obligation, &account.reserve, key(2), 500 * USDC, SLOT)
        .unwrap();
    refresh_obligation(&mut obligation, &vec![account], SLOT).unwrap();
    account.reserve.liquidity.available_amount = 100 * USDC;
    account.reserve.liquidity.borrowed_amount_wads = Decimal::from_u64(9_900 * USDC);
    let before = account.reserve;
    assert_eq!(
        withdraw_obligation_collateral_and_redeem_reserve_collateral(
            &mut account.reserve,
            &mut obligation,
            key(2),
            500 * USDC,
            SLOT
        ),
        Err(LendingError::InsufficientLiquidity)
    );
    assert_eq!(account.reserve, before);
    assert_eq!(obligation.deposits[0].deposited_amount, 500 * USDC);
    assert!(!obligation.last_update.stale);
    assert_eq!(
        withdraw_obligation_collateral_and_redeem_reserve_collateral(
            &mut account.reserve,
            &mut obligation,
            key(2),
            100 * USDC,
            SLOT
        ),
        Ok(100 * USDC)
    );
    assert_eq!(account.reserve.liquidity.available_amount, 0);
    assert_eq!(obligation.deposits[0].deposited_amount, 400 * USDC);
}

#[test]
fn deposit_refusals() {
    let mut obligation = Obligation::new(SLOT);
    let account = sol();
    assert_eq!(
        deposit_obligation_collateral(&mut obligation, &account.reserve, key(1), 0, SLOT),
        Err(LendingError::InvalidAmount)
    );
    assert_eq!(
        deposit_obligation_collateral(&mut obligation, &account.reserve, key(1), 1, SLOT + 1),
        Err(LendingError::ReserveStale)
    );
    assert!(obligation.deposits.is_empty());
    for tag in 0..10u8 {
        deposit_obligation_collateral(&mut obligation, &account.reserve, key(tag), 1, SLOT)
            .unwrap();
    }
    assert_eq!(
        deposit_obligation_collateral(&mut obligation, &account.reserve, key(10), 1, SLOT),
        Err(LendingError::TooManyObligationReserves)
    );
}

#[test]
fn withdraw_without_borrows_is_free() {
    let account = sol();
    let mut obligation = funded();
    assert_eq!(
        withdraw_obligation_collateral(&mut obligation, &account.reserve, key(1), LAMPORTS, SLOT),
        Ok(LAMPORTS)
    );
    refresh_obligation(&mut obligation, &vec![account], SLOT).unwrap();
    assert_eq!(
        withdraw_obligation_collateral(&mut obligation, &account.reserve, key(1), u64::MAX, SLOT),
        Ok(99 * LAMPORTS)
    );
    assert!(obligation.deposits.is_empty());
}

#[test]
fn withdraw_with_borrows_is_bounded() {
    let account = sol();
    let (mut obligation, _) = indebted();
    // 1200 of 2000 may go: 60 SOL
    assert_eq!(
        withdraw_obligation_collateral(
            &mut obligation,
            &account.reserve,
            key(1),
            60 * LAMPORTS + 1,
            SLOT
        ),
        Err(LendingError::WithdrawTooLarge)
    );
    assert_eq!(obligation.deposits[0].deposited_amount, 100 * LAMPORTS);
    assert!(!obligation.last_update.stale);
    assert_eq!(
        withdraw_obligation_collateral(&mut obligation, &account.reserve, key(1), u64::MAX, SLOT),
        Ok(60 * LAMPORTS)
    );
    assert_eq!(obligation.deposits[0].deposited_amount, 40 * LAMPORTS);
    assert!(obligation.last_update.stale);
}

#[test]
fn withdraw_of_an_exact_amount_with_borrows() {
    let account = sol();
    let (mut obligation, _) = indebted();
    assert_eq!(
        withdraw_obligation_collateral(
            &mut obligation,
            &account.reserve,
            key(1),
            60 * LAMPORTS,
            SLOT
        ),
        Ok(60 * LAMPORTS)
    );
}

#[test]
fn withdraw_refusals() {
    let account = sol();
    let (mut obligation, lender) = indebted();
    assert_eq!(
        withdraw_obligation_collateral(&mut obligation, &account.reserve, key(1), 0, SLOT),
        Err(LendingError::InvalidAmount)
    );
    assert_eq!(
        withdraw_obligation_collateral(&mut obligation, &account.reserve, key(1), 1, SLOT + 1),
        Err(LendingError::ReserveStale)
    );
    assert_eq!(
        withdraw_obligation_collateral(&mut obligation, &lender.reserve, key(2), 1, SLOT),
        Err(LendingError::InvalidObligationCollateral)
    );
    let mut empty = Obligation::new(SLOT);
    empty.last_update.update_slot(SLOT);
    assert_eq!(
        withdraw_obligation_collateral(&mut empty, &account.reserve, key(1), 1, SLOT),
        Err(LendingError::ObligationDepositsEmpty)
    );

    // borrowed up to the limit, nothing may go
    let mut full = funded();
    let mut lender = usdc();
    borrow_obligation_liquidity(&mut lender.reserve, &mut full, key(2), u64::MAX, SLOT, false, false)
        .unwrap();
    lender.reserve.last_update.update_slot(SLOT);
    refresh_obligation(&mut full, &vec![sol(), lender], SLOT).unwrap();
    assert_eq!(
        withdraw_obligation_collateral(&mut full, &account.reserve, key(1), 1, SLOT),
        Err(LendingError::WithdrawTooLarge)
    );

    // an entry without collateral, and deposits without value
    let mut hollow = funded();
    hollow.deposits[0].deposited_amount = 0;
    assert_eq!(
        withdraw_obligation_collateral(&mut hollow, &account.reserve, key(1), 1, SLOT),
        Err(LendingError::ObligationCollateralEmpty)
    );
    let (mut worthless, _) = indebted();
    worthless.deposited_value = Decimal::zero();
    assert_eq!(
        withdraw_obligation_collateral(&mut worthless, &account.reserve, key(1), 1, SLOT),
        Err(LendingError::ObligationDepositsZero)
    );
}

#[test]
fn withdraw_that_rounds_to_nothing() {
    let account = sol();
    let (mut obligation, _) = indebted();
    // almost nothing is left to borrow: the share of the entry rounds to no lamport
    obligation.borrowed_value = obligation
        .allowed_borrow_value
        .try_sub(Decimal::from_scaled_val(1))
        .unwrap();
    assert_eq!(
        withdraw_obligation_collateral(&mut obligation, &account.reserve, key(1), u64::MAX, SLOT),
        Err(LendingError::WithdrawTooSmall)
    );
}

#[test]
fn borrow_refusals() {
    let mut lender = usdc();
    let before = lender.reserve;
    let mut obligation = funded();
    let mut attempt = |obligation: &mut Obligation, reserve: &mut Reserve, amount: u64, slot: u64| {
        borrow_obligation_liquidity(reserve, obligation, key(2), amount, slot, true, false)
    };
    assert_eq!(
        attempt(&mut obligation, &mut lender.reserve, 0, SLOT),
        Err(LendingError::InvalidAmount)
    );
    assert_eq!(
        attempt(&mut obligation, &mut lender.reserve, 1, SLOT + 1),
        Err(LendingError::ReserveStale)
    );
    let mut stale = funded();
    stale.last_update.mark_stale();
    assert_eq!(
        attempt(&mut stale, &mut lender.reserve, 1, SLOT),
        Err(LendingError::ObligationStale)
    );
    // nothing deposited leaves nothing to borrow
    let mut empty = Obligation::new(SLOT);
    empty.last_update.update_slot(SLOT);
    assert_eq!(
        attempt(&mut empty, &mut lender.reserve, 1, SLOT),
        Err(LendingError::BorrowTooLarge)
    );
    empty.allowed_borrow_value = Decimal::one();
    assert_eq!(
        attempt(&mut empty, &mut lender.reserve, 1, SLOT),
        Err(LendingError::ObligationDepositsEmpty)
    );
    let mut worthless = funded();
    worthless.deposited_value = Decimal::zero();
    assert_eq!(
        attempt(&mut worthless, &mut lender.reserve, 1, SLOT),
        Err(LendingError::ObligationDepositsZero)
    );
    assert_eq!(
        attempt(&mut obligation, &mut lender.reserve, 1000 * USDC + 1, SLOT),
        Err(LendingError::BorrowTooLarge)
    );
    let mut poor = lender;
    poor.reserve.liquidity.available_amount = 10;
    assert_eq!(
        attempt(&mut obligation, &mut poor.reserve, 11, SLOT),
        Err(LendingError::InsufficientLiquidity)
    );
    assert_eq!(lender.reserve, before);
    assert!(obligation.borrows.is_empty());
    assert!(!obligation.last_update.stale);
}

#[test]
fn borrow_up_to_the_limit_and_no_further() {
    let mut lender = usdc();
    let mut obligation = funded();
    let outcome = borrow_obligation_liquidity(
        &mut lender.reserve,
        &mut obligation,
        key(2),
        1000 * USDC,
        SLOT,
        true,
        false,
    )
    .unwrap();
    assert_eq!(outcome.receive_amount, 1000 * USDC);
    assert_eq!((outcome.owner_fee, outcome.host_fee), (0, 0));
    assert!(lender.reserve.last_update.stale);
    assert!(obligation.last_update.stale);
    lender.reserve.last_update.update_slot(SLOT);
    refresh_obligation(&mut obligation, &vec![sol(), lender], SLOT).unwrap();
    assert_eq!(obligation.borrowed_value, obligation.allowed_borrow_value);
    assert_eq!(
        borrow_obligation_liquidity(
            &mut lender.reserve,
            &mut obligation,
            key(2),
            1,
            SLOT,
            true,
            false
        ),
        Err(LendingError::BorrowTooLarge)
    );
}

#[test]
fn borrow_with_and_without_host_and_fees() {
    let mut charged = usdc();
    charged.reserve.config.fees =
        ReserveFees { borrow_fee_wad: 10_000_000_000_000_000, flash_loan_fee_wad: 0, host_fee_percentage: 20 };

    let mut lender = charged;
    let mut obligation = funded();
    let with_host = borrow_obligation_liquidity(
        &mut lender.reserve, &mut obligation, key(2), 100 * USDC, SLOT, true, false,
    )
    .unwrap();
    assert_eq!(
        (with_host.receive_amount, with_host.owner_fee, with_host.host_fee),
        (100 * USDC, 808_081, 202_020)
    );
    assert_eq!(lender.reserve.liquidity.available_amount, 10_000 * USDC - 101_010_101);
    assert_eq!(obligation.borrows[0].borrowed_amount_wads, Decimal::from_u64(101_010_101));

    let mut lender = charged;
    let mut obligation = funded();
    let without_host = borrow_obligation_liquidity(
        &mut lender.reserve, &mut obligation, key(2), 100 * USDC, SLOT, false, false,
    )
    .unwrap();
    assert_eq!(
        (without_host.receive_amount, without_host.owner_fee, without_host.host_fee),
        (100 * USDC, 1_010_101, 0)
    );

    let mut lender = charged;
    let mut obligation = funded();
    let waived = borrow_obligation_liquidity(
        &mut lender.reserve, &mut obligation, key(2), 100 * USDC, SLOT, true, true,
    )
    .unwrap();
    assert_eq!((waived.receive_amount, waived.owner_fee, waived.host_fee), (100 * USDC, 0, 0));
    assert_eq!(lender.reserve.liquidity.available_amount, 10_000 * USDC - 100 * USDC);
}

#[test]
fn repay_part_all_and_more() {
    let (mut obligation, mut lender) = indebted();
    let available = lender.reserve.liquidity.available_amount;
    assert_eq!(
        repay_obligation_liquidity(&mut lender.reserve, &mut obligation, key(2), 100 * USDC, SLOT),
        Ok(100 * USDC)
    );
    assert_eq!(obligation.borrows[0].borrowed_amount_wads, Decimal::from_u64(300 * USDC));
    assert_eq!(lender.reserve.liquidity.borrowed_amount_wads, Decimal::from_u64(300 * USDC));
    assert_eq!(lender.reserve.liquidity.available_amount, available + 100 * USDC);
    assert!(obligation.last_update.stale);
    assert!(lender.reserve.last_update.stale);

    // more than is owed repays what is owed
    lender.reserve.last_update.update_slot(SLOT);
    refresh_obligation(&mut obligation, &vec![sol(), lender], SLOT).unwrap();
    assert_eq!(
        repay_obligation_liquidity(&mut lender.reserve, &mut obligation, key(2), 999 * USDC, SLOT),
        Ok(300 * USDC)
    );
    assert!(obligation.borrows.is_empty());
    assert_eq!(lender.reserve.liquidity.borrowed_amount_wads, Decimal::zero());
    assert_eq!(lender.reserve.liquidity.available_amount, available + 400 * USDC);
}

#[test]
fn repay_everything_rounds_the_payment_up() {
    let (mut obligation, mut lender) = indebted();
    let owed = Decimal::from_u64(400 * USDC)
        .try_add(Decimal::from_scaled_val(1))
        .unwrap();
    obligation.borrows[0].borrowed_amount_wads = owed;
    lender.reserve.liquidity.borrowed_amount_wads = owed;
    assert_eq!(
        repay_obligation_liquidity(&mut lender.reserve, &mut obligation, key(2), u64::MAX, SLOT),
        Ok(400 * USDC + 1)
    );
    assert!(obligation.borrows.is_empty());
    assert_eq!(lender.reserve.liquidity.borrowed_amount_wads, Decimal::zero());
}

#[test]
fn repay_refusals() {
    let (mut obligation, mut lender) = indebted();
    let before = lender.reserve;
    assert_eq!(
        repay_obligation_liquidity(&mut lender.reserve, &mut obligation, key(2), 0, SLOT),
        Err(LendingError::InvalidAmount)
    );
    assert_eq!(
        repay_obligation_liquidity(&mut lender.reserve, &mut obligation, key(2), 1, SLOT + 1),
        Err(LendingError::ReserveStale)
    );
    assert_eq!(
        repay_obligation_liquidity(&mut lender.reserve, &mut obligation, key(3), 1, SLOT),
        Err(LendingError::InvalidObligationLiquidity)
    );
    let mut debtless = funded();
    assert_eq!(
        repay_obligation_liquidity(&mut lender.reserve, &mut debtless, key(2), 1, SLOT),
        Err(LendingError::ObligationBorrowsEmpty)
    );
    let mut stale = funded();
    stale.last_update.mark_stale();
    assert_eq!(
        repay_obligation_liquidity(&mut lender.reserve, &mut stale, key(2), 1, SLOT),
        Err(LendingError::ObligationStale)
    );
    let (mut hollow, _) = indebted();
    hollow.borrows[0].borrowed_amount_wads = Decimal::zero();
    assert_eq!(
        repay_obligation_liquidity(&mut lender.reserve, &mut hollow, key(2), 1, SLOT),
        Err(LendingError::ObligationLiquidityEmpty)
    );
    let mut brimming = lender;
    brimming.reserve.liquidity.available_amount = u64::MAX;
    assert_eq!(
        repay_obligation_liquidity(&mut brimming.reserve, &mut obligation, key(2), 1, SLOT),
        Err(LendingError::MathOverflow)
    );
    assert_eq!(lender.reserve, before);
    assert_eq!(obligation.borrows[0].borrowed_amount_wads, Decimal::from_u64(400 * USDC));
}

#[test]
fn interest_on_an_entry() {
    let mut entry = ObligationLiquidity::new(key(1), Decimal::one(), Decimal::from_u64(100));
    assert_eq!(entry.accrue_interest(Decimal::one()), Ok(()));
    assert_eq!(entry.borrowed_amount_wads, Decimal::from_u64(100));
    assert_eq!(entry.accrue_interest(Decimal::from_u64(2)), Ok(()));
    assert_eq!(entry.borrowed_amount_wads, Decimal::from_u64(200));
    assert_eq!(entry.cumulative_borrow_rate_wads, Decimal::from_u64(2));
    assert_eq!(entry.accrue_interest(Decimal::one()), Err(LendingError::NegativeInterestRate));
    assert_eq!(entry.borrowed_amount_wads, Decimal::from_u64(200));
}
