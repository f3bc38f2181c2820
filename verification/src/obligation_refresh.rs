//! Bringing an obligation up to date: every deposit and every borrow is
//! valued against its reserve, interest is added to the borrows, and the
//! values that bound borrowing and liquidation are summed up.

use vstd::prelude::*;
use vstd::arithmetic::div_mod::{lemma_div_is_ordered, lemma_div_multiples_vanish};
use crate::address::Address;
use crate::decimal::{percent_scaler, spec_add, spec_mul, wad, Decimal};
use crate::error::{or_overflow, transition, LendingError};
use crate::last_update::LastUpdate;
use crate::obligation::{
    collateral_views, liquidity_views, Obligation, ObligationCollateral,
    ObligationCollateralView, ObligationLiquidity, ObligationLiquidityView, ObligationView,
};
use crate::rate::{lemma_rate_mul_grows, Rate};
use crate::reserve::{
    decimals_factor, market_value, spec_decimal_collateral_to_liquidity, spec_decimals_factor,
    spec_market_value, Reserve, ReserveView,
};

verus! {

/// A reserve together with its address.
#[derive(Clone, Copy, Debug)]
pub struct ReserveAccount {
    /// The address of the reserve.
    pub key: Address,
    /// Its state.
    pub reserve: Reserve,
}

/// Why the reserve `account` cannot serve to value an entry of the reserve
/// `key` at `slot`, if it cannot: another address is `InvalidAccountInput`,
/// and a reserve that is not fresh is `ReserveStale`.
pub open spec fn spec_account_fault(key: Address, account: ReserveAccount, slot: u64) -> Option<
    LendingError,
> {
    if key != account.key {
        Some(LendingError::InvalidAccountInput)
    } else {
        match account.reserve.last_update.spec_is_stale(slot) {
            Err(e) => Some(e),
            Ok(true) => Some(LendingError::ReserveStale),
            Ok(false) => None,
        }
    }
}

/// Checks that `account` is the fresh reserve `key`.
pub fn check_account(key: &Address, account: &ReserveAccount, slot: u64) -> (r: Result<
    (),
    LendingError,
>)
    ensures
        match spec_account_fault(*key, *account, slot) {
            Some(e) => r == Err::<(), LendingError>(e),
            None => r is Ok,
        },
{
    if !key.same(&account.key) {
        return Err(LendingError::InvalidAccountInput);
    }
    if account.reserve.last_update.is_stale(slot)? {
        return Err(LendingError::ReserveStale);
    }
    Ok(())
}

impl ReserveView {
    /// Scaled value of `collateral_amount` collateral tokens of this reserve:
    /// the liquidity that they redeem, at the market price.
    pub open spec fn collateral_value(self, collateral_amount: u64) -> Option<nat> {
        match spec_decimals_factor(self.liquidity.mint_decimals) {
            None => None,
            Some(decimals) => match self.collateral_exchange_rate() {
                None => None,
                Some(rate) => match spec_decimal_collateral_to_liquidity(
                    rate,
                    collateral_amount as nat * wad(),
                ) {
                    None => None,
                    Some(liquidity) => spec_market_value(
                        liquidity,
                        self.liquidity.market_price,
                        decimals,
                    ),
                },
            },
        }
    }

    /// Scaled value of the scaled `liquidity_amount` of this reserve's token.
    pub open spec fn liquidity_value(self, liquidity_amount: nat) -> Option<nat> {
        match spec_decimals_factor(self.liquidity.mint_decimals) {
            None => None,
            Some(decimals) => spec_market_value(
                liquidity_amount,
                self.liquidity.market_price,
                decimals,
            ),
        }
    }
}

impl Reserve {
    /// Value of `collateral_amount` collateral tokens of this reserve.
    pub fn collateral_value(&self, collateral_amount: u64) -> (r: Result<Decimal, LendingError>)
        ensures
            crate::decimal::decimal_is(r, self@.collateral_value(collateral_amount)),
    {
        let decimals = decimals_factor(self.liquidity.mint_decimals)?;
        let liquidity = self.collateral_exchange_rate()?.decimal_collateral_to_liquidity(
            Decimal::from_u64(collateral_amount),
        )?;
        market_value(liquidity, self.liquidity.market_price, decimals)
    }

    /// Value of `liquidity_amount` of this reserve's token.
    pub fn liquidity_value(&self, liquidity_amount: Decimal) -> (r: Result<Decimal, LendingError>)
        ensures
            crate::decimal::decimal_is(r, self@.liquidity_value(liquidity_amount@)),
    {
        let decimals = decimals_factor(self.liquidity.mint_decimals)?;
        market_value(liquidity_amount, self.liquidity.market_price, decimals)
    }
}

/// The deposit `entry` valued against `account` at `slot`, with what it adds
/// to the allowed and to the unhealthy borrow value: its value times the
/// loan-to-value ratio, and times the liquidation threshold.
pub open spec fn spec_refresh_deposit(
    entry: ObligationCollateralView,
    account: ReserveAccount,
    slot: u64,
) -> Result<(ObligationCollateralView, nat, nat), LendingError> {
    match spec_account_fault(entry.deposit_reserve, account, slot) {
        Some(e) => Err(e),
        None => match account.reserve@.collateral_value(entry.deposited_amount) {
            None => Err(LendingError::MathOverflow),
            Some(value) => match spec_mul(
                value,
                account.reserve.config.loan_to_value_ratio as nat * percent_scaler(),
            ) {
                None => Err(LendingError::MathOverflow),
                Some(allowed) => match spec_mul(
                    value,
                    account.reserve.config.liquidation_threshold as nat * percent_scaler(),
                ) {
                    None => Err(LendingError::MathOverflow),
                    Some(unhealthy) => Ok(
                        (ObligationCollateralView { market_value: value, ..entry }, allowed, unhealthy),
                    ),
                },
            },
        },
    }
}

/// The borrow `entry` with the interest of `account` added, valued at `slot`.
pub open spec fn spec_refresh_borrow(
    entry: ObligationLiquidityView,
    account: ReserveAccount,
    slot: u64,
) -> Result<ObligationLiquidityView, LendingError> {
    match spec_account_fault(entry.borrow_reserve, account, slot) {
        Some(e) => Err(e),
        None => match entry.accrue_interest(account.reserve.liquidity.cumulative_borrow_rate_wads@) {
            Err(e) => Err(e),
            Ok(accrued) => match account.reserve@.liquidity_value(accrued.borrowed_amount_wads) {
                None => Err(LendingError::MathOverflow),
                Some(value) => Ok(ObligationLiquidityView { market_value: value, ..accrued }),
            },
        },
    }
}

/// The deposits that were valued so far, and the sums over them.
pub ghost struct DepositTotals {
    /// The valued entries.
    pub entries: Seq<ObligationCollateralView>,
    /// Scaled sum of their values.
    pub deposited_value: nat,
    /// Scaled sum of what they allow to borrow.
    pub allowed_borrow_value: nat,
    /// Scaled sum of what they tolerate before liquidation.
    pub unhealthy_borrow_value: nat,
}

impl DepositTotals {
    /// Nothing valued yet.
    pub open spec fn start() -> DepositTotals {
        DepositTotals {
            entries: Seq::empty(),
            deposited_value: 0,
            allowed_borrow_value: 0,
            unhealthy_borrow_value: 0,
        }
    }

    /// With one more valued entry.
    pub open spec fn with(self, entry: ObligationCollateralView, allowed: nat, unhealthy: nat) -> Option<
        DepositTotals,
    > {
        match (
            spec_add(self.deposited_value, entry.market_value),
            spec_add(self.allowed_borrow_value, allowed),
            spec_add(self.unhealthy_borrow_value, unhealthy),
        ) {
            (Some(deposited_value), Some(allowed_borrow_value), Some(unhealthy_borrow_value)) => Some(
                DepositTotals {
                    entries: self.entries.push(entry),
                    deposited_value,
                    allowed_borrow_value,
                    unhealthy_borrow_value,
                },
            ),
            _ => None,
        }
    }
}

/// The borrows that were valued so far, and the sum of their values.
pub ghost struct BorrowTotals {
    /// The valued entries.
    pub entries: Seq<ObligationLiquidityView>,
    /// Scaled sum of their values.
    pub borrowed_value: nat,
}

impl BorrowTotals {
    /// Nothing valued yet.
    pub open spec fn start() -> BorrowTotals {
        BorrowTotals { entries: Seq::empty(), borrowed_value: 0 }
    }

    /// With one more valued entry.
    pub open spec fn with(self, entry: ObligationLiquidityView) -> Option<BorrowTotals> {
        match spec_add(self.borrowed_value, entry.market_value) {
            Some(borrowed_value) => Some(
                BorrowTotals { entries: self.entries.push(entry), borrowed_value },
            ),
            None => None,
        }
    }
}

/// The first `n` deposits valued in order, each against the account at its
/// own position. The first entry that fails decides the error.
pub open spec fn spec_refresh_deposits(
    deposits: Seq<ObligationCollateralView>,
    accounts: Seq<ReserveAccount>,
    slot: u64,
    n: nat,
) -> Result<DepositTotals, LendingError>
    decreases n,
{
    if n == 0 {
        Ok(DepositTotals::start())
    } else {
        match spec_refresh_deposits(deposits, accounts, slot, (n - 1) as nat) {
            Err(e) => Err(e),
            Ok(totals) => match spec_refresh_deposit(deposits[n - 1], accounts[n - 1], slot) {
                Err(e) => Err(e),
                Ok((entry, allowed, unhealthy)) => or_overflow(
                    totals.with(entry, allowed, unhealthy),
                ),
            },
        }
    }
}

/// The first `n` borrows valued in order, each against the account at its
/// position after the `offset` accounts of the deposits. The first entry that
/// fails decides the error.
pub open spec fn spec_refresh_borrows(
    borrows: Seq<ObligationLiquidityView>,
    accounts: Seq<ReserveAccount>,
    offset: nat,
    slot: u64,
    n: nat,
) -> Result<BorrowTotals, LendingError>
    decreases n,
{
    if n == 0 {
        Ok(BorrowTotals::start())
    } else {
        match spec_refresh_borrows(borrows, accounts, offset, slot, (n - 1) as nat) {
            Err(e) => Err(e),
            Ok(totals) => match spec_refresh_borrow(borrows[n - 1], accounts[offset + n - 1], slot) {
                Err(e) => Err(e),
                Ok(entry) => or_overflow(totals.with(entry)),
            },
        }
    }
}

impl ObligationView {
    /// After a refresh at `slot` against `accounts`, which must be the
    /// reserves of the deposits followed by those of the borrows, in the order
    /// of the entries; any other number of accounts is `InvalidAccountInput`.
    pub open spec fn refresh(self, accounts: Seq<ReserveAccount>, slot: u64) -> Result<
        ObligationView,
        LendingError,
    > {
        if accounts.len() != self.deposits.len() + self.borrows.len() {
            Err(LendingError::InvalidAccountInput)
        } else {
            match spec_refresh_deposits(self.deposits, accounts, slot, self.deposits.len()) {
                Err(e) => Err(e),
                Ok(deposits) => match spec_refresh_borrows(
                    self.borrows,
                    accounts,
                    self.deposits.len(),
                    slot,
                    self.borrows.len(),
                ) {
                    Err(e) => Err(e),
                    Ok(borrows) => Ok(
                        ObligationView {
                            last_update: LastUpdate { slot, stale: false },
                            deposits: deposits.entries,
                            borrows: borrows.entries,
                            deposited_value: deposits.deposited_value,
                            borrowed_value: borrows.borrowed_value,
                            allowed_borrow_value: deposits.allowed_borrow_value,
                            unhealthy_borrow_value: deposits.unhealthy_borrow_value,
                        },
                    ),
                },
            }
        }
    }
}

/// A smaller amount of a reserve's token is worth no more than a larger one.
/// So when a debt shrinks, its value at the next refresh at the same price is
/// no higher than before.
pub proof fn lemma_liquidity_value_is_monotone(reserve: ReserveView, smaller: nat, larger: nat)
    requires
        smaller <= larger,
        reserve.liquidity_value(larger) is Some,
    ensures
        reserve.liquidity_value(smaller) matches Some(worth) && worth <= reserve.liquidity_value(
            larger,
        )->0,
{
    let price = reserve.liquidity.market_price;
    let decimals = spec_decimals_factor(reserve.liquidity.mint_decimals)->0;
    assert(smaller * price <= larger * price) by (nonlinear_arith)
        requires
            smaller <= larger,
    ;
    lemma_div_is_ordered((smaller * price) as int, (larger * price) as int, wad() as int);
    lemma_div_is_ordered(
        (smaller * price / wad()) as int,
        (larger * price / wad()) as int,
        decimals as int,
    );
}

/// A borrow entry that owes less is, after the same refresh, worth no more and
/// owes no more. When the refresh of the larger entry succeeds, so does that
/// of the smaller.
pub proof fn lemma_refresh_borrow_is_monotone(
    smaller: ObligationLiquidityView,
    larger: ObligationLiquidityView,
    account: ReserveAccount,
    slot: u64,
)
    requires
        smaller.borrow_reserve == larger.borrow_reserve,
        smaller.cumulative_borrow_rate_wads == larger.cumulative_borrow_rate_wads,
        smaller.borrowed_amount_wads <= larger.borrowed_amount_wads,
        spec_refresh_borrow(larger, account, slot) is Ok,
    ensures
        spec_refresh_borrow(smaller, account, slot) matches Ok(valued) && {
            let other = spec_refresh_borrow(larger, account, slot)->Ok_0;
            &&& valued.market_value <= other.market_value
            &&& valued.borrowed_amount_wads <= other.borrowed_amount_wads
            &&& valued.borrow_reserve == other.borrow_reserve
            &&& valued.cumulative_borrow_rate_wads == other.cumulative_borrow_rate_wads
        },
{
    let cumulative = account.reserve.liquidity.cumulative_borrow_rate_wads@;
    let accrued = larger.accrue_interest(cumulative)->Ok_0;
    if cumulative > larger.cumulative_borrow_rate_wads {
        let ratio = cumulative * wad() / larger.cumulative_borrow_rate_wads;
        assert(smaller.borrowed_amount_wads * ratio <= larger.borrowed_amount_wads * ratio)
            by (nonlinear_arith)
            requires
                smaller.borrowed_amount_wads <= larger.borrowed_amount_wads,
        ;
        lemma_div_is_ordered(
            (smaller.borrowed_amount_wads * ratio) as int,
            (larger.borrowed_amount_wads * ratio) as int,
            wad() as int,
        );
    }
    lemma_liquidity_value_is_monotone(
        account.reserve@,
        smaller.accrue_interest(cumulative)->Ok_0.borrowed_amount_wads,
        accrued.borrowed_amount_wads,
    );
}

/// Borrows that owe no more, entry by entry, are worth no more in sum after
/// the same refresh. When the refresh of the larger borrows succeeds, so does
/// that of the smaller.
pub proof fn lemma_refresh_borrows_is_monotone(
    smaller: Seq<ObligationLiquidityView>,
    smaller_accounts: Seq<ReserveAccount>,
    smaller_offset: nat,
    larger: Seq<ObligationLiquidityView>,
    larger_accounts: Seq<ReserveAccount>,
    larger_offset: nat,
    slot: u64,
    n: nat,
)
    requires
        n <= smaller.len(),
        n <= larger.len(),
        forall|k: int|
            0 <= k < n ==> {
                &&& (#[trigger] smaller[k]).borrow_reserve == larger[k].borrow_reserve
                &&& smaller[k].cumulative_borrow_rate_wads == larger[k].cumulative_borrow_rate_wads
                &&& smaller[k].borrowed_amount_wads <= larger[k].borrowed_amount_wads
            },
        forall|k: int|
            0 <= k < n ==> (#[trigger] smaller_accounts[smaller_offset + k])
                == larger_accounts[larger_offset + k],
        spec_refresh_borrows(larger, larger_accounts, larger_offset, slot, n) is Ok,
    ensures
        spec_refresh_borrows(smaller, smaller_accounts, smaller_offset, slot, n) matches Ok(
            totals,
        ) && totals.borrowed_value <= spec_refresh_borrows(
            larger,
            larger_accounts,
            larger_offset,
            slot,
            n,
        )->Ok_0.borrowed_value,
    decreases n,
{
    if n > 0 {
        lemma_refresh_borrows_is_monotone(
            smaller,
            smaller_accounts,
            smaller_offset,
            larger,
            larger_accounts,
            larger_offset,
            slot,
            (n - 1) as nat,
        );
        assert(smaller[n - 1].borrow_reserve == larger[n - 1].borrow_reserve);
        assert(smaller_accounts[smaller_offset + (n - 1)] == larger_accounts[larger_offset + (n
            - 1)]);
        lemma_refresh_borrow_is_monotone(
            smaller[n - 1],
            larger[n - 1],
            larger_accounts[larger_offset + n - 1],
            slot,
        );
    }
}

/// What a deposit allows to borrow is no more than what it tolerates before
/// liquidation, and that is no more than its value, when the configuration
/// of its reserve is valid.
pub proof fn lemma_deposit_limits_are_ordered(
    entry: ObligationCollateralView,
    account: ReserveAccount,
    slot: u64,
)
    requires
        account.reserve.config.spec_valid(),
    ensures
        spec_refresh_deposit(entry, account, slot) matches Ok((valued, allowed, unhealthy))
            ==> allowed <= unhealthy <= valued.market_value,
{
    if spec_refresh_deposit(entry, account, slot) is Ok {
        let value = account.reserve@.collateral_value(entry.deposited_amount)->0;
        let ltv = account.reserve.config.loan_to_value_ratio as nat * percent_scaler();
        let threshold = account.reserve.config.liquidation_threshold as nat * percent_scaler();
        assert(value * ltv <= value * threshold && value * threshold <= value * wad())
            by (nonlinear_arith)
            requires
                ltv <= threshold <= wad(),
        ;
        lemma_div_is_ordered((value * ltv) as int, (value * threshold) as int, wad() as int);
        lemma_div_is_ordered((value * threshold) as int, (value * wad()) as int, wad() as int);
        lemma_div_multiples_vanish(value as int, wad() as int);
        assert(value * wad() == wad() * value) by (nonlinear_arith);
    }
}

/// After the first `n` deposits were valued against reserves with valid
/// configurations, what they allow to borrow is no more than what they
/// tolerate before liquidation, and that is no more than their value.
pub proof fn lemma_refreshed_limits_are_ordered(
    deposits: Seq<ObligationCollateralView>,
    accounts: Seq<ReserveAccount>,
    slot: u64,
    n: nat,
)
    requires
        forall|i: int| 0 <= i < n ==> (#[trigger] accounts[i]).reserve.config.spec_valid(),
    ensures
        spec_refresh_deposits(deposits, accounts, slot, n) matches Ok(totals)
            ==> totals.allowed_borrow_value <= totals.unhealthy_borrow_value
            <= totals.deposited_value,
    decreases n,
{
    if n > 0 {
        lemma_refreshed_limits_are_ordered(deposits, accounts, slot, (n - 1) as nat);
        lemma_deposit_limits_are_ordered(deposits[n - 1], accounts[n - 1], slot);
    }
}

/// An error among the first `n` deposits is the error of any longer prefix.
pub proof fn lemma_deposit_error_persists(
    deposits: Seq<ObligationCollateralView>,
    accounts: Seq<ReserveAccount>,
    slot: u64,
    n: nat,
    m: nat,
)
    requires
        n <= m,
    ensures
        spec_refresh_deposits(deposits, accounts, slot, n) matches Err(e)
            ==> spec_refresh_deposits(deposits, accounts, slot, m) == Err::<
            DepositTotals,
            LendingError,
        >(e),
    decreases m,
{
    if n < m {
        lemma_deposit_error_persists(deposits, accounts, slot, n, (m - 1) as nat);
    }
}

/// An error among the first `n` borrows is the error of any longer prefix.
pub proof fn lemma_borrow_error_persists(
    borrows: Seq<ObligationLiquidityView>,
    accounts: Seq<ReserveAccount>,
    offset: nat,
    slot: u64,
    n: nat,
    m: nat,
)
    requires
        n <= m,
    ensures
        spec_refresh_borrows(borrows, accounts, offset, slot, n) matches Err(e)
            ==> spec_refresh_borrows(borrows, accounts, offset, slot, m) == Err::<
            BorrowTotals,
            LendingError,
        >(e),
    decreases m,
{
    if n < m {
        lemma_borrow_error_persists(borrows, accounts, offset, slot, n, (m - 1) as nat);
    }
}

/// Valuing the deposits keeps every entry's reserve and amount.
pub proof fn lemma_refresh_keeps_deposits(
    deposits: Seq<ObligationCollateralView>,
    accounts: Seq<ReserveAccount>,
    slot: u64,
    n: nat,
)
    ensures
        spec_refresh_deposits(deposits, accounts, slot, n) matches Ok(totals) ==> {
            &&& totals.entries.len() == n
            &&& forall|k: int|
                0 <= k < n ==> {
                    &&& (#[trigger] totals.entries[k]).deposit_reserve
                        == deposits[k].deposit_reserve
                    &&& totals.entries[k].deposited_amount == deposits[k].deposited_amount
                }
        },
    decreases n,
{
    if n > 0 {
        lemma_refresh_keeps_deposits(deposits, accounts, slot, (n - 1) as nat);
    }
}

/// Adding interest never shrinks what an entry owes.
pub proof fn lemma_accrue_interest_grows(entry: ObligationLiquidityView, cumulative: nat)
    ensures
        entry.accrue_interest(cumulative) matches Ok(next) ==> {
            &&& next.borrowed_amount_wads >= entry.borrowed_amount_wads
            &&& next.borrow_reserve == entry.borrow_reserve
            &&& next.cumulative_borrow_rate_wads == cumulative
        },
{
    if entry.accrue_interest(cumulative) is Ok && cumulative > entry.cumulative_borrow_rate_wads {
        let recorded = entry.cumulative_borrow_rate_wads;
        assert(cumulative * wad() >= recorded * wad()) by (nonlinear_arith)
            requires
                cumulative >= recorded,
        ;
        lemma_div_is_ordered(
            (recorded * wad()) as int,
            (cumulative * wad()) as int,
            recorded as int,
        );
        assert(recorded * wad() == wad() * recorded) by (nonlinear_arith);
        lemma_div_multiples_vanish(wad() as int, recorded as int);
        lemma_rate_mul_grows(entry.borrowed_amount_wads, cumulative * wad() / recorded);
    }
}

/// Valuing the borrows keeps every entry's reserve and never shrinks what it owes.
pub proof fn lemma_refresh_keeps_borrows(
    borrows: Seq<ObligationLiquidityView>,
    accounts: Seq<ReserveAccount>,
    offset: nat,
    slot: u64,
    n: nat,
)
    ensures
        spec_refresh_borrows(borrows, accounts, offset, slot, n) matches Ok(totals) ==> {
            &&& totals.entries.len() == n
            &&& forall|k: int|
                0 <= k < n ==> {
                    &&& (#[trigger] totals.entries[k]).borrow_reserve == borrows[k].borrow_reserve
                    &&& totals.entries[k].borrowed_amount_wads >= borrows[k].borrowed_amount_wads
                }
        },
    decreases n,
{
    if n > 0 {
        lemma_refresh_keeps_borrows(borrows, accounts, offset, slot, (n - 1) as nat);
        lemma_accrue_interest_grows(
            borrows[n - 1],
            accounts[offset + n - 1].reserve.liquidity.cumulative_borrow_rate_wads@,
        );
    }
}

/// A refresh keeps a well-formed obligation well-formed, keeps the reserve of
/// every entry and the amount of every deposit, and leaves it fresh.
pub proof fn lemma_refresh_preserves_wf(
    obligation: ObligationView,
    accounts: Seq<ReserveAccount>,
    slot: u64,
)
    ensures
        obligation.refresh(accounts, slot) matches Ok(next) ==> {
            &&& obligation.wf() ==> next.wf()
            &&& next.last_update.fresh_at(slot)
            &&& next.deposits.len() == obligation.deposits.len()
            &&& next.borrows.len() == obligation.borrows.len()
            &&& forall|k: int|
                0 <= k < next.deposits.len() ==> {
                    &&& (#[trigger] next.deposits[k]).deposit_reserve
                        == obligation.deposits[k].deposit_reserve
                    &&& next.deposits[k].deposited_amount == obligation.deposits[k].deposited_amount
                }
        },
{
    lemma_refresh_keeps_deposits(obligation.deposits, accounts, slot, obligation.deposits.len());
    lemma_refresh_keeps_borrows(
        obligation.borrows,
        accounts,
        obligation.deposits.len(),
        slot,
        obligation.borrows.len(),
    );
}

/// Values one deposit entry against its reserve.
fn refresh_deposit(entry: &ObligationCollateral, account: &ReserveAccount, slot: u64) -> (r: Result<
    (ObligationCollateral, Decimal, Decimal),
    LendingError,
>)
    ensures
        match spec_refresh_deposit(entry@, *account, slot) {
            Ok((next, allowed, unhealthy)) => r matches Ok(x) && x.0@ == next && x.1@ == allowed
                && x.2@ == unhealthy,
            Err(e) => r matches Err(x) && x == e,
        },
{
    check_account(&entry.deposit_reserve, account, slot)?;
    let value = account.reserve.collateral_value(entry.deposited_amount)?;
    let allowed = value.try_mul_rate(
        Rate::from_percent(account.reserve.config.loan_to_value_ratio),
    )?;
    let unhealthy = value.try_mul_rate(
        Rate::from_percent(account.reserve.config.liquidation_threshold),
    )?;
    Ok((ObligationCollateral { market_value: value, ..*entry }, allowed, unhealthy))
}

/// Adds interest to one borrow entry and values it against its reserve.
fn refresh_borrow(entry: &ObligationLiquidity, account: &ReserveAccount, slot: u64) -> (r: Result<
    ObligationLiquidity,
    LendingError,
>)
    ensures
        match spec_refresh_borrow(entry@, *account, slot) {
            Ok(next) => r matches Ok(x) && x@ == next,
            Err(e) => r matches Err(x) && x == e,
        },
{
    check_account(&entry.borrow_reserve, account, slot)?;
    let mut accrued = *entry;
    accrued.accrue_interest(account.reserve.liquidity.cumulative_borrow_rate_wads)?;
    let value = account.reserve.liquidity_value(accrued.borrowed_amount_wads)?;
    Ok(ObligationLiquidity { market_value: value, ..accrued })
}

/// Refreshes `obligation` at `current_slot` against `accounts`: the reserves
/// of its deposits followed by those of its borrows, in the order of the
/// entries, each of them fresh.
///
/// A well-formed obligation stays well-formed, and an obligation that was
/// refreshed is fresh at `current_slot`.
pub fn refresh_obligation(
    obligation: &mut Obligation,
    accounts: &Vec<ReserveAccount>,
    current_slot: u64,
) -> (r: Result<(), LendingError>)
    ensures
        transition(
            r,
            *old(obligation),
            *final(obligation),
            old(obligation)@.refresh(accounts@, current_slot),
        ),
        old(obligation)@.wf() ==> final(obligation)@.wf(),
        r is Ok ==> final(obligation).last_update.fresh_at(current_slot),
        r is Ok && (forall|i: int|
            0 <= i < old(obligation).deposits.len() ==> (
            #[trigger] accounts[i]).reserve.config.spec_valid()) ==> {
            &&& final(obligation).allowed_borrow_value@ <= final(obligation).unhealthy_borrow_value@
            &&& final(obligation).unhealthy_borrow_value@ <= final(obligation).deposited_value@
        },
{
    let deposit_count = obligation.deposits.len();
    let borrow_count = obligation.borrows.len();
    if accounts.len() < deposit_count || accounts.len() - deposit_count != borrow_count {
        return Err(LendingError::InvalidAccountInput);
    }
    let ghost before = obligation@;
    proof {
        lemma_refresh_preserves_wf(before, accounts@, current_slot);
        if forall|i: int|
            0 <= i < deposit_count ==> (#[trigger] accounts[i]).reserve.config.spec_valid() {
            lemma_refreshed_limits_are_ordered(
                before.deposits,
                accounts@,
                current_slot,
                deposit_count as nat,
            );
        }
    }
    let mut deposits: Vec<ObligationCollateral> = Vec::new();
    let mut deposited_value = Decimal::zero();
    let mut allowed_borrow_value = Decimal::zero();
    let mut unhealthy_borrow_value = Decimal::zero();
    let mut i: usize = 0;
    assert(collateral_views(deposits@) =~= DepositTotals::start().entries);
    while i < deposit_count
        invariant
            *obligation == *old(obligation),
            before == obligation@,
            deposit_count == obligation.deposits.len(),
            borrow_count == obligation.borrows.len(),
            accounts.len() == deposit_count + borrow_count,
            i <= deposit_count,
            spec_refresh_deposits(before.deposits, accounts@, current_slot, i as nat) == Ok::<
                DepositTotals,
                LendingError,
            >(
                DepositTotals {
                    entries: collateral_views(deposits@),
                    deposited_value: deposited_value@,
                    allowed_borrow_value: allowed_borrow_value@,
                    unhealthy_borrow_value: unhealthy_borrow_value@,
                },
            ),
        decreases deposit_count - i,
    {
        proof {
            assert(before.deposits[i as int] == obligation.deposits@[i as int]@);
            lemma_deposit_error_persists(
                before.deposits,
                accounts@,
                current_slot,
                (i + 1) as nat,
                deposit_count as nat,
            );
        }
        let (entry, allowed, unhealthy) = refresh_deposit(
            &obligation.deposits[i],
            &accounts[i],
            current_slot,
        )?;
        let next_deposited = deposited_value.try_add(entry.market_value)?;
        let next_allowed = allowed_borrow_value.try_add(allowed)?;
        let next_unhealthy = unhealthy_borrow_value.try_add(unhealthy)?;
        proof {
            assert(collateral_views(deposits@.push(entry)) =~= collateral_views(deposits@).push(
                entry@,
            ));
        }
        deposits.push(entry);
        deposited_value = next_deposited;
        allowed_borrow_value = next_allowed;
        unhealthy_borrow_value = next_unhealthy;
        i += 1;
    }
    let mut borrows: Vec<ObligationLiquidity> = Vec::new();
    let mut borrowed_value = Decimal::zero();
    let mut k: usize = 0;
    assert(liquidity_views(borrows@) =~= BorrowTotals::start().entries);
    while k < borrow_count
        invariant
            *obligation == *old(obligation),
            before == obligation@,
            deposit_count == obligation.deposits.len(),
            borrow_count == obligation.borrows.len(),
            accounts.len() == deposit_count + borrow_count,
            k <= borrow_count,
            spec_refresh_deposits(
                before.deposits,
                accounts@,
                current_slot,
                deposit_count as nat,
            ) == Ok::<DepositTotals, LendingError>(
                DepositTotals {
                    entries: collateral_views(deposits@),
                    deposited_value: deposited_value@,
                    allowed_borrow_value: allowed_borrow_value@,
                    unhealthy_borrow_value: unhealthy_borrow_value@,
                },
            ),
            spec_refresh_borrows(
                before.borrows,
                accounts@,
                deposit_count as nat,
                current_slot,
                k as nat,
            ) == Ok::<BorrowTotals, LendingError>(
                BorrowTotals { entries: liquidity_views(borrows@), borrowed_value: borrowed_value@ },
            ),
        decreases borrow_count - k,
    {
        proof {
            assert(before.borrows[k as int] == obligation.borrows@[k as int]@);
            lemma_borrow_error_persists(
                before.borrows,
                accounts@,
                deposit_count as nat,
                current_slot,
                (k + 1) as nat,
                borrow_count as nat,
            );
        }
        let entry = refresh_borrow(
            &obligation.borrows[k],
            &accounts[deposit_count + k],
            current_slot,
        )?;
        let next_borrowed = borrowed_value.try_add(entry.market_value)?;
        proof {
            assert(liquidity_views(borrows@.push(entry)) =~= liquidity_views(borrows@).push(entry@));
        }
        borrows.push(entry);
        borrowed_value = next_borrowed;
        k += 1;
    }
    obligation.deposits = deposits;
    obligation.borrows = borrows;
    obligation.deposited_value = deposited_value;
    obligation.borrowed_value = borrowed_value;
    obligation.allowed_borrow_value = allowed_borrow_value;
    obligation.unhealthy_borrow_value = unhealthy_borrow_value;
    obligation.last_update.update_slot(current_slot);
    Ok(())
}

} // verus!
