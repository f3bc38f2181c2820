//! Liquidating an unhealthy obligation: a liquidator repays part of a borrow
//! and takes collateral worth the repayment and a bonus.

use vstd::prelude::*;
use crate::address::Address;
use vstd::arithmetic::div_mod::{lemma_div_is_ordered, lemma_div_multiples_vanish};
use crate::decimal::{
    nat_min, percent_scaler, spec_ceil_u64, spec_div, spec_floor_u64, spec_mul, wad, Decimal,
};
use crate::error::{joint_transition, LendingError};
use crate::lending::{require_fresh, spec_stale_fault};
use crate::obligation_refresh::{lemma_refresh_borrows_is_monotone, ReserveAccount};
use crate::obligation::{
    lemma_repay_keeps_wf, lemma_withdraw_keeps_wf, Obligation, ObligationCollateral,
    ObligationCollateralView, ObligationLiquidity, ObligationLiquidityView, ObligationView,
    LIQUIDATION_CLOSE_FACTOR,
};
use crate::rate::{rate_add, Rate};
use crate::reserve::{Reserve, ReserveView};

verus! {

/// The amounts of a liquidation.
#[derive(Clone, Copy, Debug)]
pub struct CalculateLiquidationResult {
    /// The debt that is settled.
    pub settle_amount: Decimal,
    /// The liquidity that the liquidator pays.
    pub repay_amount: u64,
    /// The collateral that the liquidator takes.
    pub withdraw_amount: u64,
}

/// The amounts of a liquidation, with the settled debt as a scaled number.
pub ghost struct LiquidationAmounts {
    /// Scaled debt that is settled.
    pub settle_amount: nat,
    /// The liquidity that the liquidator pays.
    pub repay_amount: u64,
    /// The collateral that the liquidator takes.
    pub withdraw_amount: u64,
}

impl View for CalculateLiquidationResult {
    type V = LiquidationAmounts;

    open spec fn view(&self) -> LiquidationAmounts {
        LiquidationAmounts {
            settle_amount: self.settle_amount@,
            repay_amount: self.repay_amount,
            withdraw_amount: self.withdraw_amount,
        }
    }
}

/// What the liquidator pays and takes.
#[derive(Clone, Copy, Debug, PartialEq, Eq, Structural)]
pub struct LiquidationOutcome {
    /// Liquidity from the liquidator into the supply of the repaid reserve.
    pub repay_amount: u64,
    /// Collateral from the collateral supply of the other reserve to the liquidator.
    pub withdraw_amount: u64,
}

/// The amounts of a liquidation that settles the scaled `liquidation_amount`
/// of debt, worth the scaled `liquidation_value` with the bonus.
///
/// When the collateral is worth less than that, all of it goes, and the debt
/// settled is cut to the share that it pays for; the payment is that debt
/// rounded up. When it is worth the same, all of it goes for the whole. When
/// it is worth more, the share of it that is worth `liquidation_value` goes,
/// rounded down, and the payment is the debt rounded down.
pub open spec fn spec_split_liquidation(
    liquidation_value: nat,
    collateral: ObligationCollateralView,
    liquidation_amount: nat,
) -> Result<LiquidationAmounts, LendingError> {
    if liquidation_value > collateral.market_value {
        match spec_div(collateral.market_value, liquidation_value) {
            None => Err(LendingError::MathOverflow),
            Some(share) => match spec_mul(liquidation_amount, share) {
                None => Err(LendingError::MathOverflow),
                Some(cut) => match spec_ceil_u64(cut) {
                    None => Err(LendingError::MathOverflow),
                    Some(repay_amount) => Ok(
                        LiquidationAmounts {
                            settle_amount: cut,
                            repay_amount: repay_amount as u64,
                            withdraw_amount: collateral.deposited_amount,
                        },
                    ),
                },
            },
        }
    } else if liquidation_value == collateral.market_value {
        match spec_ceil_u64(liquidation_amount) {
            None => Err(LendingError::MathOverflow),
            Some(repay_amount) => Ok(
                LiquidationAmounts {
                    settle_amount: liquidation_amount,
                    repay_amount: repay_amount as u64,
                    withdraw_amount: collateral.deposited_amount,
                },
            ),
        }
    } else {
        match spec_div(liquidation_value, collateral.market_value) {
            None => Err(LendingError::MathOverflow),
            Some(share) => match spec_floor_u64(liquidation_amount) {
                None => Err(LendingError::MathOverflow),
                Some(repay_amount) => match spec_mul(
                    collateral.deposited_amount as nat * wad(),
                    share,
                ) {
                    None => Err(LendingError::MathOverflow),
                    Some(taken) => match spec_floor_u64(taken) {
                        None => Err(LendingError::MathOverflow),
                        Some(withdraw_amount) => Ok(
                            LiquidationAmounts {
                                settle_amount: liquidation_amount,
                                repay_amount: repay_amount as u64,
                                withdraw_amount: withdraw_amount as u64,
                            },
                        ),
                    },
                },
            },
        }
    }
}

/// The scaled amount that a liquidation of `amount_to_liquidate` may reach:
/// the whole debt for `u64::MAX`, else the amount and at most the debt.
pub open spec fn spec_liquidation_cap(amount_to_liquidate: u64, liquidity: ObligationLiquidityView) -> nat {
    if amount_to_liquidate == u64::MAX {
        liquidity.borrowed_amount_wads
    } else {
        nat_min(amount_to_liquidate as nat * wad(), liquidity.borrowed_amount_wads)
    }
}

/// The amounts of a liquidation of `amount_to_liquidate` of the borrow
/// `liquidity` against the deposit `collateral`, with the liquidation bonus
/// `liquidation_bonus` in percent; `u64::MAX` liquidates as much as possible.
///
/// At most the close factor of the borrow is settled, and the value of what
/// is settled, raised by the bonus, is taken in collateral.
pub open spec fn spec_calculate_liquidation(
    liquidation_bonus: u8,
    amount_to_liquidate: u64,
    liquidity: ObligationLiquidityView,
    collateral: ObligationCollateralView,
) -> Result<LiquidationAmounts, LendingError> {
    match (
        rate_add(liquidation_bonus as nat * percent_scaler(), wad()),
        liquidity.max_liquidation_amount(),
    ) {
        (Some(bonus_rate), Some(most)) => {
            let liquidation_amount = nat_min(
                most,
                spec_liquidation_cap(amount_to_liquidate, liquidity),
            );
            match spec_div(liquidation_amount, liquidity.borrowed_amount_wads) {
                None => Err(LendingError::MathOverflow),
                Some(share) => match spec_mul(liquidity.market_value, share) {
                    None => Err(LendingError::MathOverflow),
                    Some(value) => match spec_mul(value, bonus_rate) {
                        None => Err(LendingError::MathOverflow),
                        Some(liquidation_value) => spec_split_liquidation(
                            liquidation_value,
                            collateral,
                            liquidation_amount,
                        ),
                    },
                },
            }
        },
        _ => Err(LendingError::MathOverflow),
    }
}

/// The first of two faults.
pub open spec fn spec_first_fault(first: Option<LendingError>, second: Option<LendingError>) -> Option<
    LendingError,
> {
    match first {
        Some(e) => Some(e),
        None => second,
    }
}

/// The two states and what the liquidator pays and takes after a liquidation
/// at `slot`: `liquidity_amount` of what the obligation owes to
/// `repay_reserve` at `repay_key` is repaid, against the collateral of
/// `withdraw_reserve` at `withdraw_key`.
///
/// The obligation must be fresh. An obligation whose borrowed value is no
/// more than its unhealthy borrow value is `HealthyObligation`, whatever else
/// is asked. Then an amount of zero is `InvalidAmount`, and both reserves
/// must be fresh. A liquidation that pays or takes nothing is
/// `LiquidationTooSmall`.
pub open spec fn spec_liquidate_obligation(
    repay_reserve: ReserveView,
    obligation: ObligationView,
    withdraw_reserve: ReserveView,
    repay_key: Address,
    withdraw_key: Address,
    liquidity_amount: u64,
    slot: u64,
) -> Result<(ReserveView, ObligationView, LiquidationOutcome), LendingError> {
    let obligation_fault = spec_stale_fault(
        obligation.last_update,
        slot,
        LendingError::ObligationStale,
    );
    let reserve_fault = spec_first_fault(
        spec_stale_fault(repay_reserve.last_update, slot, LendingError::ReserveStale),
        spec_stale_fault(withdraw_reserve.last_update, slot, LendingError::ReserveStale),
    );
    if obligation_fault is Some {
        Err(obligation_fault->0)
    } else if obligation.borrowed_value <= obligation.unhealthy_borrow_value {
        Err(LendingError::HealthyObligation)
    } else if liquidity_amount == 0 {
        Err(LendingError::InvalidAmount)
    } else if reserve_fault is Some {
        Err(reserve_fault->0)
    } else if obligation.deposited_value == 0 {
        Err(LendingError::ObligationDepositsZero)
    } else if obligation.borrows.len() == 0 {
        Err(LendingError::ObligationBorrowsEmpty)
    } else {
        match obligation.borrow_index(repay_key) {
            None => Err(LendingError::InvalidObligationLiquidity),
            Some(liquidity_index) => if obligation.borrows[liquidity_index].market_value == 0 {
                Err(LendingError::ObligationLiquidityEmpty)
            } else if obligation.deposits.len() == 0 {
                Err(LendingError::ObligationDepositsEmpty)
            } else {
                match obligation.deposit_index(withdraw_key) {
                    None => Err(LendingError::InvalidObligationCollateral),
                    Some(collateral_index) => if obligation.deposits[collateral_index].market_value
                        == 0 {
                        Err(LendingError::ObligationCollateralEmpty)
                    } else {
                        match spec_calculate_liquidation(
                            withdraw_reserve.config.liquidation_bonus,
                            liquidity_amount,
                            obligation.borrows[liquidity_index],
                            obligation.deposits[collateral_index],
                        ) {
                            Err(e) => Err(e),
                            Ok(amounts) => spec_settle_liquidation(
                                repay_reserve,
                                obligation,
                                liquidity_index,
                                collateral_index,
                                amounts,
                            ),
                        }
                    },
                }
            },
        }
    }
}

/// The two states after the amounts of a liquidation were settled: the
/// reserve takes the payment, and the obligation loses the settled debt and
/// the collateral.
pub open spec fn spec_settle_liquidation(
    repay_reserve: ReserveView,
    obligation: ObligationView,
    liquidity_index: int,
    collateral_index: int,
    amounts: LiquidationAmounts,
) -> Result<(ReserveView, ObligationView, LiquidationOutcome), LendingError> {
    if amounts.repay_amount == 0 || amounts.withdraw_amount == 0 {
        Err(LendingError::LiquidationTooSmall)
    } else {
        match repay_reserve.liquidity.repay(amounts.repay_amount, amounts.settle_amount) {
            Err(e) => Err(e),
            Ok(liquidity) => match obligation.repay(amounts.settle_amount, liquidity_index) {
                Err(e) => Err(e),
                Ok(repaid) => match repaid.withdraw(amounts.withdraw_amount, collateral_index) {
                    Err(e) => Err(e),
                    Ok(withdrawn) => Ok(
                        (
                            ReserveView { liquidity, ..repay_reserve }.mark_stale(),
                            withdrawn.mark_stale(),
                            LiquidationOutcome {
                                repay_amount: amounts.repay_amount,
                                withdraw_amount: amounts.withdraw_amount,
                            },
                        ),
                    ),
                },
            },
        }
    }
}

/// A part divided by a larger whole is a share of at most one.
proof fn lemma_share_is_at_most_one(part: nat, whole: nat)
    requires
        part <= whole,
        whole > 0,
    ensures
        part * wad() / whole <= wad(),
{
    assert(part * wad() <= whole * wad()) by (nonlinear_arith)
        requires
            part <= whole,
    ;
    lemma_div_is_ordered((part * wad()) as int, (whole * wad()) as int, whole as int);
    lemma_div_multiples_vanish(wad() as int, whole as int);
}

/// A share of at most one of an amount is at most the amount.
proof fn lemma_share_of_amount(amount: nat, share: nat)
    requires
        share <= wad(),
    ensures
        amount * share / wad() <= amount,
{
    assert(amount * share <= amount * wad()) by (nonlinear_arith)
        requires
            share <= wad(),
    ;
    lemma_div_is_ordered((amount * share) as int, (amount * wad()) as int, wad() as int);
    lemma_div_multiples_vanish(amount as int, wad() as int);
}

/// The amounts of a liquidation fit the entries: what is settled is no more
/// than the close factor of the borrow and leaves some of it, and what is
/// taken is no more than the deposit holds. A liquidation that asks for a
/// payment settles some debt.
pub proof fn lemma_liquidation_amounts_fit(
    liquidation_bonus: u8,
    amount_to_liquidate: u64,
    liquidity: ObligationLiquidityView,
    collateral: ObligationCollateralView,
)
    ensures
        spec_calculate_liquidation(liquidation_bonus, amount_to_liquidate, liquidity, collateral)
            matches Ok(amounts) ==> {
            &&& liquidity.max_liquidation_amount() matches Some(most) && amounts.settle_amount
                <= most
            &&& 2 * amounts.settle_amount <= liquidity.borrowed_amount_wads
            &&& amounts.withdraw_amount <= collateral.deposited_amount
            &&& amounts.repay_amount > 0 ==> amounts.settle_amount > 0
        },
{
    if spec_calculate_liquidation(liquidation_bonus, amount_to_liquidate, liquidity, collateral)
        is Ok {
        let bonus_rate = rate_add(liquidation_bonus as nat * percent_scaler(), wad())->0;
        let most = liquidity.max_liquidation_amount()->0;
        let borrowed = liquidity.borrowed_amount_wads;
        let half = LIQUIDATION_CLOSE_FACTOR as nat * percent_scaler();
        assert(2 * (borrowed * half / wad()) <= borrowed) by (nonlinear_arith)
            requires
                2 * half == wad(),
        ;
        let liquidation_amount = nat_min(most, spec_liquidation_cap(amount_to_liquidate, liquidity));
        let share = spec_div(liquidation_amount, borrowed)->0;
        let value = spec_mul(liquidity.market_value, share)->0;
        let liquidation_value = spec_mul(value, bonus_rate)->0;
        if liquidation_value > collateral.market_value {
            lemma_share_is_at_most_one(collateral.market_value, liquidation_value);
            lemma_share_of_amount(liquidation_amount, collateral.market_value * wad() / liquidation_value);
        } else if liquidation_value < collateral.market_value {
            lemma_share_is_at_most_one(liquidation_value, collateral.market_value);
            let deposited = collateral.deposited_amount as nat * wad();
            lemma_share_of_amount(deposited, liquidation_value * wad() / collateral.market_value);
            lemma_div_is_ordered(
                (deposited * (liquidation_value * wad() / collateral.market_value) / wad()) as int,
                deposited as int,
                wad() as int,
            );
            lemma_div_multiples_vanish(collateral.deposited_amount as int, wad() as int);
        }
    }
}

/// Splits a liquidation between payment and collateral.
fn split_liquidation(
    liquidation_value: Decimal,
    collateral: &ObligationCollateral,
    liquidation_amount: Decimal,
) -> (r: Result<CalculateLiquidationResult, LendingError>)
    ensures
        match spec_split_liquidation(liquidation_value@, collateral@, liquidation_amount@) {
            Ok(amounts) => r matches Ok(x) && x@ == amounts,
            Err(e) => r matches Err(x) && x == e,
        },
{
    if collateral.market_value.lt(liquidation_value) {
        let share = collateral.market_value.try_div(liquidation_value)?;
        let cut = liquidation_amount.try_mul(share)?;
        let repay_amount = cut.try_ceil_u64()?;
        Ok(
            CalculateLiquidationResult {
                settle_amount: cut,
                repay_amount,
                withdraw_amount: collateral.deposited_amount,
            },
        )
    } else if liquidation_value == collateral.market_value {
        let repay_amount = liquidation_amount.try_ceil_u64()?;
        Ok(
            CalculateLiquidationResult {
                settle_amount: liquidation_amount,
                repay_amount,
                withdraw_amount: collateral.deposited_amount,
            },
        )
    } else {
        let share = liquidation_value.try_div(collateral.market_value)?;
        let repay_amount = liquidation_amount.try_floor_u64()?;
        let withdraw_amount = Decimal::from_u64(collateral.deposited_amount).try_mul(
            share,
        )?.try_floor_u64()?;
        Ok(
            CalculateLiquidationResult {
                settle_amount: liquidation_amount,
                repay_amount,
                withdraw_amount,
            },
        )
    }
}

impl Reserve {
    /// The amounts of a liquidation of `amount_to_liquidate` of the borrow
    /// `liquidity` against the deposit `collateral` of this reserve;
    /// `u64::MAX` liquidates as much as possible.
    ///
    /// No more is settled than the close factor of the borrow, and no more is
    /// taken than the deposit holds.
    pub fn calculate_liquidation(
        &self,
        amount_to_liquidate: u64,
        liquidity: &ObligationLiquidity,
        collateral: &ObligationCollateral,
    ) -> (r: Result<CalculateLiquidationResult, LendingError>)
        ensures
            match spec_calculate_liquidation(
                self.config.liquidation_bonus,
                amount_to_liquidate,
                liquidity@,
                collateral@,
            ) {
                Ok(amounts) => r matches Ok(x) && x@ == amounts,
                Err(e) => r matches Err(x) && x == e,
            },
            r matches Ok(x) ==> 2 * x.settle_amount@ <= liquidity.borrowed_amount_wads@
                && x.withdraw_amount <= collateral.deposited_amount,
    {
        proof {
            lemma_liquidation_amounts_fit(
                self.config.liquidation_bonus,
                amount_to_liquidate,
                liquidity@,
                collateral@,
            );
        }
        let bonus_rate = Decimal::from_rate(
            Rate::from_percent(self.config.liquidation_bonus).try_add(Rate::one())?,
        );
        let most = liquidity.max_liquidation_amount()?;
        let cap = if amount_to_liquidate == u64::MAX {
            liquidity.borrowed_amount_wads
        } else {
            Decimal::from_u64(amount_to_liquidate).min(liquidity.borrowed_amount_wads)
        };
        let liquidation_amount = most.min(cap);
        let share = liquidation_amount.try_div(liquidity.borrowed_amount_wads)?;
        let liquidation_value = liquidity.market_value.try_mul(share)?.try_mul(bonus_rate)?;
        split_liquidation(liquidation_value, collateral, liquidation_amount)
    }
}

/// What a liquidation that succeeds does. The obligation was unhealthy. The
/// liquidator pays and takes something. Of the debt to the repaid reserve at
/// most the close factor is settled: its entry shrinks and stays. The
/// collateral of the other reserve shrinks, or its entry goes. Nothing else
/// changes in the obligation but the stamp. The reserve takes the payment,
/// and its debt does not grow.
pub proof fn lemma_liquidation_reduces_debt(
    repay_reserve: ReserveView,
    obligation: ObligationView,
    withdraw_reserve: ReserveView,
    repay_key: Address,
    withdraw_key: Address,
    liquidity_amount: u64,
    slot: u64,
)
    ensures
        spec_liquidate_obligation(
            repay_reserve,
            obligation,
            withdraw_reserve,
            repay_key,
            withdraw_key,
            liquidity_amount,
            slot,
        ) matches Ok((reserve_after, after, outcome)) ==> {
            let i = obligation.borrow_index(repay_key)->0;
            let k = obligation.deposit_index(withdraw_key)->0;
            &&& obligation.borrowed_value > obligation.unhealthy_borrow_value
            &&& outcome.repay_amount > 0
            &&& outcome.withdraw_amount > 0
            &&& 0 <= i < obligation.borrows.len()
            &&& 0 <= k < obligation.deposits.len()
            &&& 0 < after.borrows[i].borrowed_amount_wads
                < obligation.borrows[i].borrowed_amount_wads
            &&& obligation.borrows[i].borrowed_amount_wads <= 2
                * after.borrows[i].borrowed_amount_wads
            &&& after.borrows == obligation.borrows.update(
                i,
                ObligationLiquidityView {
                    borrowed_amount_wads: after.borrows[i].borrowed_amount_wads,
                    ..obligation.borrows[i]
                },
            )
            &&& after.deposits == obligation.deposits.remove(k) || {
                &&& 0 < after.deposits[k].deposited_amount < obligation.deposits[k].deposited_amount
                &&& after.deposits == obligation.deposits.update(
                    k,
                    ObligationCollateralView {
                        deposited_amount: after.deposits[k].deposited_amount,
                        ..obligation.deposits[k]
                    },
                )
            }
            &&& after.borrowed_value == obligation.borrowed_value
            &&& after.unhealthy_borrow_value == obligation.unhealthy_borrow_value
            &&& reserve_after.liquidity.borrowed_amount_wads
                <= repay_reserve.liquidity.borrowed_amount_wads
            &&& reserve_after.liquidity.available_amount == repay_reserve.liquidity.available_amount
                + outcome.repay_amount
            &&& obligation.wf() ==> after.wf()
        },
{
    let result = spec_liquidate_obligation(
        repay_reserve,
        obligation,
        withdraw_reserve,
        repay_key,
        withdraw_key,
        liquidity_amount,
        slot,
    );
    if result is Ok {
        let i = obligation.borrow_index(repay_key)->0;
        let k = obligation.deposit_index(withdraw_key)->0;
        assert(obligation.is_borrow_index(repay_key, i));
        assert(obligation.is_deposit_index(withdraw_key, k));
        let amounts = spec_calculate_liquidation(
            withdraw_reserve.config.liquidation_bonus,
            liquidity_amount,
            obligation.borrows[i],
            obligation.deposits[k],
        )->Ok_0;
        lemma_liquidation_amounts_fit(
            withdraw_reserve.config.liquidation_bonus,
            liquidity_amount,
            obligation.borrows[i],
            obligation.deposits[k],
        );
        if obligation.wf() {
            lemma_repay_keeps_wf(obligation, amounts.settle_amount, i);
            lemma_withdraw_keeps_wf(
                obligation.repay(amounts.settle_amount, i)->Ok_0,
                amounts.withdraw_amount,
                k,
            );
        }
    }
}

/// Liquidates `liquidity_amount` of what `obligation` owes to
/// `repay_reserve`, which lives at `repay_key`, against its collateral of
/// `withdraw_reserve`, which lives at `withdraw_key`, at `current_slot`;
/// `u64::MAX` liquidates as much as possible.
///
/// A fresh obligation whose borrowed value is no more than its unhealthy
/// borrow value is always refused as `HealthyObligation`. A liquidation that
/// succeeds takes a payment into the reserve and shrinks the reserve's debt.
pub fn liquidate_obligation(
    repay_reserve: &mut Reserve,
    obligation: &mut Obligation,
    withdraw_reserve: &Reserve,
    repay_key: Address,
    withdraw_key: Address,
    liquidity_amount: u64,
    current_slot: u64,
) -> (r: Result<LiquidationOutcome, LendingError>)
    ensures
        joint_transition(
            r,
            *old(repay_reserve),
            *final(repay_reserve),
            *old(obligation),
            *final(obligation),
            spec_liquidate_obligation(
                old(repay_reserve)@,
                old(obligation)@,
                withdraw_reserve@,
                repay_key,
                withdraw_key,
                liquidity_amount,
                current_slot,
            ),
        ),
        old(obligation).borrowed_value@ <= old(obligation).unhealthy_borrow_value@ ==> r is Err,
        old(obligation).last_update.fresh_at(current_slot) && old(obligation).borrowed_value@
            <= old(obligation).unhealthy_borrow_value@ ==> r == Err::<
            LiquidationOutcome,
            LendingError,
        >(LendingError::HealthyObligation),
        r matches Ok(outcome) ==> {
            &&& outcome.repay_amount > 0
            &&& final(repay_reserve).liquidity.available_amount == old(repay_reserve).liquidity.available_amount + outcome.repay_amount
            &&& final(repay_reserve).liquidity.borrowed_amount_wads@ <= old(repay_reserve).liquidity.borrowed_amount_wads@
        },
        old(obligation)@.wf() ==> final(obligation)@.wf(),
{
    proof {
        lemma_liquidation_reduces_debt(
            repay_reserve@,
            obligation@,
            withdraw_reserve@,
            repay_key,
            withdraw_key,
            liquidity_amount,
            current_slot,
        );
    }
    require_fresh(&obligation.last_update, current_slot, LendingError::ObligationStale)?;
    if obligation.borrowed_value.le(obligation.unhealthy_borrow_value) {
        return Err(LendingError::HealthyObligation);
    }
    if liquidity_amount == 0 {
        return Err(LendingError::InvalidAmount);
    }
    require_fresh(&repay_reserve.last_update, current_slot, LendingError::ReserveStale)?;
    require_fresh(&withdraw_reserve.last_update, current_slot, LendingError::ReserveStale)?;
    if obligation.deposited_value.is_zero() {
        return Err(LendingError::ObligationDepositsZero);
    }
    let (liquidity, liquidity_index) = obligation.find_liquidity_in_borrows(&repay_key)?;
    if liquidity.market_value.is_zero() {
        return Err(LendingError::ObligationLiquidityEmpty);
    }
    let (collateral, collateral_index) = obligation.find_collateral_in_deposits(&withdraw_key)?;
    if collateral.market_value.is_zero() {
        return Err(LendingError::ObligationCollateralEmpty);
    }
    let amounts = withdraw_reserve.calculate_liquidation(liquidity_amount, &liquidity, &collateral)?;
    if amounts.repay_amount == 0 || amounts.withdraw_amount == 0 {
        return Err(LendingError::LiquidationTooSmall);
    }
    let mut next = *repay_reserve;
    next.liquidity.repay(amounts.repay_amount, amounts.settle_amount)?;
    next.last_update.mark_stale();
    proof {
        lemma_repay_then_withdraw_succeed(
            obligation@,
            amounts@,
            liquidity_index as int,
            collateral_index as int,
        );
    }
    obligation.repay(amounts.settle_amount, liquidity_index)?;
    obligation.withdraw(amounts.withdraw_amount, collateral_index)?;
    obligation.last_update.mark_stale();
    *repay_reserve = next;
    Ok(
        LiquidationOutcome {
            repay_amount: amounts.repay_amount,
            withdraw_amount: amounts.withdraw_amount,
        },
    )
}

/// Amounts that fit the entries can be taken from them: the repayment and the
/// withdrawal both succeed.
proof fn lemma_repay_then_withdraw_succeed(
    obligation: ObligationView,
    amounts: LiquidationAmounts,
    liquidity_index: int,
    collateral_index: int,
)
    requires
        0 <= liquidity_index < obligation.borrows.len(),
        0 <= collateral_index < obligation.deposits.len(),
        amounts.settle_amount <= obligation.borrows[liquidity_index].borrowed_amount_wads,
        amounts.withdraw_amount <= obligation.deposits[collateral_index].deposited_amount,
    ensures
        obligation.repay(amounts.settle_amount, liquidity_index) matches Ok(repaid)
            && repaid.withdraw(amounts.withdraw_amount, collateral_index) is Ok,
{
}

/// After a liquidation the obligation is worth no more in debt at the next
/// refresh than it would have been without it: refreshed against the same
/// reserves for its borrows, the borrowed value of the liquidated obligation
/// is at most that of the obligation as it was.
pub proof fn lemma_liquidation_lowers_refreshed_debt(
    repay_reserve: ReserveView,
    obligation: ObligationView,
    withdraw_reserve: ReserveView,
    repay_key: Address,
    withdraw_key: Address,
    liquidity_amount: u64,
    slot: u64,
    accounts_before: Seq<ReserveAccount>,
    accounts_after: Seq<ReserveAccount>,
    refresh_slot: u64,
)
    requires
        spec_liquidate_obligation(
            repay_reserve,
            obligation,
            withdraw_reserve,
            repay_key,
            withdraw_key,
            liquidity_amount,
            slot,
        ) matches Ok((_, after, _)) && {
            &&& after.refresh(accounts_after, refresh_slot) is Ok
            &&& forall|k: int|
                0 <= k < obligation.borrows.len() ==> (#[trigger] accounts_after[after.deposits.len()
                    + k]) == accounts_before[obligation.deposits.len() + k]
        },
        obligation.refresh(accounts_before, refresh_slot) is Ok,
    ensures
        ({
            let after = spec_liquidate_obligation(
                repay_reserve,
                obligation,
                withdraw_reserve,
                repay_key,
                withdraw_key,
                liquidity_amount,
                slot,
            )->Ok_0.1;
            after.refresh(accounts_after, refresh_slot)->Ok_0.borrowed_value <= obligation.refresh(
                accounts_before,
                refresh_slot,
            )->Ok_0.borrowed_value
        }),
{
    lemma_liquidation_reduces_debt(
        repay_reserve,
        obligation,
        withdraw_reserve,
        repay_key,
        withdraw_key,
        liquidity_amount,
        slot,
    );
    let after = spec_liquidate_obligation(
        repay_reserve,
        obligation,
        withdraw_reserve,
        repay_key,
        withdraw_key,
        liquidity_amount,
        slot,
    )->Ok_0.1;
    lemma_refresh_borrows_is_monotone(
        after.borrows,
        accounts_after,
        after.deposits.len(),
        obligation.borrows,
        accounts_before,
        obligation.deposits.len(),
        refresh_slot,
        obligation.borrows.len(),
    );
}

} // verus!
