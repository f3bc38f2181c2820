//! Borrowing liquidity against an obligation, and repaying it.

use vstd::prelude::*;
use vstd::arithmetic::div_mod::{
    lemma_div_is_ordered, lemma_div_multiples_vanish, lemma_fundamental_div_mod,
};
use crate::address::Address;
use crate::decimal::{wad, Decimal};
use crate::error::{joint_transition, LendingError};
use crate::lending::{require_fresh, spec_stale_fault};
use crate::obligation::{
    lemma_borrow_index, lemma_borrow_keeps_wf, lemma_repay_keeps_wf, Obligation, ObligationView,
};
use crate::reserve::{
    spec_amount_for_value, spec_calculate_repay, spec_decimals_factor, spec_market_value,
    BorrowAmounts, Reserve, ReserveView,
};
use crate::wide::limit;

verus! {

/// The token movements of a borrow, all out of the reserve's liquidity supply.
#[derive(Clone, Copy, Debug, PartialEq, Eq, Structural)]
pub struct BorrowOutcome {
    /// To the borrower.
    pub receive_amount: u64,
    /// To the fee receiver of the reserve.
    pub owner_fee: u64,
    /// To the host's fee receiver; zero when no host took part.
    pub host_fee: u64,
}

impl ReserveView {
    /// Scaled liquidity that may still be lent out under the borrow limit.
    pub open spec fn remaining_borrow_capacity(self) -> nat {
        if self.liquidity.borrowed_amount_wads <= self.config.borrow_limit as nat * wad() {
            (self.config.borrow_limit as nat * wad() - self.liquidity.borrowed_amount_wads) as nat
        } else {
            0
        }
    }
}

/// The fee split and the two states after the amounts of a borrow were
/// settled: the host's part of the fee goes to the host when one takes part,
/// the reserve lends the amount out, and the obligation owes it.
pub open spec fn spec_settle_borrow(
    reserve: ReserveView,
    obligation: ObligationView,
    reserve_key: Address,
    amounts: BorrowAmounts,
    host_fee_receiver: bool,
) -> Result<(ReserveView, ObligationView, BorrowOutcome), LendingError> {
    let host_fee = if host_fee_receiver {
        amounts.host_fee
    } else {
        0u64
    };
    if amounts.receive_amount == 0 {
        Err(LendingError::BorrowTooSmall)
    } else if host_fee > amounts.borrow_fee {
        Err(LendingError::MathUnderflow)
    } else {
        match reserve.liquidity.borrow(amounts.borrow_amount) {
            Err(e) => Err(e),
            Ok(liquidity) => match obligation.borrow(
                reserve_key,
                reserve.liquidity.cumulative_borrow_rate_wads,
                amounts.borrow_amount,
            ) {
                Err(e) => Err(e),
                Ok(owing) => Ok(
                    (
                        ReserveView { liquidity, ..reserve }.mark_stale(),
                        owing.mark_stale(),
                        BorrowOutcome {
                            receive_amount: amounts.receive_amount,
                            owner_fee: (amounts.borrow_fee - host_fee) as u64,
                            host_fee,
                        },
                    ),
                ),
            },
        }
    }
}

/// The two states and the token movements after a borrow of
/// `liquidity_amount` from `reserve`, which lives at `reserve_key`, at `slot`;
/// `u64::MAX` asks for everything that is allowed.
///
/// An amount of zero is `InvalidAmount`. Both states must be fresh. An
/// obligation whose borrows have reached the allowed value gets
/// `BorrowTooLarge`, whatever it holds. One without deposits, or with
/// deposits worth nothing, cannot borrow either. The borrow is then
/// calculated against the value that is left and the capacity that the
/// borrow limit leaves.
pub open spec fn spec_borrow_obligation_liquidity(
    reserve: ReserveView,
    obligation: ObligationView,
    reserve_key: Address,
    liquidity_amount: u64,
    slot: u64,
    host_fee_receiver: bool,
    waive_fees: bool,
) -> Result<(ReserveView, ObligationView, BorrowOutcome), LendingError> {
    if liquidity_amount == 0 {
        Err(LendingError::InvalidAmount)
    } else {
        match spec_stale_fault(reserve.last_update, slot, LendingError::ReserveStale) {
            Some(e) => Err(e),
            None => match spec_stale_fault(
                obligation.last_update,
                slot,
                LendingError::ObligationStale,
            ) {
                Some(e) => Err(e),
                None => if obligation.allowed_borrow_value <= obligation.borrowed_value {
                    Err(LendingError::BorrowTooLarge)
                } else if obligation.deposits.len() == 0 {
                    Err(LendingError::ObligationDepositsEmpty)
                } else if obligation.deposited_value == 0 {
                    Err(LendingError::ObligationDepositsZero)
                } else {
                    match reserve.calculate_borrow(
                        liquidity_amount,
                        (obligation.allowed_borrow_value - obligation.borrowed_value) as nat,
                        reserve.remaining_borrow_capacity(),
                        waive_fees,
                    ) {
                        Err(e) => Err(e),
                        Ok(amounts) => spec_settle_borrow(
                            reserve,
                            obligation,
                            reserve_key,
                            amounts,
                            host_fee_receiver,
                        ),
                    }
                },
            },
        }
    }
}

/// The two states and the amount to pay after a repayment of
/// `liquidity_amount` to `reserve`, which lives at `reserve_key`, at `slot`;
/// `u64::MAX` repays the whole debt, and more than is owed repays what is owed.
///
/// An amount of zero is `InvalidAmount`. Both states must be fresh, and the
/// obligation must owe something to the reserve. What is paid is the settled
/// debt rounded up, so that a payment never settles more than it brings.
pub open spec fn spec_repay_obligation_liquidity(
    reserve: ReserveView,
    obligation: ObligationView,
    reserve_key: Address,
    liquidity_amount: u64,
    slot: u64,
) -> Result<(ReserveView, ObligationView, u64), LendingError> {
    if liquidity_amount == 0 {
        Err(LendingError::InvalidAmount)
    } else {
        match spec_stale_fault(reserve.last_update, slot, LendingError::ReserveStale) {
            Some(e) => Err(e),
            None => match spec_stale_fault(
                obligation.last_update,
                slot,
                LendingError::ObligationStale,
            ) {
                Some(e) => Err(e),
                None => if obligation.borrows.len() == 0 {
                    Err(LendingError::ObligationBorrowsEmpty)
                } else {
                    match obligation.borrow_index(reserve_key) {
                        None => Err(LendingError::InvalidObligationLiquidity),
                        Some(index) => if obligation.borrows[index].borrowed_amount_wads == 0 {
                            Err(LendingError::ObligationLiquidityEmpty)
                        } else {
                            match spec_calculate_repay(
                                liquidity_amount,
                                obligation.borrows[index].borrowed_amount_wads,
                            ) {
                                Err(e) => Err(e),
                                Ok(amounts) => match reserve.liquidity.repay(
                                    amounts.repay_amount,
                                    amounts.settle_amount,
                                ) {
                                    Err(e) => Err(e),
                                    Ok(liquidity) => match obligation.repay(
                                        amounts.settle_amount,
                                        index,
                                    ) {
                                        Err(e) => Err(e),
                                        Ok(owing) => Ok(
                                            (
                                                ReserveView { liquidity, ..reserve }.mark_stale(),
                                                owing.mark_stale(),
                                                amounts.repay_amount,
                                            ),
                                        ),
                                    },
                                },
                            }
                        },
                    }
                },
            },
        }
    }
}

/// An amount that is no more than what a value buys is worth no more than that value.
pub proof fn lemma_amount_for_value_is_within(value: nat, price: nat, decimals: nat, amount: nat)
    requires
        decimals >= 1,
        spec_amount_for_value(value, price, decimals) matches Some(bought) && amount <= bought,
    ensures
        spec_market_value(amount, price, decimals) matches Some(worth) && worth <= value,
{
    let scaled = value * decimals;
    let bought = scaled * wad() / price;
    lemma_fundamental_div_mod((scaled * wad()) as int, price as int);
    assert(amount * price <= scaled * wad()) by (nonlinear_arith)
        requires
            amount <= bought,
            scaled * wad() == price * bought + (scaled * wad()) % price,
            (scaled * wad()) % price >= 0,
    ;
    lemma_div_is_ordered((amount * price) as int, (scaled * wad()) as int, wad() as int);
    lemma_div_multiples_vanish(scaled as int, wad() as int);
    let product = amount * price / wad();
    assert(product <= scaled);
    lemma_div_is_ordered(product as int, scaled as int, decimals as int);
    assert(value * decimals == decimals * value) by (nonlinear_arith);
    lemma_div_multiples_vanish(value as int, decimals as int);
}

/// A whole number of units has itself as its integer part.
pub proof fn lemma_floor_of_whole(units: nat)
    ensures
        units * wad() / wad() == units,
{
    lemma_div_multiples_vanish(units as int, wad() as int);
}

/// Conservation and the borrow bound, for every borrow that succeeds.
///
/// What leaves the reserve's available liquidity is exactly what the borrower,
/// the fee receiver and the host receive together, and it is the integer part
/// of what the reserve and the obligation newly record as owed: never more
/// than that. The new debt is worth no more than what the obligation could
/// still borrow.
pub proof fn lemma_borrow_is_conserved_and_bounded(
    reserve: ReserveView,
    obligation: ObligationView,
    reserve_key: Address,
    liquidity_amount: u64,
    slot: u64,
    host_fee_receiver: bool,
    waive_fees: bool,
)
    ensures
        spec_borrow_obligation_liquidity(
            reserve,
            obligation,
            reserve_key,
            liquidity_amount,
            slot,
            host_fee_receiver,
            waive_fees,
        ) matches Ok((after, owing, outcome)) ==> {
            let gross = reserve.liquidity.available_amount - after.liquidity.available_amount;
            let owed = after.liquidity.borrowed_amount_wads - reserve.liquidity.borrowed_amount_wads;
            &&& owed >= 0
            &&& gross == outcome.receive_amount + outcome.owner_fee + outcome.host_fee
            &&& gross == owed / (wad() as int)
            &&& gross * wad() <= owed
            &&& outcome.receive_amount > 0
            &&& reserve.liquidity_value(owed as nat) matches Some(worth) && obligation.borrowed_value
                + worth <= obligation.allowed_borrow_value
            &&& liquidity_amount != u64::MAX ==> outcome.receive_amount == liquidity_amount
            &&& liquidity_amount != u64::MAX ==> owed <= reserve.remaining_borrow_capacity()
            &&& obligation.wf() ==> owing.wf()
        },
{
    let result = spec_borrow_obligation_liquidity(
        reserve,
        obligation,
        reserve_key,
        liquidity_amount,
        slot,
        host_fee_receiver,
        waive_fees,
    );
    if result is Ok {
        let remaining = (obligation.allowed_borrow_value - obligation.borrowed_value) as nat;
        let capacity = reserve.remaining_borrow_capacity();
        let decimals = spec_decimals_factor(reserve.liquidity.mint_decimals)->0;
        crate::reserve::lemma_pow10_increases(0, reserve.liquidity.mint_decimals as nat);
        let amounts = reserve.calculate_borrow(liquidity_amount, remaining, capacity, waive_fees)->Ok_0;
        if liquidity_amount == u64::MAX {
            lemma_amount_for_value_is_within(
                remaining,
                reserve.liquidity.market_price,
                decimals,
                amounts.borrow_amount,
            );
        } else {
            lemma_floor_of_whole((liquidity_amount + amounts.borrow_fee) as nat);
            assert(amounts.borrow_amount == (liquidity_amount + amounts.borrow_fee) * wad())
                by (nonlinear_arith)
                requires
                    amounts.borrow_amount == liquidity_amount * wad() + amounts.borrow_fee * wad(),
            ;
        }
        if obligation.wf() {
            lemma_borrow_keeps_wf(
                obligation,
                reserve_key,
                reserve.liquidity.cumulative_borrow_rate_wads,
                amounts.borrow_amount,
            );
        }
    }
}

/// A repayment that succeeds keeps a well-formed obligation well-formed,
/// takes the payment into the reserve and never raises a debt, and the debt
/// that it settles is never more than the payment.
pub proof fn lemma_repay_reduces_debt(
    reserve: ReserveView,
    obligation: ObligationView,
    reserve_key: Address,
    liquidity_amount: u64,
    slot: u64,
)
    ensures
        spec_repay_obligation_liquidity(reserve, obligation, reserve_key, liquidity_amount, slot)
            matches Ok((after, owing, repay_amount)) ==> {
            &&& repay_amount > 0
            &&& after.liquidity.available_amount == reserve.liquidity.available_amount
                + repay_amount
            &&& after.liquidity.borrowed_amount_wads <= reserve.liquidity.borrowed_amount_wads
            &&& reserve.liquidity.borrowed_amount_wads - after.liquidity.borrowed_amount_wads
                <= repay_amount * wad()
            &&& obligation.wf() ==> owing.wf()
        },
{
    lemma_borrow_index(obligation, reserve_key);
    if spec_repay_obligation_liquidity(reserve, obligation, reserve_key, liquidity_amount, slot)
        is Ok && obligation.wf() {
        let index = obligation.borrow_index(reserve_key)->0;
        let amounts = spec_calculate_repay(
            liquidity_amount,
            obligation.borrows[index].borrowed_amount_wads,
        )->Ok_0;
        lemma_repay_keeps_wf(obligation, amounts.settle_amount, index);
    }
}

/// Borrows `liquidity_amount` from `reserve`, which lives at `reserve_key`,
/// against `obligation` at `current_slot`; `u64::MAX` borrows everything that
/// is allowed. `host_fee_receiver` says whether a host takes part in the fee,
/// and `waive_fees` that the borrow is returned within the same transaction
/// and costs no fee.
///
/// On success the liquidity that leaves the reserve is exactly what the three
/// receivers get, and the new debt is worth no more than what the obligation
/// could still borrow.
pub fn borrow_obligation_liquidity(
    reserve: &mut Reserve,
    obligation: &mut Obligation,
    reserve_key: Address,
    liquidity_amount: u64,
    current_slot: u64,
    host_fee_receiver: bool,
    waive_fees: bool,
) -> (r: Result<BorrowOutcome, LendingError>)
    ensures
        joint_transition(
            r,
            *old(reserve),
            *final(reserve),
            *old(obligation),
            *final(obligation),
            spec_borrow_obligation_liquidity(
                old(reserve)@,
                old(obligation)@,
                reserve_key,
                liquidity_amount,
                current_slot,
                host_fee_receiver,
                waive_fees,
            ),
        ),
        r matches Ok(outcome) ==> {
            &&& old(reserve).liquidity.available_amount - final(reserve).liquidity.available_amount
                == outcome.receive_amount + outcome.owner_fee + outcome.host_fee
            &&& old(reserve)@.liquidity_value(
                (final(reserve).liquidity.borrowed_amount_wads@ - old(reserve).liquidity.borrowed_amount_wads@) as nat,
            ) matches Some(worth) && old(obligation).borrowed_value@ + worth <= old(obligation).allowed_borrow_value@
        },
        old(obligation)@.wf() ==> final(obligation)@.wf(),
{
    proof {
        lemma_borrow_is_conserved_and_bounded(
            reserve@,
            obligation@,
            reserve_key,
            liquidity_amount,
            current_slot,
            host_fee_receiver,
            waive_fees,
        );
    }
    if liquidity_amount == 0 {
        return Err(LendingError::InvalidAmount);
    }
    require_fresh(&reserve.last_update, current_slot, LendingError::ReserveStale)?;
    require_fresh(&obligation.last_update, current_slot, LendingError::ObligationStale)?;
    if obligation.allowed_borrow_value.le(obligation.borrowed_value) {
        return Err(LendingError::BorrowTooLarge);
    }
    if obligation.deposits.len() == 0 {
        return Err(LendingError::ObligationDepositsEmpty);
    }
    if obligation.deposited_value.is_zero() {
        return Err(LendingError::ObligationDepositsZero);
    }
    let remaining = obligation.remaining_borrow_value()?;
    let borrow_limit = Decimal::from_u64(reserve.config.borrow_limit);
    let capacity = if reserve.liquidity.borrowed_amount_wads.le(borrow_limit) {
        borrow_limit.try_sub(reserve.liquidity.borrowed_amount_wads)?
    } else {
        Decimal::zero()
    };
    let amounts = reserve.calculate_borrow(liquidity_amount, remaining, capacity, waive_fees)?;
    if amounts.receive_amount == 0 {
        return Err(LendingError::BorrowTooSmall);
    }
    let host_fee: u64 = if host_fee_receiver {
        amounts.host_fee
    } else {
        0
    };
    let owner_fee = match amounts.borrow_fee.checked_sub(host_fee) {
        Some(v) => v,
        None => {
            return Err(LendingError::MathUnderflow);
        },
    };
    let cumulative = reserve.liquidity.cumulative_borrow_rate_wads;
    let mut next = *reserve;
    next.liquidity.borrow(amounts.borrow_amount)?;
    next.last_update.mark_stale();
    obligation.borrow(reserve_key, cumulative, amounts.borrow_amount)?;
    obligation.last_update.mark_stale();
    *reserve = next;
    Ok(BorrowOutcome { receive_amount: amounts.receive_amount, owner_fee, host_fee })
}

/// Repays `liquidity_amount` of what `obligation` owes to `reserve`, which
/// lives at `reserve_key`, at `current_slot`, and returns the amount that the
/// repayer pays into the reserve; `u64::MAX` repays the whole debt.
pub fn repay_obligation_liquidity(
    reserve: &mut Reserve,
    obligation: &mut Obligation,
    reserve_key: Address,
    liquidity_amount: u64,
    current_slot: u64,
) -> (r: Result<u64, LendingError>)
    ensures
        joint_transition(
            r,
            *old(reserve),
            *final(reserve),
            *old(obligation),
            *final(obligation),
            spec_repay_obligation_liquidity(
                old(reserve)@,
                old(obligation)@,
                reserve_key,
                liquidity_amount,
                current_slot,
            ),
        ),
        r matches Ok(repay_amount) ==> {
            &&& repay_amount > 0
            &&& final(reserve).liquidity.available_amount == old(reserve).liquidity.available_amount
                + repay_amount
            &&& final(reserve).liquidity.borrowed_amount_wads@ <= old(reserve).liquidity.borrowed_amount_wads@
        },
        old(obligation)@.wf() ==> final(obligation)@.wf(),
{
    proof {
        lemma_repay_reduces_debt(reserve@, obligation@, reserve_key, liquidity_amount, current_slot);
    }
    if liquidity_amount == 0 {
        return Err(LendingError::InvalidAmount);
    }
    require_fresh(&reserve.last_update, current_slot, LendingError::ReserveStale)?;
    require_fresh(&obligation.last_update, current_slot, LendingError::ObligationStale)?;
    let (entry, index) = obligation.find_liquidity_in_borrows(&reserve_key)?;
    if entry.borrowed_amount_wads.is_zero() {
        return Err(LendingError::ObligationLiquidityEmpty);
    }
    let amounts = reserve.calculate_repay(liquidity_amount, entry.borrowed_amount_wads)?;
    let mut next = *reserve;
    next.liquidity.repay(amounts.repay_amount, amounts.settle_amount)?;
    next.last_update.mark_stale();
    obligation.repay(amounts.settle_amount, index)?;
    obligation.last_update.mark_stale();
    *reserve = next;
    Ok(amounts.repay_amount)
}

} // verus!
