//! Deposits and withdrawals: liquidity into and out of a reserve, and
//! collateral into and out of an obligation.

use vstd::prelude::*;
use crate::address::Address;
use crate::decimal::{
    nat_min, percent_scaler, spec_add, spec_div, spec_div_int, spec_floor_u64, spec_mul,
    spec_mul_int, wad, Decimal,
};
use crate::error::{joint_transition, transition, transition_with, LendingError};
use crate::last_update::LastUpdate;
use crate::obligation::{
    lemma_deposit_index, lemma_deposit_keeps_wf, lemma_withdraw_keeps_wf, Obligation,
    ObligationCollateral, ObligationCollateralView, ObligationView,
};
use crate::rate::Rate;
use crate::reserve::{Reserve, ReserveView};

verus! {

/// Why a stamp does not allow an operation at `slot`, if it does not: a stamp
/// that is stale is `stale_error`.
pub open spec fn spec_stale_fault(last_update: LastUpdate, slot: u64, stale_error: LendingError) -> Option<
    LendingError,
> {
    match last_update.spec_is_stale(slot) {
        Err(e) => Some(e),
        Ok(true) => Some(stale_error),
        Ok(false) => None,
    }
}

/// Checks that a stamp is fresh at `slot`, and reports `stale_error` when it is stale.
pub fn require_fresh(last_update: &LastUpdate, slot: u64, stale_error: LendingError) -> (r: Result<
    (),
    LendingError,
>)
    ensures
        match spec_stale_fault(*last_update, slot, stale_error) {
            Some(e) => r == Err::<(), LendingError>(e),
            None => r is Ok && last_update.fresh_at(slot),
        },
{
    if last_update.is_stale(slot)? {
        Err(stale_error)
    } else {
        Ok(())
    }
}

impl ReserveView {
    /// With the stamp marked stale.
    pub open spec fn mark_stale(self) -> ReserveView {
        ReserveView { last_update: LastUpdate { stale: true, ..self.last_update }, ..self }
    }

    /// Whether `liquidity_amount` more liquidity stays within the deposit limit.
    pub open spec fn within_deposit_limit(self, liquidity_amount: u64) -> Option<bool> {
        match self.liquidity.total_supply() {
            None => None,
            Some(total) => match spec_add(liquidity_amount as nat * wad(), total) {
                None => None,
                Some(after) => Some(after <= self.config.deposit_limit as nat * wad()),
            },
        }
    }

    /// After `liquidity_amount` was deposited at `slot`, with the collateral
    /// minted for it. An amount of zero or one that passes the deposit limit
    /// is `InvalidAmount`; the reserve must be fresh and is stale afterwards.
    pub open spec fn deposit_reserve_liquidity(self, liquidity_amount: u64, slot: u64) -> Result<
        (ReserveView, u64),
        LendingError,
    > {
        if liquidity_amount == 0 {
            Err(LendingError::InvalidAmount)
        } else {
            match spec_stale_fault(self.last_update, slot, LendingError::ReserveStale) {
                Some(e) => Err(e),
                None => match self.within_deposit_limit(liquidity_amount) {
                    None => Err(LendingError::MathOverflow),
                    Some(false) => Err(LendingError::InvalidAmount),
                    Some(true) => match self.deposit_liquidity(liquidity_amount) {
                        Err(e) => Err(e),
                        Ok((next, minted)) => Ok((next.mark_stale(), minted)),
                    },
                },
            }
        }
    }

    /// After `collateral_amount` was redeemed at `slot`, with the liquidity
    /// paid out for it. An amount of zero is `InvalidAmount`; the reserve must
    /// be fresh and is stale afterwards.
    pub open spec fn redeem_reserve_collateral(self, collateral_amount: u64, slot: u64) -> Result<
        (ReserveView, u64),
        LendingError,
    > {
        if collateral_amount == 0 {
            Err(LendingError::InvalidAmount)
        } else {
            match spec_stale_fault(self.last_update, slot, LendingError::ReserveStale) {
                Some(e) => Err(e),
                None => match self.redeem_collateral(collateral_amount) {
                    Err(e) => Err(e),
                    Ok((next, paid)) => Ok((next.mark_stale(), paid)),
                },
            }
        }
    }
}

/// Deposits `liquidity_amount` into `reserve` at `current_slot` and returns
/// the collateral to mint for the depositor.
pub fn deposit_reserve_liquidity(reserve: &mut Reserve, liquidity_amount: u64, current_slot: u64) -> (r:
    Result<u64, LendingError>)
    ensures
        transition_with(
            r,
            *old(reserve),
            *final(reserve),
            old(reserve)@.deposit_reserve_liquidity(liquidity_amount, current_slot),
        ),
{
    if liquidity_amount == 0 {
        return Err(LendingError::InvalidAmount);
    }
    require_fresh(&reserve.last_update, current_slot, LendingError::ReserveStale)?;
    let after = Decimal::from_u64(liquidity_amount).try_add(reserve.liquidity.total_supply()?)?;
    if Decimal::from_u64(reserve.config.deposit_limit).lt(after) {
        return Err(LendingError::InvalidAmount);
    }
    let mut next = *reserve;
    let minted = next.deposit_liquidity(liquidity_amount)?;
    next.last_update.mark_stale();
    *reserve = next;
    Ok(minted)
}

/// Redeems `collateral_amount` of the collateral of `reserve` at
/// `current_slot` and returns the liquidity to pay out.
pub fn redeem_reserve_collateral(reserve: &mut Reserve, collateral_amount: u64, current_slot: u64) -> (r:
    Result<u64, LendingError>)
    ensures
        transition_with(
            r,
            *old(reserve),
            *final(reserve),
            old(reserve)@.redeem_reserve_collateral(collateral_amount, current_slot),
        ),
{
    if collateral_amount == 0 {
        return Err(LendingError::InvalidAmount);
    }
    require_fresh(&reserve.last_update, current_slot, LendingError::ReserveStale)?;
    let mut next = *reserve;
    let paid = next.redeem_collateral(collateral_amount)?;
    next.last_update.mark_stale();
    *reserve = next;
    Ok(paid)
}

/// The collateral that leaves the deposit `entry` when `collateral_amount` is
/// asked for, where `u64::MAX` asks for as much as possible.
///
/// Without borrows everything may go. With borrows, what goes may be worth no
/// more than `max_withdraw_value` allows at the loan-to-value ratio of
/// `reserve`: when that is nothing, or the request is worth more, the
/// refusal is `WithdrawTooLarge`, and `u64::MAX` takes the share of the entry
/// that is allowed. A withdrawal that comes to nothing is `WithdrawTooSmall`.
pub open spec fn spec_withdraw_amount(
    obligation: ObligationView,
    entry: ObligationCollateralView,
    reserve: ReserveView,
    collateral_amount: u64,
) -> Result<u64, LendingError> {
    if obligation.borrows.len() == 0 {
        Ok(
            if collateral_amount == u64::MAX {
                entry.deposited_amount
            } else {
                nat_min(entry.deposited_amount as nat, collateral_amount as nat) as u64
            },
        )
    } else {
        match obligation.max_withdraw_value(
            reserve.config.loan_to_value_ratio as nat * percent_scaler(),
        ) {
            None => Err(LendingError::MathOverflow),
            Some(max_value) => if max_value == 0 {
                Err(LendingError::WithdrawTooLarge)
            } else if obligation.deposited_value == 0 {
                Err(LendingError::ObligationDepositsZero)
            } else {
                let chosen: Result<u64, LendingError> = if collateral_amount == u64::MAX {
                    spec_largest_withdrawal(entry, max_value)
                } else {
                    spec_checked_withdrawal(entry, max_value, collateral_amount)
                };
                match chosen {
                    Err(e) => Err(e),
                    Ok(amount) => if amount == 0 {
                        Err(LendingError::WithdrawTooSmall)
                    } else {
                        Ok(amount)
                    },
                }
            },
        }
    }
}

/// The share of the deposit `entry` that is worth the scaled `max_value`,
/// rounded down, and at most the entry.
pub open spec fn spec_largest_withdrawal(entry: ObligationCollateralView, max_value: nat) -> Result<
    u64,
    LendingError,
> {
    match spec_div(nat_min(max_value, entry.market_value), entry.market_value) {
        None => Err(LendingError::MathOverflow),
        Some(share) => match spec_mul_int(share, entry.deposited_amount as nat) {
            None => Err(LendingError::MathOverflow),
            Some(amount) => match spec_floor_u64(amount) {
                None => Err(LendingError::MathOverflow),
                Some(whole) => Ok(nat_min(whole, entry.deposited_amount as nat) as u64),
            },
        },
    }
}

/// `collateral_amount`, or the whole deposit `entry` when that is less, when
/// its share of the entry's value is within the scaled `max_value`; else
/// `WithdrawTooLarge`.
pub open spec fn spec_checked_withdrawal(
    entry: ObligationCollateralView,
    max_value: nat,
    collateral_amount: u64,
) -> Result<u64, LendingError> {
    let amount = nat_min(collateral_amount as nat, entry.deposited_amount as nat);
    match spec_div_int(amount * wad(), entry.deposited_amount as nat) {
        None => Err(LendingError::MathOverflow),
        Some(share) => match spec_mul(entry.market_value, share) {
            None => Err(LendingError::MathOverflow),
            Some(value) => if value > max_value {
                Err(LendingError::WithdrawTooLarge)
            } else {
                Ok(amount as u64)
            },
        },
    }
}

impl ObligationView {
    /// After `collateral_amount` of the collateral of the fresh `reserve` at
    /// `reserve_key` was deposited at `slot`. An amount of zero is
    /// `InvalidAmount`; the obligation is stale afterwards.
    pub open spec fn deposit_collateral(
        self,
        reserve: ReserveView,
        reserve_key: Address,
        collateral_amount: u64,
        slot: u64,
    ) -> Result<ObligationView, LendingError> {
        if collateral_amount == 0 {
            Err(LendingError::InvalidAmount)
        } else {
            match spec_stale_fault(reserve.last_update, slot, LendingError::ReserveStale) {
                Some(e) => Err(e),
                None => match self.deposit(reserve_key, collateral_amount) {
                    Err(e) => Err(e),
                    Ok(next) => Ok(next.mark_stale()),
                },
            }
        }
    }

    /// The deposit entry and the amount of a withdrawal of collateral of the
    /// fresh `reserve` at `reserve_key` at `slot`. A request of zero is
    /// `InvalidAmount`, and the obligation must be fresh and hold collateral
    /// of the reserve.
    pub open spec fn plan_withdrawal(
        self,
        reserve: ReserveView,
        reserve_key: Address,
        collateral_amount: u64,
        slot: u64,
    ) -> Result<(int, u64), LendingError> {
        if collateral_amount == 0 {
            Err(LendingError::InvalidAmount)
        } else {
            match spec_stale_fault(reserve.last_update, slot, LendingError::ReserveStale) {
                Some(e) => Err(e),
                None => match spec_stale_fault(self.last_update, slot, LendingError::ObligationStale) {
                    Some(e) => Err(e),
                    None => if self.deposits.len() == 0 {
                        Err(LendingError::ObligationDepositsEmpty)
                    } else {
                        match self.deposit_index(reserve_key) {
                            None => Err(LendingError::InvalidObligationCollateral),
                            Some(index) => if self.deposits[index].deposited_amount == 0 {
                                Err(LendingError::ObligationCollateralEmpty)
                            } else {
                                match spec_withdraw_amount(
                                    self,
                                    self.deposits[index],
                                    reserve,
                                    collateral_amount,
                                ) {
                                    Err(e) => Err(e),
                                    Ok(amount) => Ok((index, amount)),
                                }
                            },
                        }
                    },
                },
            }
        }
    }

    /// After collateral of the fresh `reserve` at `reserve_key` was withdrawn
    /// at `slot`, with the amount that left. The obligation is stale
    /// afterwards.
    pub open spec fn withdraw_collateral(
        self,
        reserve: ReserveView,
        reserve_key: Address,
        collateral_amount: u64,
        slot: u64,
    ) -> Result<(ObligationView, u64), LendingError> {
        match self.plan_withdrawal(reserve, reserve_key, collateral_amount, slot) {
            Err(e) => Err(e),
            Ok((index, amount)) => match self.withdraw(amount, index) {
                Err(e) => Err(e),
                Ok(next) => Ok((next.mark_stale(), amount)),
            },
        }
    }
}

/// After `liquidity_amount` was deposited into the reserve at `reserve_key`
/// at `slot` and the collateral minted for it was deposited into the
/// obligation, with that collateral. A deposit that mints nothing is
/// `InvalidAmount`.
pub open spec fn spec_deposit_liquidity_and_collateral(
    reserve: ReserveView,
    obligation: ObligationView,
    reserve_key: Address,
    liquidity_amount: u64,
    slot: u64,
) -> Result<(ReserveView, ObligationView, u64), LendingError> {
    match reserve.deposit_reserve_liquidity(liquidity_amount, slot) {
        Err(e) => Err(e),
        Ok((funded, minted)) => match obligation.deposit_collateral(
            reserve,
            reserve_key,
            minted,
            slot,
        ) {
            Err(e) => Err(e),
            Ok(holding) => Ok((funded, holding, minted)),
        },
    }
}

/// After collateral of the reserve at `reserve_key` was withdrawn from the
/// obligation at `slot` and redeemed, with the liquidity paid out for it.
pub open spec fn spec_withdraw_collateral_and_redeem(
    reserve: ReserveView,
    obligation: ObligationView,
    reserve_key: Address,
    collateral_amount: u64,
    slot: u64,
) -> Result<(ReserveView, ObligationView, u64), LendingError> {
    match obligation.withdraw_collateral(reserve, reserve_key, collateral_amount, slot) {
        Err(e) => Err(e),
        Ok((holding, amount)) => match reserve.redeem_reserve_collateral(amount, slot) {
            Err(e) => Err(e),
            Ok((paying, paid)) => Ok((paying, holding, paid)),
        },
    }
}

/// Depositing and withdrawing collateral keep a well-formed obligation
/// well-formed, and leave it stale.
pub proof fn lemma_collateral_moves_keep_wf(
    obligation: ObligationView,
    reserve: ReserveView,
    reserve_key: Address,
    collateral_amount: u64,
    slot: u64,
)
    requires
        obligation.wf(),
    ensures
        obligation.deposit_collateral(reserve, reserve_key, collateral_amount, slot) matches Ok(
            next,
        ) ==> next.wf() && next.last_update.stale,
        obligation.withdraw_collateral(reserve, reserve_key, collateral_amount, slot) matches Ok(
            (next, amount),
        ) ==> next.wf() && next.last_update.stale && amount > 0,
{
    if collateral_amount > 0 {
        lemma_deposit_keeps_wf(obligation, reserve_key, collateral_amount);
    }
    lemma_deposit_index(obligation, reserve_key);
    if obligation.withdraw_collateral(reserve, reserve_key, collateral_amount, slot) is Ok {
        let (index, amount) = obligation.plan_withdrawal(
            reserve,
            reserve_key,
            collateral_amount,
            slot,
        )->Ok_0;
        lemma_withdraw_keeps_wf(obligation, amount, index);
    }
}

/// A planned withdrawal names an entry of the obligation and takes no more
/// than the entry holds, so that it can be carried out.
pub proof fn lemma_planned_withdrawal_fits(
    obligation: ObligationView,
    reserve: ReserveView,
    reserve_key: Address,
    collateral_amount: u64,
    slot: u64,
)
    ensures
        obligation.plan_withdrawal(reserve, reserve_key, collateral_amount, slot) matches Ok(
            (index, amount),
        ) ==> {
            &&& obligation.is_deposit_index(reserve_key, index)
            &&& 0 < amount <= obligation.deposits[index].deposited_amount
            &&& obligation.withdraw(amount, index) is Ok
        },
{
    lemma_deposit_index(obligation, reserve_key);
}

/// The collateral that leaves `entry` when `collateral_amount` is asked for.
fn withdraw_amount(
    obligation: &Obligation,
    entry: &ObligationCollateral,
    reserve: &Reserve,
    collateral_amount: u64,
) -> (r: Result<u64, LendingError>)
    ensures
        r == spec_withdraw_amount(obligation@, entry@, reserve@, collateral_amount),
{
    if obligation.borrows.len() == 0 {
        return Ok(
            if collateral_amount == u64::MAX || entry.deposited_amount <= collateral_amount {
                entry.deposited_amount
            } else {
                collateral_amount
            },
        );
    }
    let max_value = obligation.max_withdraw_value(
        Rate::from_percent(reserve.config.loan_to_value_ratio),
    )?;
    if max_value.is_zero() {
        return Err(LendingError::WithdrawTooLarge);
    }
    if obligation.deposited_value.is_zero() {
        return Err(LendingError::ObligationDepositsZero);
    }
    let amount = if collateral_amount == u64::MAX {
        let share = max_value.min(entry.market_value).try_div(entry.market_value)?;
        let whole = share.try_mul_u64(entry.deposited_amount)?.try_floor_u64()?;
        if whole <= entry.deposited_amount {
            whole
        } else {
            entry.deposited_amount
        }
    } else {
        let amount = if collateral_amount <= entry.deposited_amount {
            collateral_amount
        } else {
            entry.deposited_amount
        };
        let share = Decimal::from_u64(amount).try_div_u64(entry.deposited_amount)?;
        let value = entry.market_value.try_mul(share)?;
        if max_value.lt(value) {
            return Err(LendingError::WithdrawTooLarge);
        }
        amount
    };
    if amount == 0 {
        return Err(LendingError::WithdrawTooSmall);
    }
    Ok(amount)
}

/// Deposits `collateral_amount` of the collateral of `reserve`, which lives
/// at `reserve_key`, into `obligation` at `current_slot`.
pub fn deposit_obligation_collateral(
    obligation: &mut Obligation,
    reserve: &Reserve,
    reserve_key: Address,
    collateral_amount: u64,
    current_slot: u64,
) -> (r: Result<(), LendingError>)
    ensures
        transition(
            r,
            *old(obligation),
            *final(obligation),
            old(obligation)@.deposit_collateral(
                reserve@,
                reserve_key,
                collateral_amount,
                current_slot,
            ),
        ),
        old(obligation)@.wf() ==> final(obligation)@.wf(),
{
    proof {
        if obligation@.wf() {
            lemma_collateral_moves_keep_wf(
                obligation@,
                reserve@,
                reserve_key,
                collateral_amount,
                current_slot,
            );
        }
    }
    if collateral_amount == 0 {
        return Err(LendingError::InvalidAmount);
    }
    require_fresh(&reserve.last_update, current_slot, LendingError::ReserveStale)?;
    obligation.deposit(reserve_key, collateral_amount)?;
    obligation.last_update.mark_stale();
    Ok(())
}

/// Finds the entry and the amount of a withdrawal without changing anything.
fn plan_withdrawal(
    obligation: &Obligation,
    reserve: &Reserve,
    reserve_key: &Address,
    collateral_amount: u64,
    current_slot: u64,
) -> (r: Result<(usize, u64), LendingError>)
    ensures
        match obligation@.plan_withdrawal(reserve@, *reserve_key, collateral_amount, current_slot) {
            Ok((index, amount)) => r matches Ok(x) && x.0 as int == index && x.1 == amount && x.0
                < obligation.deposits.len(),
            Err(e) => r matches Err(x) && x == e,
        },
{
    if collateral_amount == 0 {
        return Err(LendingError::InvalidAmount);
    }
    require_fresh(&reserve.last_update, current_slot, LendingError::ReserveStale)?;
    require_fresh(&obligation.last_update, current_slot, LendingError::ObligationStale)?;
    let (entry, index) = obligation.find_collateral_in_deposits(reserve_key)?;
    if entry.deposited_amount == 0 {
        return Err(LendingError::ObligationCollateralEmpty);
    }
    let amount = withdraw_amount(obligation, &entry, reserve, collateral_amount)?;
    Ok((index, amount))
}

/// Withdraws collateral of `reserve`, which lives at `reserve_key`, from
/// `obligation` at `current_slot`, and returns the amount that leaves;
/// `u64::MAX` asks for as much as the borrows allow.
pub fn withdraw_obligation_collateral(
    obligation: &mut Obligation,
    reserve: &Reserve,
    reserve_key: Address,
    collateral_amount: u64,
    current_slot: u64,
) -> (r: Result<u64, LendingError>)
    ensures
        transition_with(
            r,
            *old(obligation),
            *final(obligation),
            old(obligation)@.withdraw_collateral(
                reserve@,
                reserve_key,
                collateral_amount,
                current_slot,
            ),
        ),
        old(obligation)@.wf() ==> final(obligation)@.wf(),
{
    proof {
        if obligation@.wf() {
            lemma_collateral_moves_keep_wf(
                obligation@,
                reserve@,
                reserve_key,
                collateral_amount,
                current_slot,
            );
        }
    }
    let (index, amount) = plan_withdrawal(
        obligation,
        reserve,
        &reserve_key,
        collateral_amount,
        current_slot,
    )?;
    obligation.withdraw(amount, index)?;
    obligation.last_update.mark_stale();
    Ok(amount)
}

/// Deposits `liquidity_amount` into `reserve`, which lives at `reserve_key`,
/// at `current_slot`, and deposits the collateral that is minted for it into
/// `obligation`. Returns that collateral.
pub fn deposit_reserve_liquidity_and_obligation_collateral(
    reserve: &mut Reserve,
    obligation: &mut Obligation,
    reserve_key: Address,
    liquidity_amount: u64,
    current_slot: u64,
) -> (r: Result<u64, LendingError>)
    ensures
        joint_transition(
            r,
            *old(reserve),
            *final(reserve),
            *old(obligation),
            *final(obligation),
            spec_deposit_liquidity_and_collateral(
                old(reserve)@,
                old(obligation)@,
                reserve_key,
                liquidity_amount,
                current_slot,
            ),
        ),
        old(obligation)@.wf() ==> final(obligation)@.wf(),
{
    let mut funded = *reserve;
    let minted = deposit_reserve_liquidity(&mut funded, liquidity_amount, current_slot)?;
    deposit_obligation_collateral(obligation, reserve, reserve_key, minted, current_slot)?;
    *reserve = funded;
    Ok(minted)
}

/// Withdraws collateral of `reserve`, which lives at `reserve_key`, from
/// `obligation` at `current_slot` and redeems it. Returns the liquidity that
/// is paid out; `u64::MAX` asks for as much collateral as the borrows allow.
pub fn withdraw_obligation_collateral_and_redeem_reserve_collateral(
    reserve: &mut Reserve,
    obligation: &mut Obligation,
    reserve_key: Address,
    collateral_amount: u64,
    current_slot: u64,
) -> (r: Result<u64, LendingError>)
    ensures
        joint_transition(
            r,
            *old(reserve),
            *final(reserve),
            *old(obligation),
            *final(obligation),
            spec_withdraw_collateral_and_redeem(
                old(reserve)@,
                old(obligation)@,
                reserve_key,
                collateral_amount,
                current_slot,
            ),
        ),
        old(obligation)@.wf() ==> final(obligation)@.wf(),
{
    proof {
        lemma_planned_withdrawal_fits(
            obligation@,
            reserve@,
            reserve_key,
            collateral_amount,
            current_slot,
        );
        if obligation@.wf() {
            lemma_collateral_moves_keep_wf(
                obligation@,
                reserve@,
                reserve_key,
                collateral_amount,
                current_slot,
            );
        }
    }
    let (index, amount) = plan_withdrawal(
        obligation,
        reserve,
        &reserve_key,
        collateral_amount,
        current_slot,
    )?;
    let mut paying = *reserve;
    let paid = redeem_reserve_collateral(&mut paying, amount, current_slot)?;
    obligation.withdraw(amount, index)?;
    obligation.last_update.mark_stale();
    *reserve = paying;
    Ok(paid)
}

} // verus!
