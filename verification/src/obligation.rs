//! An obligation: the collateral that one borrower has deposited, what the
//! borrower owes, and the values that decide how much more may be borrowed.

use vstd::prelude::*;
use crate::address::Address;
use crate::decimal::{
    decimal_is, difference_is, percent_scaler, spec_add, spec_div, spec_mul, spec_sub, Decimal,
};
use crate::error::{transition, LendingError};
use crate::last_update::LastUpdate;
use crate::rate::Rate;

verus! {

/// Most reserves that one obligation may refer to, deposits and borrows together.
pub const MAX_OBLIGATION_RESERVES: usize = 10;

/// Share of one borrow that one liquidation may repay, in percent.
pub const LIQUIDATION_CLOSE_FACTOR: u8 = 50;

/// Collateral of one reserve that an obligation holds.
#[derive(Clone, Copy, Debug, PartialEq, Eq)]
pub struct ObligationCollateral {
    /// The reserve whose collateral this is.
    pub deposit_reserve: Address,
    /// Collateral tokens deposited.
    pub deposited_amount: u64,
    /// Value of the deposit in the quote currency, as of the last refresh.
    pub market_value: Decimal,
}

/// A deposit entry with its value as a scaled number.
pub ghost struct ObligationCollateralView {
    /// The reserve whose collateral this is.
    pub deposit_reserve: Address,
    /// Collateral tokens deposited.
    pub deposited_amount: u64,
    /// Scaled value of the deposit.
    pub market_value: nat,
}

impl View for ObligationCollateral {
    type V = ObligationCollateralView;

    open spec fn view(&self) -> ObligationCollateralView {
        ObligationCollateralView {
            deposit_reserve: self.deposit_reserve,
            deposited_amount: self.deposited_amount,
            market_value: self.market_value@,
        }
    }
}

impl ObligationCollateral {
    /// An entry for `deposit_reserve` that holds `deposited_amount` and has
    /// not been valued yet.
    pub fn new(deposit_reserve: Address, deposited_amount: u64) -> (r: ObligationCollateral)
        ensures
            r@ == (ObligationCollateralView { deposit_reserve, deposited_amount, market_value: 0 }),
    {
        ObligationCollateral { deposit_reserve, deposited_amount, market_value: Decimal::zero() }
    }
}

/// Liquidity of one reserve that an obligation owes.
#[derive(Clone, Copy, Debug, PartialEq, Eq)]
pub struct ObligationLiquidity {
    /// The reserve that lent the liquidity.
    pub borrow_reserve: Address,
    /// The reserve's cumulative borrow rate when interest was last added to this entry.
    pub cumulative_borrow_rate_wads: Decimal,
    /// What is owed, with the interest added so far.
    pub borrowed_amount_wads: Decimal,
    /// Value of the debt in the quote currency, as of the last refresh.
    pub market_value: Decimal,
}

/// A borrow entry with its fixed-point fields as scaled numbers.
pub ghost struct ObligationLiquidityView {
    /// The reserve that lent the liquidity.
    pub borrow_reserve: Address,
    /// Scaled cumulative borrow rate when interest was last added.
    pub cumulative_borrow_rate_wads: nat,
    /// Scaled amount owed.
    pub borrowed_amount_wads: nat,
    /// Scaled value of the debt.
    pub market_value: nat,
}

impl View for ObligationLiquidity {
    type V = ObligationLiquidityView;

    open spec fn view(&self) -> ObligationLiquidityView {
        ObligationLiquidityView {
            borrow_reserve: self.borrow_reserve,
            cumulative_borrow_rate_wads: self.cumulative_borrow_rate_wads@,
            borrowed_amount_wads: self.borrowed_amount_wads@,
            market_value: self.market_value@,
        }
    }
}

impl ObligationLiquidityView {
    /// Scaled amount of this borrow that one liquidation may repay: the close
    /// factor of what is owed.
    pub open spec fn max_liquidation_amount(self) -> Option<nat> {
        spec_mul(self.borrowed_amount_wads, LIQUIDATION_CLOSE_FACTOR as nat * percent_scaler())
    }

    /// After the interest up to the scaled `cumulative_borrow_rate_wads` of
    /// the reserve was added: the debt grows by the ratio of the new rate to
    /// the recorded one, and the new rate is recorded. A rate below the
    /// recorded one is `NegativeInterestRate`.
    pub open spec fn accrue_interest(self, cumulative_borrow_rate_wads: nat) -> Result<
        ObligationLiquidityView,
        LendingError,
    > {
        if cumulative_borrow_rate_wads < self.cumulative_borrow_rate_wads {
            Err(LendingError::NegativeInterestRate)
        } else if cumulative_borrow_rate_wads == self.cumulative_borrow_rate_wads {
            Ok(self)
        } else {
            match spec_div(cumulative_borrow_rate_wads, self.cumulative_borrow_rate_wads) {
                Some(ratio) if ratio <= u128::MAX => match spec_mul(
                    self.borrowed_amount_wads,
                    ratio,
                ) {
                    Some(owed) => Ok(
                        ObligationLiquidityView {
                            borrowed_amount_wads: owed,
                            cumulative_borrow_rate_wads,
                            ..self
                        },
                    ),
                    None => Err(LendingError::MathOverflow),
                },
                _ => Err(LendingError::MathOverflow),
            }
        }
    }
}

impl ObligationLiquidity {
    /// An entry for `borrow_reserve` that owes `borrowed_amount_wads` from the
    /// given cumulative rate on and has not been valued yet.
    pub fn new(
        borrow_reserve: Address,
        cumulative_borrow_rate_wads: Decimal,
        borrowed_amount_wads: Decimal,
    ) -> (r: ObligationLiquidity)
        ensures
            r@ == (ObligationLiquidityView {
                borrow_reserve,
                cumulative_borrow_rate_wads: cumulative_borrow_rate_wads@,
                borrowed_amount_wads: borrowed_amount_wads@,
                market_value: 0,
            }),
    {
        ObligationLiquidity {
            borrow_reserve,
            cumulative_borrow_rate_wads,
            borrowed_amount_wads,
            market_value: Decimal::zero(),
        }
    }

    /// Amount of this borrow that one liquidation may repay: the close factor
    /// of what is owed.
    pub fn max_liquidation_amount(&self) -> (r: Result<Decimal, LendingError>)
        ensures
            decimal_is(r, self@.max_liquidation_amount()),
    {
        self.borrowed_amount_wads.try_mul_rate(Rate::from_percent(LIQUIDATION_CLOSE_FACTOR))
    }

    /// Adds the interest up to the reserve's `cumulative_borrow_rate_wads`.
    pub fn accrue_interest(&mut self, cumulative_borrow_rate_wads: Decimal) -> (r: Result<
        (),
        LendingError,
    >)
        ensures
            match old(self)@.accrue_interest(cumulative_borrow_rate_wads@) {
                Ok(next) => r is Ok && final(self)@ == next,
                Err(e) => r == Err::<(), LendingError>(e) && final(self)@ == old(self)@,
            },
    {
        if cumulative_borrow_rate_wads.lt(self.cumulative_borrow_rate_wads) {
            return Err(LendingError::NegativeInterestRate);
        }
        if self.cumulative_borrow_rate_wads.lt(cumulative_borrow_rate_wads) {
            let ratio = Rate::try_from_decimal(
                cumulative_borrow_rate_wads.try_div(self.cumulative_borrow_rate_wads)?,
            )?;
            let owed = self.borrowed_amount_wads.try_mul_rate(ratio)?;
            self.borrowed_amount_wads = owed;
            self.cumulative_borrow_rate_wads = cumulative_borrow_rate_wads;
        }
        Ok(())
    }
}

/// The deposit entries as the contracts see them.
pub open spec fn collateral_views(entries: Seq<ObligationCollateral>) -> Seq<
    ObligationCollateralView,
> {
    Seq::new(entries.len(), |i: int| entries[i]@)
}

/// The borrow entries as the contracts see them.
pub open spec fn liquidity_views(entries: Seq<ObligationLiquidity>) -> Seq<
    ObligationLiquidityView,
> {
    Seq::new(entries.len(), |i: int| entries[i]@)
}

/// The position of one borrower.
#[derive(Clone, Debug)]
pub struct Obligation {
    /// When the values were last brought up to date.
    pub last_update: LastUpdate,
    /// The collateral deposited, one entry for each reserve.
    pub deposits: Vec<ObligationCollateral>,
    /// The liquidity owed, one entry for each reserve.
    pub borrows: Vec<ObligationLiquidity>,
    /// Value of all deposits.
    pub deposited_value: Decimal,
    /// Value of all borrows.
    pub borrowed_value: Decimal,
    /// Most that the borrows may be worth: each deposit's value times the
    /// loan-to-value ratio of its reserve.
    pub allowed_borrow_value: Decimal,
    /// Borrowed value above which the obligation can be liquidated: each
    /// deposit's value times the liquidation threshold of its reserve.
    pub unhealthy_borrow_value: Decimal,
}

/// An obligation with its fixed-point fields as scaled numbers.
pub ghost struct ObligationView {
    /// When the values were last brought up to date.
    pub last_update: LastUpdate,
    /// The collateral deposited.
    pub deposits: Seq<ObligationCollateralView>,
    /// The liquidity owed.
    pub borrows: Seq<ObligationLiquidityView>,
    /// Scaled value of all deposits.
    pub deposited_value: nat,
    /// Scaled value of all borrows.
    pub borrowed_value: nat,
    /// Scaled limit on the value of the borrows.
    pub allowed_borrow_value: nat,
    /// Scaled value of the borrows above which the obligation is unhealthy.
    pub unhealthy_borrow_value: nat,
}

impl View for Obligation {
    type V = ObligationView;

    open spec fn view(&self) -> ObligationView {
        ObligationView {
            last_update: self.last_update,
            deposits: collateral_views(self.deposits@),
            borrows: liquidity_views(self.borrows@),
            deposited_value: self.deposited_value@,
            borrowed_value: self.borrowed_value@,
            allowed_borrow_value: self.allowed_borrow_value@,
            unhealthy_borrow_value: self.unhealthy_borrow_value@,
        }
    }
}

impl ObligationView {
    /// The entries are within capacity, no reserve occurs twice among the
    /// deposits or twice among the borrows, and no entry is empty.
    pub open spec fn wf(self) -> bool {
        &&& self.deposits.len() + self.borrows.len() <= MAX_OBLIGATION_RESERVES
        &&& forall|i: int, j: int|
            0 <= i < j < self.deposits.len() ==> self.deposits[i].deposit_reserve
                != self.deposits[j].deposit_reserve
        &&& forall|i: int, j: int|
            0 <= i < j < self.borrows.len() ==> self.borrows[i].borrow_reserve
                != self.borrows[j].borrow_reserve
        &&& forall|i: int| 0 <= i < self.deposits.len() ==> self.deposits[i].deposited_amount > 0
        &&& forall|i: int| 0 <= i < self.borrows.len() ==> self.borrows[i].borrowed_amount_wads > 0
    }

    /// Whether `i` is the first deposit entry for `reserve`.
    pub open spec fn is_deposit_index(self, reserve: Address, i: int) -> bool {
        &&& 0 <= i < self.deposits.len()
        &&& self.deposits[i].deposit_reserve == reserve
        &&& forall|j: int| 0 <= j < i ==> self.deposits[j].deposit_reserve != reserve
    }

    /// The first deposit entry for `reserve`, if there is one.
    pub open spec fn deposit_index(self, reserve: Address) -> Option<int> {
        if exists|i: int| self.is_deposit_index(reserve, i) {
            Some(choose|i: int| self.is_deposit_index(reserve, i))
        } else {
            None
        }
    }

    /// Whether `i` is the first borrow entry for `reserve`.
    pub open spec fn is_borrow_index(self, reserve: Address, i: int) -> bool {
        &&& 0 <= i < self.borrows.len()
        &&& self.borrows[i].borrow_reserve == reserve
        &&& forall|j: int| 0 <= j < i ==> self.borrows[j].borrow_reserve != reserve
    }

    /// The first borrow entry for `reserve`, if there is one.
    pub open spec fn borrow_index(self, reserve: Address) -> Option<int> {
        if exists|i: int| self.is_borrow_index(reserve, i) {
            Some(choose|i: int| self.is_borrow_index(reserve, i))
        } else {
            None
        }
    }

    /// Whether another reserve can be referred to.
    pub open spec fn has_room(self) -> bool {
        self.deposits.len() + self.borrows.len() < MAX_OBLIGATION_RESERVES
    }

    /// After `amount` collateral of `reserve` was deposited: added to the
    /// entry of that reserve, or put in a new entry at the end, which is
    /// `TooManyObligationReserves` when there is no room.
    pub open spec fn deposit(self, reserve: Address, amount: u64) -> Result<
        ObligationView,
        LendingError,
    > {
        match self.deposit_index(reserve) {
            Some(i) => if self.deposits[i].deposited_amount + amount <= u64::MAX {
                Ok(
                    ObligationView {
                        deposits: self.deposits.update(
                            i,
                            ObligationCollateralView {
                                deposited_amount: (self.deposits[i].deposited_amount
                                    + amount) as u64,
                                ..self.deposits[i]
                            },
                        ),
                        ..self
                    },
                )
            } else {
                Err(LendingError::MathOverflow)
            },
            None => if self.has_room() {
                Ok(
                    ObligationView {
                        deposits: self.deposits.push(
                            ObligationCollateralView {
                                deposit_reserve: reserve,
                                deposited_amount: amount,
                                market_value: 0,
                            },
                        ),
                        ..self
                    },
                )
            } else {
                Err(LendingError::TooManyObligationReserves)
            },
        }
    }

    /// After `amount` collateral was withdrawn from the deposit entry at
    /// `index`: an entry that is emptied is removed.
    pub open spec fn withdraw(self, amount: u64, index: int) -> Result<
        ObligationView,
        LendingError,
    > {
        let entry = self.deposits[index];
        if amount == entry.deposited_amount {
            Ok(ObligationView { deposits: self.deposits.remove(index), ..self })
        } else if amount < entry.deposited_amount {
            Ok(
                ObligationView {
                    deposits: self.deposits.update(
                        index,
                        ObligationCollateralView {
                            deposited_amount: (entry.deposited_amount - amount) as u64,
                            ..entry
                        },
                    ),
                    ..self
                },
            )
        } else {
            Err(LendingError::MathUnderflow)
        }
    }

    /// After the scaled `amount` was borrowed from `reserve`, whose scaled
    /// cumulative borrow rate is `cumulative_borrow_rate_wads`: added to the
    /// entry of that reserve, or put in a new entry at the end that records
    /// the rate, which is `TooManyObligationReserves` when there is no room.
    pub open spec fn borrow(
        self,
        reserve: Address,
        cumulative_borrow_rate_wads: nat,
        amount: nat,
    ) -> Result<ObligationView, LendingError> {
        match self.borrow_index(reserve) {
            Some(i) => match spec_add(self.borrows[i].borrowed_amount_wads, amount) {
                Some(owed) => Ok(
                    ObligationView {
                        borrows: self.borrows.update(
                            i,
                            ObligationLiquidityView { borrowed_amount_wads: owed, ..self.borrows[i] },
                        ),
                        ..self
                    },
                ),
                None => Err(LendingError::MathOverflow),
            },
            None => if self.has_room() {
                Ok(
                    ObligationView {
                        borrows: self.borrows.push(
                            ObligationLiquidityView {
                                borrow_reserve: reserve,
                                cumulative_borrow_rate_wads,
                                borrowed_amount_wads: amount,
                                market_value: 0,
                            },
                        ),
                        ..self
                    },
                )
            } else {
                Err(LendingError::TooManyObligationReserves)
            },
        }
    }

    /// After the scaled `settle_amount` of the borrow entry at `index` was
    /// repaid: an entry that is settled in full is removed.
    pub open spec fn repay(self, settle_amount: nat, index: int) -> Result<
        ObligationView,
        LendingError,
    > {
        let entry = self.borrows[index];
        if settle_amount == entry.borrowed_amount_wads {
            Ok(ObligationView { borrows: self.borrows.remove(index), ..self })
        } else {
            match spec_sub(entry.borrowed_amount_wads, settle_amount) {
                Some(owed) => Ok(
                    ObligationView {
                        borrows: self.borrows.update(
                            index,
                            ObligationLiquidityView { borrowed_amount_wads: owed, ..entry },
                        ),
                        ..self
                    },
                ),
                None => Err(LendingError::MathUnderflow),
            }
        }
    }

    /// With the stamp marked stale.
    pub open spec fn mark_stale(self) -> ObligationView {
        ObligationView { last_update: LastUpdate { stale: true, ..self.last_update }, ..self }
    }

    /// Scaled ratio of the borrowed value to the deposited value.
    pub open spec fn loan_to_value(self) -> Option<nat> {
        spec_div(self.borrowed_value, self.deposited_value)
    }

    /// Scaled value that may still be borrowed.
    pub open spec fn remaining_borrow_value(self) -> Option<nat> {
        spec_sub(self.allowed_borrow_value, self.borrowed_value)
    }

    /// Scaled value of collateral that may be withdrawn from a reserve with the
    /// scaled loan-to-value ratio `withdraw_collateral_ltv`: what may still be
    /// borrowed, divided by that ratio; everything when the ratio is zero;
    /// nothing when the borrows have reached their limit.
    pub open spec fn max_withdraw_value(self, withdraw_collateral_ltv: nat) -> Option<nat> {
        if self.allowed_borrow_value <= self.borrowed_value {
            Some(0)
        } else if withdraw_collateral_ltv == 0 {
            Some(self.deposited_value)
        } else {
            spec_div(
                (self.allowed_borrow_value - self.borrowed_value) as nat,
                withdraw_collateral_ltv,
            )
        }
    }
}

/// A deposit entry of `reserve` at `j` means that there is a first one.
proof fn lemma_first_deposit_exists(obligation: ObligationView, reserve: Address, j: int)
    requires
        0 <= j < obligation.deposits.len(),
        obligation.deposits[j].deposit_reserve == reserve,
    ensures
        exists|i: int| obligation.is_deposit_index(reserve, i),
    decreases j,
{
    if exists|k: int| 0 <= k < j && obligation.deposits[k].deposit_reserve == reserve {
        let k = choose|k: int| 0 <= k < j && obligation.deposits[k].deposit_reserve == reserve;
        lemma_first_deposit_exists(obligation, reserve, k);
    } else {
        assert(obligation.is_deposit_index(reserve, j));
    }
}

/// A borrow entry of `reserve` at `j` means that there is a first one.
proof fn lemma_first_borrow_exists(obligation: ObligationView, reserve: Address, j: int)
    requires
        0 <= j < obligation.borrows.len(),
        obligation.borrows[j].borrow_reserve == reserve,
    ensures
        exists|i: int| obligation.is_borrow_index(reserve, i),
    decreases j,
{
    if exists|k: int| 0 <= k < j && obligation.borrows[k].borrow_reserve == reserve {
        let k = choose|k: int| 0 <= k < j && obligation.borrows[k].borrow_reserve == reserve;
        lemma_first_borrow_exists(obligation, reserve, k);
    } else {
        assert(obligation.is_borrow_index(reserve, j));
    }
}

/// `deposit_index` finds the first entry of a reserve, and finds none only
/// when no entry is of that reserve.
pub proof fn lemma_deposit_index(obligation: ObligationView, reserve: Address)
    ensures
        match obligation.deposit_index(reserve) {
            Some(i) => obligation.is_deposit_index(reserve, i),
            None => forall|j: int|
                0 <= j < obligation.deposits.len() ==> obligation.deposits[j].deposit_reserve
                    != reserve,
        },
{
    if obligation.deposit_index(reserve) is None {
        assert forall|j: int| 0 <= j < obligation.deposits.len() implies obligation.deposits[j].deposit_reserve
            != reserve by {
            if obligation.deposits[j].deposit_reserve == reserve {
                lemma_first_deposit_exists(obligation, reserve, j);
            }
        }
    }
}

/// `borrow_index` finds the first entry of a reserve, and finds none only
/// when no entry is of that reserve.
pub proof fn lemma_borrow_index(obligation: ObligationView, reserve: Address)
    ensures
        match obligation.borrow_index(reserve) {
            Some(i) => obligation.is_borrow_index(reserve, i),
            None => forall|j: int|
                0 <= j < obligation.borrows.len() ==> obligation.borrows[j].borrow_reserve
                    != reserve,
        },
{
    if obligation.borrow_index(reserve) is None {
        assert forall|j: int| 0 <= j < obligation.borrows.len() implies obligation.borrows[j].borrow_reserve
            != reserve by {
            if obligation.borrows[j].borrow_reserve == reserve {
                lemma_first_borrow_exists(obligation, reserve, j);
            }
        }
    }
}

/// A deposit of a positive amount keeps a well-formed obligation well-formed.
pub proof fn lemma_deposit_keeps_wf(obligation: ObligationView, reserve: Address, amount: u64)
    requires
        obligation.wf(),
        amount > 0,
    ensures
        obligation.deposit(reserve, amount) matches Ok(next) ==> next.wf(),
{
    lemma_deposit_index(obligation, reserve);
}

/// A withdrawal keeps a well-formed obligation well-formed.
pub proof fn lemma_withdraw_keeps_wf(obligation: ObligationView, amount: u64, index: int)
    requires
        obligation.wf(),
        0 <= index < obligation.deposits.len(),
    ensures
        obligation.withdraw(amount, index) matches Ok(next) ==> next.wf(),
{
}

/// A borrow of a positive amount keeps a well-formed obligation well-formed.
pub proof fn lemma_borrow_keeps_wf(
    obligation: ObligationView,
    reserve: Address,
    cumulative_borrow_rate_wads: nat,
    amount: nat,
)
    requires
        obligation.wf(),
        amount > 0,
    ensures
        obligation.borrow(reserve, cumulative_borrow_rate_wads, amount) matches Ok(next)
            ==> next.wf(),
{
    lemma_borrow_index(obligation, reserve);
}

/// A repayment keeps a well-formed obligation well-formed.
pub proof fn lemma_repay_keeps_wf(obligation: ObligationView, settle_amount: nat, index: int)
    requires
        obligation.wf(),
        0 <= index < obligation.borrows.len(),
    ensures
        obligation.repay(settle_amount, index) matches Ok(next) ==> next.wf(),
{
}

/// Depositing an amount and withdrawing it again from the entry that holds
/// it restores the deposits: an entry that the deposit made is removed, and
/// an entry that was there before holds what it held.
pub proof fn lemma_deposit_then_withdraw_restores(
    obligation: ObligationView,
    reserve: Address,
    amount: u64,
)
    requires
        amount > 0,
    ensures
        obligation.deposit(reserve, amount) matches Ok(deposited) ==> {
            &&& deposited.deposit_index(reserve) matches Some(index)
            &&& deposited.withdraw(amount, index) matches Ok(withdrawn)
            &&& obligation.deposit_index(reserve) is None ==> withdrawn == obligation
            &&& obligation.wf() ==> withdrawn == obligation
        },
{
    lemma_deposit_index(obligation, reserve);
    if obligation.deposit(reserve, amount) is Ok {
        let deposited = obligation.deposit(reserve, amount)->Ok_0;
        match obligation.deposit_index(reserve) {
            Some(i) => {
                assert(deposited.is_deposit_index(reserve, i));
                lemma_deposit_index(deposited, reserve);
                let index = deposited.deposit_index(reserve)->0;
                assert(index == i);
                if obligation.wf() {
                    assert(deposited.withdraw(amount, index)->Ok_0.deposits =~= obligation.deposits);
                }
            },
            None => {
                let last = obligation.deposits.len() as int;
                assert(deposited.is_deposit_index(reserve, last));
                lemma_deposit_index(deposited, reserve);
                let index = deposited.deposit_index(reserve)->0;
                assert(index == last);
                assert(deposited.deposits.remove(last) =~= obligation.deposits);
            },
        }
    }
}

/// Replacing one entry replaces its view.
proof fn lemma_collateral_views_update(
    entries: Seq<ObligationCollateral>,
    i: int,
    entry: ObligationCollateral,
)
    requires
        0 <= i < entries.len(),
    ensures
        collateral_views(entries.update(i, entry)) == collateral_views(entries).update(i, entry@),
{
    assert(collateral_views(entries.update(i, entry)) =~= collateral_views(entries).update(
        i,
        entry@,
    ));
}

/// Adding an entry at the end adds its view at the end.
proof fn lemma_collateral_views_push(entries: Seq<ObligationCollateral>, entry: ObligationCollateral)
    ensures
        collateral_views(entries.push(entry)) == collateral_views(entries).push(entry@),
{
    assert(collateral_views(entries.push(entry)) =~= collateral_views(entries).push(entry@));
}

/// Removing an entry removes its view.
proof fn lemma_collateral_views_remove(entries: Seq<ObligationCollateral>, i: int)
    requires
        0 <= i < entries.len(),
    ensures
        collateral_views(entries.remove(i)) == collateral_views(entries).remove(i),
{
    assert(collateral_views(entries.remove(i)) =~= collateral_views(entries).remove(i));
}

/// Replacing one entry replaces its view.
proof fn lemma_liquidity_views_update(
    entries: Seq<ObligationLiquidity>,
    i: int,
    entry: ObligationLiquidity,
)
    requires
        0 <= i < entries.len(),
    ensures
        liquidity_views(entries.update(i, entry)) == liquidity_views(entries).update(i, entry@),
{
    assert(liquidity_views(entries.update(i, entry)) =~= liquidity_views(entries).update(
        i,
        entry@,
    ));
}

/// Adding an entry at the end adds its view at the end.
proof fn lemma_liquidity_views_push(entries: Seq<ObligationLiquidity>, entry: ObligationLiquidity)
    ensures
        liquidity_views(entries.push(entry)) == liquidity_views(entries).push(entry@),
{
    assert(liquidity_views(entries.push(entry)) =~= liquidity_views(entries).push(entry@));
}

/// Removing an entry removes its view.
proof fn lemma_liquidity_views_remove(entries: Seq<ObligationLiquidity>, i: int)
    requires
        0 <= i < entries.len(),
    ensures
        liquidity_views(entries.remove(i)) == liquidity_views(entries).remove(i),
{
    assert(liquidity_views(entries.remove(i)) =~= liquidity_views(entries).remove(i));
}

impl Obligation {
    /// An obligation without deposits or borrows, stamped stale at `slot`.
    pub fn new(slot: u64) -> (r: Obligation)
        ensures
            r@ == (ObligationView {
                last_update: LastUpdate { slot, stale: true },
                deposits: Seq::<ObligationCollateralView>::empty(),
                borrows: Seq::<ObligationLiquidityView>::empty(),
                deposited_value: 0,
                borrowed_value: 0,
                allowed_borrow_value: 0,
                unhealthy_borrow_value: 0,
            }),
            r@.wf(),
    {
        let r = Obligation {
            last_update: LastUpdate::new(slot),
            deposits: Vec::new(),
            borrows: Vec::new(),
            deposited_value: Decimal::zero(),
            borrowed_value: Decimal::zero(),
            allowed_borrow_value: Decimal::zero(),
            unhealthy_borrow_value: Decimal::zero(),
        };
        assert(r@.deposits =~= Seq::<ObligationCollateralView>::empty());
        assert(r@.borrows =~= Seq::<ObligationLiquidityView>::empty());
        r
    }

    /// Whether another reserve can be referred to.
    pub fn has_room(&self) -> (r: bool)
        ensures
            r == self@.has_room(),
    {
        let deposits = self.deposits.len();
        let borrows = self.borrows.len();
        deposits < MAX_OBLIGATION_RESERVES && borrows < MAX_OBLIGATION_RESERVES - deposits
    }

    /// The first deposit entry for `deposit_reserve`, if there is one.
    pub fn find_collateral_index(&self, deposit_reserve: &Address) -> (r: Option<usize>)
        ensures
            match r {
                Some(i) => self@.deposit_index(*deposit_reserve) == Some(i as int) && i
                    < self.deposits.len(),
                None => self@.deposit_index(*deposit_reserve) is None,
            },
    {
        let mut i: usize = 0;
        while i < self.deposits.len()
            invariant
                i <= self.deposits.len(),
                forall|j: int| 0 <= j < i ==> self@.deposits[j].deposit_reserve != *deposit_reserve,
            decreases self.deposits.len() - i,
        {
            if self.deposits[i].deposit_reserve.same(deposit_reserve) {
                assert(self@.is_deposit_index(*deposit_reserve, i as int));
                return Some(i);
            }
            i += 1;
        }
        assert(forall|k: int| !self@.is_deposit_index(*deposit_reserve, k));
        None
    }

    /// The first borrow entry for `borrow_reserve`, if there is one.
    pub fn find_liquidity_index(&self, borrow_reserve: &Address) -> (r: Option<usize>)
        ensures
            match r {
                Some(i) => self@.borrow_index(*borrow_reserve) == Some(i as int) && i
                    < self.borrows.len(),
                None => self@.borrow_index(*borrow_reserve) is None,
            },
    {
        let mut i: usize = 0;
        while i < self.borrows.len()
            invariant
                i <= self.borrows.len(),
                forall|j: int| 0 <= j < i ==> self@.borrows[j].borrow_reserve != *borrow_reserve,
            decreases self.borrows.len() - i,
        {
            if self.borrows[i].borrow_reserve.same(borrow_reserve) {
                assert(self@.is_borrow_index(*borrow_reserve, i as int));
                return Some(i);
            }
            i += 1;
        }
        assert(forall|k: int| !self@.is_borrow_index(*borrow_reserve, k));
        None
    }

    /// The deposit entry for `deposit_reserve` and its position:
    /// `ObligationDepositsEmpty` without any deposit, and
    /// `InvalidObligationCollateral` without one of that reserve.
    pub fn find_collateral_in_deposits(&self, deposit_reserve: &Address) -> (r: Result<
        (ObligationCollateral, usize),
        LendingError,
    >)
        ensures
            match r {
                Ok((entry, i)) => self@.deposit_index(*deposit_reserve) == Some(i as int) && i
                    < self.deposits.len() && entry == self.deposits[i as int],
                Err(e) => if self.deposits.len() == 0 {
                    e == LendingError::ObligationDepositsEmpty
                } else {
                    e == LendingError::InvalidObligationCollateral && self@.deposit_index(
                        *deposit_reserve,
                    ) is None
                },
            },
    {
        if self.deposits.len() == 0 {
            proof {
                assert(forall|k: int| !self@.is_deposit_index(*deposit_reserve, k));
            }
            return Err(LendingError::ObligationDepositsEmpty);
        }
        match self.find_collateral_index(deposit_reserve) {
            Some(i) => Ok((self.deposits[i], i)),
            None => Err(LendingError::InvalidObligationCollateral),
        }
    }

    /// The borrow entry for `borrow_reserve` and its position:
    /// `ObligationBorrowsEmpty` without any borrow, and
    /// `InvalidObligationLiquidity` without one from that reserve.
    pub fn find_liquidity_in_borrows(&self, borrow_reserve: &Address) -> (r: Result<
        (ObligationLiquidity, usize),
        LendingError,
    >)
        ensures
            match r {
                Ok((entry, i)) => self@.borrow_index(*borrow_reserve) == Some(i as int) && i
                    < self.borrows.len() && entry == self.borrows[i as int],
                Err(e) => if self.borrows.len() == 0 {
                    e == LendingError::ObligationBorrowsEmpty
                } else {
                    e == LendingError::InvalidObligationLiquidity && self@.borrow_index(
                        *borrow_reserve,
                    ) is None
                },
            },
    {
        if self.borrows.len() == 0 {
            proof {
                assert(forall|k: int| !self@.is_borrow_index(*borrow_reserve, k));
            }
            return Err(LendingError::ObligationBorrowsEmpty);
        }
        match self.find_liquidity_index(borrow_reserve) {
            Some(i) => Ok((self.borrows[i], i)),
            None => Err(LendingError::InvalidObligationLiquidity),
        }
    }

    /// Deposits `collateral_amount` of the collateral of `deposit_reserve`.
    pub fn deposit(&mut self, deposit_reserve: Address, collateral_amount: u64) -> (r: Result<
        (),
        LendingError,
    >)
        ensures
            transition(
                r,
                *old(self),
                *final(self),
                old(self)@.deposit(deposit_reserve, collateral_amount),
            ),
    {
        match self.find_collateral_index(&deposit_reserve) {
            Some(i) => {
                let entry = self.deposits[i];
                let amount = match entry.deposited_amount.checked_add(collateral_amount) {
                    Some(v) => v,
                    None => {
                        return Err(LendingError::MathOverflow);
                    },
                };
                let next = ObligationCollateral { deposited_amount: amount, ..entry };
                proof {
                    lemma_collateral_views_update(self.deposits@, i as int, next);
                }
                self.deposits.set(i, next);
                Ok(())
            },
            None => {
                if !self.has_room() {
                    return Err(LendingError::TooManyObligationReserves);
                }
                let next = ObligationCollateral::new(deposit_reserve, collateral_amount);
                proof {
                    lemma_collateral_views_push(self.deposits@, next);
                }
                self.deposits.push(next);
                Ok(())
            },
        }
    }

    /// Withdraws `withdraw_amount` from the deposit entry at `collateral_index`.
    pub fn withdraw(&mut self, withdraw_amount: u64, collateral_index: usize) -> (r: Result<
        (),
        LendingError,
    >)
        requires
            collateral_index < old(self).deposits.len(),
        ensures
            transition(
                r,
                *old(self),
                *final(self),
                old(self)@.withdraw(withdraw_amount, collateral_index as int),
            ),
    {
        let entry = self.deposits[collateral_index];
        if withdraw_amount == entry.deposited_amount {
            proof {
                lemma_collateral_views_remove(self.deposits@, collateral_index as int);
            }
            self.deposits.remove(collateral_index);
            Ok(())
        } else {
            let amount = match entry.deposited_amount.checked_sub(withdraw_amount) {
                Some(v) => v,
                None => {
                    return Err(LendingError::MathUnderflow);
                },
            };
            let next = ObligationCollateral { deposited_amount: amount, ..entry };
            proof {
                lemma_collateral_views_update(self.deposits@, collateral_index as int, next);
            }
            self.deposits.set(collateral_index, next);
            Ok(())
        }
    }

    /// Borrows `borrow_amount` from `borrow_reserve`, whose cumulative borrow
    /// rate is `cumulative_borrow_rate_wads`.
    pub fn borrow(
        &mut self,
        borrow_reserve: Address,
        cumulative_borrow_rate_wads: Decimal,
        borrow_amount: Decimal,
    ) -> (r: Result<(), LendingError>)
        ensures
            transition(
                r,
                *old(self),
                *final(self),
                old(self)@.borrow(borrow_reserve, cumulative_borrow_rate_wads@, borrow_amount@),
            ),
    {
        match self.find_liquidity_index(&borrow_reserve) {
            Some(i) => {
                let entry = self.borrows[i];
                let owed = entry.borrowed_amount_wads.try_add(borrow_amount)?;
                let next = ObligationLiquidity { borrowed_amount_wads: owed, ..entry };
                proof {
                    lemma_liquidity_views_update(self.borrows@, i as int, next);
                }
                self.borrows.set(i, next);
                Ok(())
            },
            None => {
                if !self.has_room() {
                    return Err(LendingError::TooManyObligationReserves);
                }
                let next = ObligationLiquidity::new(
                    borrow_reserve,
                    cumulative_borrow_rate_wads,
                    borrow_amount,
                );
                proof {
                    lemma_liquidity_views_push(self.borrows@, next);
                }
                self.borrows.push(next);
                Ok(())
            },
        }
    }

    /// Repays `settle_amount` of the borrow entry at `liquidity_index`.
    pub fn repay(&mut self, settle_amount: Decimal, liquidity_index: usize) -> (r: Result<
        (),
        LendingError,
    >)
        requires
            liquidity_index < old(self).borrows.len(),
        ensures
            transition(
                r,
                *old(self),
                *final(self),
                old(self)@.repay(settle_amount@, liquidity_index as int),
            ),
    {
        let entry = self.borrows[liquidity_index];
        if settle_amount == entry.borrowed_amount_wads {
            proof {
                lemma_liquidity_views_remove(self.borrows@, liquidity_index as int);
            }
            self.borrows.remove(liquidity_index);
            Ok(())
        } else {
            let owed = entry.borrowed_amount_wads.try_sub(settle_amount)?;
            let next = ObligationLiquidity { borrowed_amount_wads: owed, ..entry };
            proof {
                lemma_liquidity_views_update(self.borrows@, liquidity_index as int, next);
            }
            self.borrows.set(liquidity_index, next);
            Ok(())
        }
    }

    /// Ratio of the borrowed value to the deposited value.
    pub fn loan_to_value(&self) -> (r: Result<Decimal, LendingError>)
        ensures
            decimal_is(r, self@.loan_to_value()),
    {
        self.borrowed_value.try_div(self.deposited_value)
    }

    /// Value that may still be borrowed.
    pub fn remaining_borrow_value(&self) -> (r: Result<Decimal, LendingError>)
        ensures
            difference_is(r, self@.remaining_borrow_value()),
    {
        self.allowed_borrow_value.try_sub(self.borrowed_value)
    }

    /// Value of collateral that may be withdrawn from a reserve with the
    /// loan-to-value ratio `withdraw_collateral_ltv`.
    pub fn max_withdraw_value(&self, withdraw_collateral_ltv: Rate) -> (r: Result<
        Decimal,
        LendingError,
    >)
        ensures
            decimal_is(r, self@.max_withdraw_value(withdraw_collateral_ltv@)),
    {
        if self.allowed_borrow_value.le(self.borrowed_value) {
            return Ok(Decimal::zero());
        }
        if withdraw_collateral_ltv.is_zero() {
            return Ok(self.deposited_value);
        }
        self.allowed_borrow_value.try_sub(self.borrowed_value)?.try_div_rate(
            withdraw_collateral_ltv,
        )
    }
}

} // verus!
