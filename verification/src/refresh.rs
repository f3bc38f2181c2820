//! Bringing a reserve up to date: a new price, and the interest of the slots
//! that have passed.

use vstd::prelude::*;
use crate::error::{transition, LendingError};
use crate::last_update::LastUpdate;
use crate::oracle::{select_price, spec_select_price, OraclePrice};
use crate::reserve::{
    lemma_compound_interest_grows, Reserve, ReserveLiquidityView, ReserveView,
};

verus! {

impl ReserveView {
    /// After a refresh at `current_slot` with the scaled `price`: the price is
    /// recorded, the interest of the slots since the last refresh is added,
    /// and the stamp is set to the slot and cleared.
    pub open spec fn refresh(self, current_slot: u64, price: nat) -> Result<
        ReserveView,
        LendingError,
    > {
        let priced = ReserveView {
            liquidity: ReserveLiquidityView { market_price: price, ..self.liquidity },
            ..self
        };
        match priced.accrue_interest(current_slot) {
            Ok(accrued) => Ok(
                ReserveView {
                    last_update: LastUpdate { slot: current_slot, stale: false },
                    ..accrued
                },
            ),
            Err(e) => Err(e),
        }
    }

    /// After a refresh at `current_slot` with the prices of the two sources.
    pub open spec fn refresh_from_oracle(
        self,
        current_slot: u64,
        primary: OraclePrice,
        secondary: Option<OraclePrice>,
        max_price_age: u64,
    ) -> Result<ReserveView, LendingError> {
        match spec_select_price(primary, secondary, current_slot, max_price_age) {
            Err(e) => Err(e),
            Ok(price) => self.refresh(current_slot, price),
        }
    }

    /// After the refreshes `steps`, one after the other; nothing when one of
    /// them fails.
    pub open spec fn refresh_all(self, steps: Seq<(u64, nat)>) -> Option<ReserveView>
        decreases steps.len(),
    {
        if steps.len() == 0 {
            Some(self)
        } else {
            match self.refresh(steps[0].0, steps[0].1) {
                Ok(next) => next.refresh_all(steps.drop_first()),
                Err(_) => None,
            }
        }
    }
}

/// A refresh never lowers the cumulative borrow rate or the debt, leaves the
/// available liquidity and the collateral as they are, and stamps the slot.
pub proof fn lemma_refresh_grows(reserve: ReserveView, current_slot: u64, price: nat)
    ensures
        reserve.refresh(current_slot, price) matches Ok(next) ==> {
            &&& next.liquidity.cumulative_borrow_rate_wads
                >= reserve.liquidity.cumulative_borrow_rate_wads
            &&& next.liquidity.borrowed_amount_wads >= reserve.liquidity.borrowed_amount_wads
            &&& next.liquidity.available_amount == reserve.liquidity.available_amount
            &&& next.liquidity.market_price == price
            &&& next.collateral == reserve.collateral
            &&& next.config == reserve.config
            &&& next.last_update.fresh_at(current_slot)
            &&& current_slot >= reserve.last_update.slot
        },
{
    let priced = ReserveView {
        liquidity: ReserveLiquidityView { market_price: price, ..reserve.liquidity },
        ..reserve
    };
    if reserve.refresh(current_slot, price) is Ok {
        let elapsed = reserve.last_update.spec_slots_elapsed(current_slot)->Ok_0;
        if elapsed > 0 {
            lemma_compound_interest_grows(
                priced.liquidity,
                priced.current_borrow_rate()->0,
                elapsed,
            );
        }
    }
}

/// Over any sequence of refreshes that all succeed, the cumulative borrow
/// rate of a reserve never decreases.
pub proof fn lemma_cumulative_rate_never_decreases(reserve: ReserveView, steps: Seq<(u64, nat)>)
    ensures
        reserve.refresh_all(steps) matches Some(last) ==> last.liquidity.cumulative_borrow_rate_wads
            >= reserve.liquidity.cumulative_borrow_rate_wads,
    decreases steps.len(),
{
    if steps.len() > 0 {
        lemma_refresh_grows(reserve, steps[0].0, steps[0].1);
        if reserve.refresh(steps[0].0, steps[0].1) is Ok {
            lemma_cumulative_rate_never_decreases(
                reserve.refresh(steps[0].0, steps[0].1)->Ok_0,
                steps.drop_first(),
            );
        }
    }
}

/// Refreshes `reserve` at `current_slot` with the prices of its two sources,
/// of which none may be older than `max_price_age` slots.
///
/// The cumulative borrow rate and the debt never shrink, and a reserve that
/// was refreshed is fresh at `current_slot`.
pub fn refresh_reserve(
    reserve: &mut Reserve,
    current_slot: u64,
    primary: &OraclePrice,
    secondary: &Option<OraclePrice>,
    max_price_age: u64,
) -> (r: Result<(), LendingError>)
    ensures
        transition(
            r,
            *old(reserve),
            *final(reserve),
            old(reserve)@.refresh_from_oracle(current_slot, *primary, *secondary, max_price_age),
        ),
        final(reserve).liquidity.cumulative_borrow_rate_wads@ >= old(reserve).liquidity.cumulative_borrow_rate_wads@,
        final(reserve).liquidity.borrowed_amount_wads@ >= old(reserve).liquidity.borrowed_amount_wads@,
        r is Ok ==> final(reserve).last_update.fresh_at(current_slot),
{
    let price = select_price(primary, secondary, current_slot, max_price_age)?;
    let mut next = *reserve;
    next.liquidity.market_price = price;
    next.accrue_interest(current_slot)?;
    next.last_update.update_slot(current_slot);
    proof {
        lemma_refresh_grows(reserve@, current_slot, price@);
    }
    *reserve = next;
    Ok(())
}

} // verus!
