//! Laws that relate several operations of a reserve.

use vstd::prelude::*;
use vstd::arithmetic::div_mod::lemma_div_multiples_vanish;
use crate::address::Address;
use crate::decimal::{percent_scaler, wad};
use crate::obligation::{lemma_deposit_index, ObligationView};
use crate::obligation_refresh::{lemma_refresh_preserves_wf, ReserveAccount};
use crate::rate::{rate_div, rate_mul};
use crate::reserve::{spec_interpolate, ReserveView};
use crate::wide::limit;

verus! {

impl ReserveView {
    /// Whether one collateral token stands for exactly one unit of liquidity:
    /// what is available and what is lent out together equal the collateral
    /// supply. An empty reserve is at par.
    pub open spec fn at_par(self) -> bool {
        self.liquidity.available_amount as nat * wad() + self.liquidity.borrowed_amount_wads
            == self.collateral.mint_total_supply as nat * wad()
    }
}

/// In a reserve at par, depositing liquidity and at once redeeming the
/// collateral that was minted for it pays the deposit back in full and leaves
/// the reserve as it was.
pub proof fn lemma_deposit_then_redeem_restores(reserve: ReserveView, liquidity_amount: u64)
    requires
        reserve.at_par(),
    ensures
        reserve.deposit_liquidity(liquidity_amount) matches Ok((deposited, minted)) ==> {
            &&& minted == liquidity_amount
            &&& deposited.at_par()
            &&& deposited.redeem_collateral(minted) == Ok::<
                (ReserveView, u64),
                crate::error::LendingError,
            >((reserve, liquidity_amount))
        },
{
    lemma_par_rate_is_one(reserve);
    lemma_one_to_one(liquidity_amount);
    if reserve.deposit_liquidity(liquidity_amount) is Ok {
        let deposited = reserve.deposit_liquidity(liquidity_amount)->Ok_0.0;
        assert(deposited.at_par()) by (nonlinear_arith)
            requires
                reserve.at_par(),
                deposited.liquidity.available_amount == reserve.liquidity.available_amount
                    + liquidity_amount,
                deposited.liquidity.borrowed_amount_wads == reserve.liquidity.borrowed_amount_wads,
                deposited.collateral.mint_total_supply == reserve.collateral.mint_total_supply
                    + liquidity_amount,
        ;
        lemma_par_rate_is_one(deposited);
    }
}

/// At the rate one, an amount converts to itself in both directions.
proof fn lemma_one_to_one(amount: u64)
    ensures
        crate::reserve::spec_liquidity_to_collateral(wad(), amount) == Some(amount as nat),
        crate::reserve::spec_collateral_to_liquidity(wad(), amount) == Some(amount as nat),
{
    let scaled = amount as nat * wad();
    lemma_div_multiples_vanish(scaled as int, wad() as int);
    lemma_div_multiples_vanish(amount as int, wad() as int);
    assert(scaled * wad() < limit()) by (nonlinear_arith)
        requires
            scaled <= 0xffff_ffff_ffff_ffff * wad(),
    ;
    assert(scaled * wad() == wad() * scaled) by (nonlinear_arith);
}

/// The exchange rate of a reserve at par is one.
proof fn lemma_par_rate_is_one(reserve: ReserveView)
    requires
        reserve.at_par(),
    ensures
        reserve.collateral_exchange_rate() == Some(wad()),
{
    let supply = reserve.collateral.mint_total_supply as nat;
    if supply > 0 {
        lemma_div_multiples_vanish(wad() as int, supply as int);
        assert(supply * wad() == wad() * supply) by (nonlinear_arith);
    }
}

/// A line of the borrow rate starts at its low rate and ends at its high rate.
proof fn lemma_interpolate_at_the_ends(denominator: nat, low: u8, high: u8)
    requires
        low <= high,
        0 < denominator <= wad(),
    ensures
        spec_interpolate(0, denominator, low, high) == Some(low as nat * percent_scaler()),
        spec_interpolate(denominator, denominator, low, high) == Some(
            high as nat * percent_scaler(),
        ),
{
    let range = (high - low) as nat * percent_scaler();
    assert(0nat * wad() / denominator == 0) by (nonlinear_arith)
        requires
            denominator > 0,
    ;
    assert(rate_div(0, denominator) == Some(0nat));
    assert(0nat * range / wad() == 0) by (nonlinear_arith);
    assert(rate_mul(0, range) == Some(0nat));
    assert(denominator * wad() <= wad() * wad()) by (nonlinear_arith)
        requires
            denominator <= wad(),
    ;
    lemma_div_multiples_vanish(wad() as int, denominator as int);
    assert(rate_div(denominator, denominator) == Some(wad()));
    assert(wad() * range == range * wad()) by (nonlinear_arith);
    lemma_div_multiples_vanish(range as int, wad() as int);
    assert(rate_mul(wad(), range) == Some(range));
}

/// The borrow rate of a reserve with a valid configuration is the minimum
/// rate when nothing is lent out, the optimal rate at the optimal
/// utilization, and the maximum rate when everything is lent out.
pub proof fn lemma_borrow_rate_at_the_ends(reserve: ReserveView)
    requires
        reserve.config.spec_valid(),
        0 < reserve.config.optimal_utilization_rate < 100,
    ensures
        reserve.liquidity.utilization_rate() == Some(0nat) ==> reserve.current_borrow_rate()
            == Some(reserve.config.min_borrow_rate as nat * percent_scaler()),
        reserve.liquidity.utilization_rate() == Some(
            reserve.config.optimal_utilization_rate as nat * percent_scaler(),
        ) ==> reserve.current_borrow_rate() == Some(
            reserve.config.optimal_borrow_rate as nat * percent_scaler(),
        ),
        reserve.liquidity.utilization_rate() == Some(wad()) ==> reserve.current_borrow_rate()
            == Some(reserve.config.max_borrow_rate as nat * percent_scaler()),
{
    let optimal = reserve.config.optimal_utilization_rate as nat * percent_scaler();
    let rest = (100 - reserve.config.optimal_utilization_rate) as nat * percent_scaler();
    lemma_interpolate_at_the_ends(
        optimal,
        reserve.config.min_borrow_rate,
        reserve.config.optimal_borrow_rate,
    );
    lemma_interpolate_at_the_ends(
        rest,
        reserve.config.optimal_borrow_rate,
        reserve.config.max_borrow_rate,
    );
}

/// Depositing collateral of a reserve that the obligation holds none of,
/// refreshing the obligation, and withdrawing the same amount again removes
/// the entry that the deposit made: the obligation holds the deposits that it
/// held before, and none of that reserve. The reserve is only read. Without
/// borrows the withdrawal is free and always succeeds; with borrows it
/// succeeds when they leave room for it.
pub proof fn lemma_deposit_refresh_withdraw_restores(
    obligation: ObligationView,
    accounts: Seq<ReserveAccount>,
    reserve: ReserveView,
    reserve_key: Address,
    collateral_amount: u64,
    slot: u64,
)
    requires
        obligation.deposit_index(reserve_key) is None,
        obligation.deposit_collateral(reserve, reserve_key, collateral_amount, slot) matches Ok(
            deposited,
        ) && deposited.refresh(accounts, slot) is Ok,
        reserve.last_update.fresh_at(slot),
        obligation.borrows.len() == 0 || collateral_amount != u64::MAX,
    ensures
        ({
            let deposited = obligation.deposit_collateral(
                reserve,
                reserve_key,
                collateral_amount,
                slot,
            )->Ok_0;
            let refreshed = deposited.refresh(accounts, slot)->Ok_0;
            let outcome = refreshed.withdraw_collateral(
                reserve,
                reserve_key,
                collateral_amount,
                slot,
            );
            &&& obligation.borrows.len() == 0 ==> outcome is Ok
            &&& outcome matches Ok((withdrawn, amount)) ==> {
                &&& amount == collateral_amount
                &&& withdrawn.deposits.len() == obligation.deposits.len()
                &&& withdrawn.deposit_index(reserve_key) is None
                &&& forall|j: int|
                    0 <= j < obligation.deposits.len() ==> {
                        &&& (#[trigger] withdrawn.deposits[j]).deposit_reserve
                            == obligation.deposits[j].deposit_reserve
                        &&& withdrawn.deposits[j].deposited_amount
                            == obligation.deposits[j].deposited_amount
                    }
            }
        }),
{
    let deposited = obligation.deposit_collateral(reserve, reserve_key, collateral_amount, slot)->Ok_0;
    let refreshed = deposited.refresh(accounts, slot)->Ok_0;
    let last = obligation.deposits.len() as int;
    lemma_deposit_index(obligation, reserve_key);
    lemma_refresh_preserves_wf(deposited, accounts, slot);
    assert(refreshed.deposits[last].deposit_reserve == reserve_key);
    assert(refreshed.is_deposit_index(reserve_key, last)) by {
        assert forall|j: int| 0 <= j < last implies refreshed.deposits[j].deposit_reserve
            != reserve_key by {
            assert(refreshed.deposits[j].deposit_reserve == deposited.deposits[j].deposit_reserve);
        }
    }
    lemma_deposit_index(refreshed, reserve_key);
    assert(refreshed.deposit_index(reserve_key) == Some(last));
    let outcome = refreshed.withdraw_collateral(reserve, reserve_key, collateral_amount, slot);
    if outcome is Ok {
        let withdrawn = outcome->Ok_0.0;
        assert(withdrawn.deposits =~= refreshed.deposits.remove(last));
        assert forall|j: int| 0 <= j < last implies withdrawn.deposits[j].deposit_reserve
            != reserve_key by {
            assert(withdrawn.deposits[j] == refreshed.deposits[j]);
            assert(refreshed.deposits[j].deposit_reserve == deposited.deposits[j].deposit_reserve);
        }
        lemma_deposit_index(withdrawn, reserve_key);
        if withdrawn.deposit_index(reserve_key) is Some {
            let i = withdrawn.deposit_index(reserve_key)->0;
            assert(withdrawn.deposits[i].deposit_reserve == reserve_key);
        }
        assert forall|j: int| 0 <= j < obligation.deposits.len() implies {
            &&& (#[trigger] withdrawn.deposits[j]).deposit_reserve
                == obligation.deposits[j].deposit_reserve
            &&& withdrawn.deposits[j].deposited_amount == obligation.deposits[j].deposited_amount
        } by {
            assert(withdrawn.deposits[j] == refreshed.deposits[j]);
            assert(refreshed.deposits[j].deposit_reserve == deposited.deposits[j].deposit_reserve);
            assert(deposited.deposits[j] == obligation.deposits[j]);
        }
    }
}

} // verus!
