//! Borrow and flash-loan fees of a reserve, and their split between the
//! protocol and the host that brought the borrower.

use vstd::prelude::*;
use vstd::arithmetic::div_mod::lemma_fundamental_div_mod;
use crate::decimal::{
    nat_max, percent_scaler, spec_div, spec_mul, spec_round_u64, wad, Decimal,
};
use crate::error::{or_overflow, LendingError};
use crate::rate::{rate_sub, Rate};

verus! {

/// How the amount that a fee is computed from relates to what leaves the reserve.
#[derive(Clone, Copy, Debug, PartialEq, Eq, Structural)]
pub enum FeeCalculation {
    /// The amount is what the receiver is left with: the fee comes on top of
    /// it, and the two together leave the reserve.
    Exclusive,
    /// The amount is what leaves the reserve: the fee is carved out of it.
    Inclusive,
}

/// The fee rates of a reserve.
#[derive(Clone, Copy, Debug, PartialEq, Eq, Structural)]
pub struct ReserveFees {
    /// Fee on a borrow, as a scaled rate: `10_000_000_000_000_000` is one percent.
    pub borrow_fee_wad: u64,
    /// Fee on a flash loan, as a scaled rate.
    pub flash_loan_fee_wad: u64,
    /// Share of every fee that goes to the host, in percent.
    pub host_fee_percentage: u8,
}

/// The scaled amount that leaves the reserve, of which the fee is a share.
///
/// Carved out of `amount`, the fee is a share of `amount` itself. On top of
/// `amount`, the fee is a share of `amount` and the fee together: of `amount`
/// divided by what the fee rate leaves of one. A rate above one leaves
/// nothing to divide by and is `MathUnderflow`.
pub open spec fn spec_fee_base(amount: nat, fee_wad: nat, mode: FeeCalculation) -> Result<
    nat,
    LendingError,
> {
    match mode {
        FeeCalculation::Inclusive => Ok(amount),
        FeeCalculation::Exclusive => match rate_sub(wad(), fee_wad) {
            None => Err(LendingError::MathUnderflow),
            Some(rest) => or_overflow(spec_div(amount, rest)),
        },
    }
}

/// With the fee on top, what the fee leaves of its base is the amount, to
/// within one smallest unit: the fee is the rate of what leaves the reserve.
pub proof fn lemma_fee_on_top_is_a_share_of_the_whole(amount: nat, fee_wad: nat)
    requires
        fee_wad < wad(),
        spec_fee_base(amount, fee_wad, FeeCalculation::Exclusive) matches Ok(base) && spec_mul(
            base,
            fee_wad,
        ) is Some,
    ensures
        ({
            let base = spec_fee_base(amount, fee_wad, FeeCalculation::Exclusive)->Ok_0;
            let fee = spec_mul(base, fee_wad)->0;
            &&& amount <= base
            &&& fee <= base
            &&& amount - 1 <= base - fee <= amount + 1
        }),
{
    let rest = (wad() - fee_wad) as nat;
    let base = amount * wad() / rest;
    lemma_fundamental_div_mod((amount * wad()) as int, rest as int);
    lemma_fundamental_div_mod((base * fee_wad) as int, wad() as int);
    let fee = base * fee_wad / wad();
    assert(base * rest <= amount * wad() && amount * wad() < base * rest + rest)
        by (nonlinear_arith)
        requires
            amount * wad() == rest * base + (amount * wad()) % rest,
            0 <= (amount * wad()) % rest < rest,
    ;
    assert(amount <= base) by (nonlinear_arith)
        requires
            amount * wad() < base * rest + rest,
            0 < rest <= wad(),
    ;
    assert(amount - 1 <= base - fee <= amount + 1 && fee <= base) by (nonlinear_arith)
        requires
            base * fee_wad == wad() * fee + (base * fee_wad) % wad(),
            0 <= (base * fee_wad) % wad() < wad(),
            base * rest <= amount * wad(),
            amount * wad() < base * rest + rest,
            rest + fee_wad == wad(),
            rest > 0,
    ;
}

impl ReserveFees {
    /// The scaled host share.
    pub open spec fn host_rate(self) -> nat {
        self.host_fee_percentage as nat * percent_scaler()
    }

    /// The smallest fee that is ever charged: one unit for the protocol, and
    /// one more for the host when it has a share.
    pub open spec fn minimum_fee(self) -> nat {
        if self.host_rate() > 0 {
            2
        } else {
            1
        }
    }

    /// Total fee and host fee on the scaled `amount` at the scaled rate `fee_wad`.
    ///
    /// Without a fee rate or an amount both are zero. Otherwise the total fee
    /// is the rate of what leaves the reserve, at least `minimum_fee()`,
    /// rounded to the nearest unit; a fee that is not below the amount is
    /// `BorrowTooSmall`. The host fee is the host's share of the unrounded
    /// total, rounded to the nearest unit and at least one.
    pub open spec fn spec_fees(self, amount: nat, fee_wad: nat, mode: FeeCalculation) -> Result<
        (u64, u64),
        LendingError,
    > {
        if fee_wad > 0 && amount > 0 {
            match spec_fee_base(amount, fee_wad, mode) {
                Err(e) => Err(e),
                Ok(base) => match spec_mul(base, fee_wad) {
                    None => Err(LendingError::MathOverflow),
                    Some(raw_fee) => {
                        let fee = nat_max(raw_fee, self.minimum_fee() * wad());
                        if fee >= amount {
                            Err(LendingError::BorrowTooSmall)
                        } else {
                            match spec_round_u64(fee) {
                                None => Err(LendingError::MathOverflow),
                                Some(total) => if self.host_rate() > 0 {
                                    match spec_mul(fee, self.host_rate()) {
                                        None => Err(LendingError::MathOverflow),
                                        Some(share) => match spec_round_u64(share) {
                                            None => Err(LendingError::MathOverflow),
                                            Some(host) => Ok(
                                                (total as u64, nat_max(host, 1) as u64),
                                            ),
                                        },
                                    }
                                } else {
                                    Ok((total as u64, 0u64))
                                },
                            }
                        }
                    },
                },
            }
        } else {
            Ok((0u64, 0u64))
        }
    }

    /// Total fee and host fee on a borrow of the scaled `amount`.
    pub open spec fn spec_borrow_fees(self, amount: nat, mode: FeeCalculation) -> Result<
        (u64, u64),
        LendingError,
    > {
        self.spec_fees(amount, self.borrow_fee_wad as nat, mode)
    }

    /// Total fee and host fee on a flash loan of the scaled `amount`: the
    /// amount is what leaves the reserve.
    pub open spec fn spec_flash_loan_fees(self, amount: nat) -> Result<(u64, u64), LendingError> {
        self.spec_fees(amount, self.flash_loan_fee_wad as nat, FeeCalculation::Inclusive)
    }

    /// Total fee and host fee on a borrow of `borrow_amount`.
    pub fn calculate_borrow_fees(&self, borrow_amount: Decimal, mode: FeeCalculation) -> (r: Result<
        (u64, u64),
        LendingError,
    >)
        ensures
            r == self.spec_borrow_fees(borrow_amount@, mode),
    {
        self.calculate_fees(borrow_amount, self.borrow_fee_wad, mode)
    }

    /// Total fee and host fee on a flash loan of `flash_loan_amount`, which is
    /// what leaves the reserve.
    pub fn calculate_flash_loan_fees(&self, flash_loan_amount: Decimal) -> (r: Result<
        (u64, u64),
        LendingError,
    >)
        ensures
            r == self.spec_flash_loan_fees(flash_loan_amount@),
    {
        self.calculate_fees(flash_loan_amount, self.flash_loan_fee_wad, FeeCalculation::Inclusive)
    }

    /// Total fee and host fee on `amount` at the scaled rate `fee_wad`.
    pub fn calculate_fees(&self, amount: Decimal, fee_wad: u64, mode: FeeCalculation) -> (r: Result<
        (u64, u64),
        LendingError,
    >)
        ensures
            r == self.spec_fees(amount@, fee_wad as nat, mode),
    {
        let fee_rate = Rate::from_scaled_val(fee_wad);
        let host_rate = Rate::from_percent(self.host_fee_percentage);
        if fee_rate.is_zero() || amount.is_zero() {
            return Ok((0, 0));
        }
        let has_host = !host_rate.is_zero();
        let minimum_fee: u64 = if has_host {
            2
        } else {
            1
        };
        let base = match mode {
            FeeCalculation::Inclusive => amount,
            FeeCalculation::Exclusive => amount.try_div_rate(Rate::one().try_sub(fee_rate)?)?,
        };
        let raw_fee = base.try_mul_rate(fee_rate)?;
        let fee = raw_fee.max(Decimal::from_u64(minimum_fee));
        if amount.le(fee) {
            return Err(LendingError::BorrowTooSmall);
        }
        let total = match fee.try_round_u64() {
            Ok(v) => v,
            Err(e) => {
                return Err(e);
            },
        };
        if !has_host {
            return Ok((total, 0));
        }
        let share = match fee.try_mul_rate(host_rate) {
            Ok(v) => v,
            Err(e) => {
                return Err(e);
            },
        };
        let host = match share.try_round_u64() {
            Ok(v) => v,
            Err(e) => {
                return Err(e);
            },
        };
        if host == 0 {
            Ok((total, 1))
        } else {
            Ok((total, host))
        }
    }
}

} // verus!
