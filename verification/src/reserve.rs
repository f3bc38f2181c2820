//! A reserve: one pool of liquidity, the collateral tokens minted against it,
//! and the interest model that prices its borrows.

use vstd::prelude::*;
use crate::decimal::{
    decimal_is, integer_is, nat_min, percent_scaler, spec_add, spec_ceil_u64, spec_div,
    spec_div_int, spec_floor_u64, spec_mul, spec_mul_int, wad, Decimal, WAD,
};
use crate::error::{or_overflow, transition, transition_with, LendingError};
use crate::fees::{FeeCalculation, ReserveFees};
use crate::last_update::LastUpdate;
use crate::rate::{rate_add, rate_div, rate_div_int, rate_is, rate_mul, rate_pow, Rate};

verus! {

/// Number of slots in a year, at two slots a second.
pub const SLOTS_PER_YEAR: u64 = 63_072_000;

/// Collateral tokens that stand for one unit of liquidity while a reserve is empty.
pub const INITIAL_COLLATERAL_RATIO: u64 = 1;

/// The exchange rate of an empty reserve as a scaled rate: one unit of
/// liquidity for one collateral token.
pub const INITIAL_COLLATERAL_RATE: u64 = INITIAL_COLLATERAL_RATIO * WAD;

/// Ten to the power `n`.
pub open spec fn pow10(n: nat) -> nat
    decreases n,
{
    if n == 0 {
        1
    } else {
        10 * pow10((n - 1) as nat)
    }
}

/// Powers of ten grow with the exponent.
pub proof fn lemma_pow10_increases(a: nat, b: nat)
    requires
        a <= b,
    ensures
        pow10(a) <= pow10(b),
        pow10(a) >= 1,
    decreases b,
{
    if a < b {
        lemma_pow10_increases(a, (b - 1) as nat);
    } else if a > 0 {
        lemma_pow10_increases((a - 1) as nat, (a - 1) as nat);
    }
}

/// The number of base units in one token with `decimals` fractional digits,
/// when it fits in 64 bits.
pub open spec fn spec_decimals_factor(decimals: u8) -> Option<nat> {
    if pow10(decimals as nat) <= u64::MAX {
        Some(pow10(decimals as nat))
    } else {
        None
    }
}

/// The number of base units in one token with `decimals` fractional digits,
/// or `MathOverflow` when it needs more than 64 bits.
pub fn decimals_factor(decimals: u8) -> (r: Result<u64, LendingError>)
    ensures
        integer_is(r, spec_decimals_factor(decimals)),
        r matches Ok(f) ==> f >= 1,
{
    let mut factor: u64 = 1;
    let mut i: u8 = 0;
    while i < decimals
        invariant
            i <= decimals,
            factor as nat == pow10(i as nat),
            factor >= 1,
        decreases decimals - i,
    {
        factor = match factor.checked_mul(10) {
            Some(v) => v,
            None => {
                proof {
                    lemma_pow10_increases((i + 1) as nat, decimals as nat);
                }
                return Err(LendingError::MathOverflow);
            },
        };
        i += 1;
    }
    Ok(factor)
}

/// The parameters that an operator sets for a reserve.
#[derive(Clone, Copy, Debug, PartialEq, Eq, Structural)]
pub struct ReserveConfig {
    /// Utilization at which the borrow rate reaches `optimal_borrow_rate`, in percent.
    pub optimal_utilization_rate: u8,
    /// Share of a deposit's value that may be borrowed against it, in percent.
    pub loan_to_value_ratio: u8,
    /// Extra collateral that a liquidator receives, in percent of what is repaid.
    pub liquidation_bonus: u8,
    /// Share of a deposit's value above which borrows against it are unhealthy, in percent.
    pub liquidation_threshold: u8,
    /// Borrow rate at zero utilization, in percent a year.
    pub min_borrow_rate: u8,
    /// Borrow rate at optimal utilization, in percent a year.
    pub optimal_borrow_rate: u8,
    /// Borrow rate at full utilization, in percent a year.
    pub max_borrow_rate: u8,
    /// The fee rates.
    pub fees: ReserveFees,
    /// Most liquidity that the reserve accepts.
    pub deposit_limit: u64,
    /// Most liquidity that may be lent out at a time.
    pub borrow_limit: u64,
}

impl ReserveConfig {
    /// Every percentage is at most one hundred, less than the whole value can
    /// be borrowed, the liquidation threshold lies above the loan-to-value
    /// ratio, the three borrow rates ascend, and each fee is below the amount
    /// it is charged on.
    pub open spec fn spec_valid(self) -> bool {
        &&& self.optimal_utilization_rate <= 100
        &&& self.loan_to_value_ratio < 100
        &&& self.liquidation_bonus <= 100
        &&& self.loan_to_value_ratio < self.liquidation_threshold <= 100
        &&& self.min_borrow_rate <= self.optimal_borrow_rate <= self.max_borrow_rate
        &&& self.fees.borrow_fee_wad < WAD
        &&& self.fees.flash_loan_fee_wad < WAD
        &&& self.fees.host_fee_percentage <= 100
    }

    /// Accepts a valid configuration and refuses any other as `InvalidConfig`.
    pub fn validate(&self) -> (r: Result<(), LendingError>)
        ensures
            self.spec_valid() ==> r is Ok,
            !self.spec_valid() ==> r == Err::<(), LendingError>(LendingError::InvalidConfig),
    {
        if self.optimal_utilization_rate > 100 || self.loan_to_value_ratio >= 100
            || self.liquidation_bonus > 100 || self.liquidation_threshold
            <= self.loan_to_value_ratio || self.liquidation_threshold > 100
            || self.optimal_borrow_rate < self.min_borrow_rate || self.optimal_borrow_rate
            > self.max_borrow_rate || self.fees.borrow_fee_wad >= WAD
            || self.fees.flash_loan_fee_wad >= WAD || self.fees.host_fee_percentage > 100 {
            Err(LendingError::InvalidConfig)
        } else {
            Ok(())
        }
    }
}

/// The liquidity side of a reserve.
#[derive(Clone, Copy, Debug, PartialEq, Eq, Structural)]
pub struct ReserveLiquidity {
    /// Fractional digits of the liquidity token.
    pub mint_decimals: u8,
    /// Liquidity that is in the pool and can be borrowed or withdrawn.
    pub available_amount: u64,
    /// Liquidity that is lent out, with the interest accrued on it.
    pub borrowed_amount_wads: Decimal,
    /// Growth of one unit borrowed when the reserve was created.
    pub cumulative_borrow_rate_wads: Decimal,
    /// Price of one whole token in the quote currency.
    pub market_price: Decimal,
}

/// The liquidity side of a reserve with its fixed-point fields as scaled numbers.
pub ghost struct ReserveLiquidityView {
    /// Fractional digits of the liquidity token.
    pub mint_decimals: u8,
    /// Liquidity that is in the pool.
    pub available_amount: u64,
    /// Scaled liquidity that is lent out.
    pub borrowed_amount_wads: nat,
    /// Scaled growth of one unit borrowed when the reserve was created.
    pub cumulative_borrow_rate_wads: nat,
    /// Scaled price of one whole token.
    pub market_price: nat,
}

impl View for ReserveLiquidity {
    type V = ReserveLiquidityView;

    open spec fn view(&self) -> ReserveLiquidityView {
        ReserveLiquidityView {
            mint_decimals: self.mint_decimals,
            available_amount: self.available_amount,
            borrowed_amount_wads: self.borrowed_amount_wads@,
            cumulative_borrow_rate_wads: self.cumulative_borrow_rate_wads@,
            market_price: self.market_price@,
        }
    }
}

impl ReserveLiquidityView {
    /// Scaled sum of what is available and what is lent out.
    pub open spec fn total_supply(self) -> Option<nat> {
        spec_add(self.available_amount as nat * wad(), self.borrowed_amount_wads)
    }

    /// After `amount` was added to the pool.
    pub open spec fn deposit(self, amount: u64) -> Result<ReserveLiquidityView, LendingError> {
        if self.available_amount + amount <= u64::MAX {
            Ok(ReserveLiquidityView { available_amount: (self.available_amount + amount) as u64, ..self })
        } else {
            Err(LendingError::MathOverflow)
        }
    }

    /// After `amount` was taken out of the pool; more than is available is
    /// `InsufficientLiquidity`.
    pub open spec fn withdraw(self, amount: u64) -> Result<ReserveLiquidityView, LendingError> {
        if amount > self.available_amount {
            Err(LendingError::InsufficientLiquidity)
        } else {
            Ok(ReserveLiquidityView { available_amount: (self.available_amount - amount) as u64, ..self })
        }
    }

    /// After the scaled `amount` was lent out: its integer part leaves the
    /// pool, and the whole of it is owed.
    pub open spec fn borrow(self, amount: nat) -> Result<ReserveLiquidityView, LendingError> {
        match spec_floor_u64(amount) {
            None => Err(LendingError::MathOverflow),
            Some(whole) => if whole > self.available_amount {
                Err(LendingError::InsufficientLiquidity)
            } else {
                match spec_add(self.borrowed_amount_wads, amount) {
                    None => Err(LendingError::MathOverflow),
                    Some(owed) => Ok(
                        ReserveLiquidityView {
                            available_amount: (self.available_amount - whole) as u64,
                            borrowed_amount_wads: owed,
                            ..self
                        },
                    ),
                }
            },
        }
    }

    /// After `repay_amount` came into the pool to settle the scaled
    /// `settle_amount` of debt; no more is settled than is owed.
    pub open spec fn repay(self, repay_amount: u64, settle_amount: nat) -> Result<
        ReserveLiquidityView,
        LendingError,
    > {
        if self.available_amount + repay_amount <= u64::MAX {
            Ok(
                ReserveLiquidityView {
                    available_amount: (self.available_amount + repay_amount) as u64,
                    borrowed_amount_wads: (self.borrowed_amount_wads - nat_min(
                        settle_amount,
                        self.borrowed_amount_wads,
                    )) as nat,
                    ..self
                },
            )
        } else {
            Err(LendingError::MathOverflow)
        }
    }

    /// The scaled share of the total supply that is lent out; zero for an
    /// empty reserve.
    pub open spec fn utilization_rate(self) -> Option<nat> {
        match self.total_supply() {
            None => None,
            Some(total) => if total == 0 {
                Some(0)
            } else {
                match spec_div(self.borrowed_amount_wads, total) {
                    Some(u) if u <= u128::MAX => Some(u),
                    _ => None,
                }
            },
        }
    }

    /// The scaled factor by which debt grows over `slots_elapsed` slots at the
    /// scaled yearly rate `borrow_rate`: one plus the rate of a single slot, to
    /// the power of the number of slots.
    pub open spec fn compounded_interest_rate(borrow_rate: nat, slots_elapsed: u64) -> Option<nat> {
        match rate_div_int(borrow_rate, SLOTS_PER_YEAR as nat) {
            None => None,
            Some(slot_rate) => match rate_add(wad(), slot_rate) {
                None => None,
                Some(base) => rate_pow(base, slots_elapsed as nat),
            },
        }
    }

    /// After interest was compounded over `slots_elapsed` slots: the
    /// cumulative rate and the debt both grow by the compounded factor.
    pub open spec fn compound_interest(self, borrow_rate: nat, slots_elapsed: u64) -> Option<
        ReserveLiquidityView,
    > {
        match Self::compounded_interest_rate(borrow_rate, slots_elapsed) {
            None => None,
            Some(factor) => match spec_mul(self.cumulative_borrow_rate_wads, factor) {
                None => None,
                Some(cumulative) => match spec_mul(self.borrowed_amount_wads, factor) {
                    None => None,
                    Some(owed) => Some(
                        ReserveLiquidityView {
                            cumulative_borrow_rate_wads: cumulative,
                            borrowed_amount_wads: owed,
                            ..self
                        },
                    ),
                },
            },
        }
    }
}

/// No more is lent out than there is: the utilization is at most one.
pub proof fn lemma_utilization_is_a_share(liquidity: ReserveLiquidityView)
    ensures
        liquidity.utilization_rate() matches Some(share) ==> share <= wad(),
{
    if liquidity.utilization_rate() is Some && liquidity.total_supply()->0 != 0 {
        let total = liquidity.total_supply()->0;
        let lent = liquidity.borrowed_amount_wads;
        assert(lent * wad() <= total * wad()) by (nonlinear_arith)
            requires
                lent <= total,
        ;
        vstd::arithmetic::div_mod::lemma_div_is_ordered(
            (lent * wad()) as int,
            (total * wad()) as int,
            total as int,
        );
        assert(total * wad() == total * wad());
        vstd::arithmetic::div_mod::lemma_div_multiples_vanish(wad() as int, total as int);
    }
}

impl ReserveLiquidity {
    /// What is available and what is lent out together.
    pub fn total_supply(&self) -> (r: Result<Decimal, LendingError>)
        ensures
            decimal_is(r, self@.total_supply()),
    {
        Decimal::from_u64(self.available_amount).try_add(self.borrowed_amount_wads)
    }

    /// Adds `liquidity_amount` to the pool.
    pub fn deposit(&mut self, liquidity_amount: u64) -> (r: Result<(), LendingError>)
        ensures
            transition(r, *old(self), *final(self), old(self)@.deposit(liquidity_amount)),
    {
        match self.available_amount.checked_add(liquidity_amount) {
            Some(v) => {
                self.available_amount = v;
                Ok(())
            },
            None => Err(LendingError::MathOverflow),
        }
    }

    /// Takes `liquidity_amount` out of the pool.
    pub fn withdraw(&mut self, liquidity_amount: u64) -> (r: Result<(), LendingError>)
        ensures
            transition(r, *old(self), *final(self), old(self)@.withdraw(liquidity_amount)),
    {
        if liquidity_amount > self.available_amount {
            return Err(LendingError::InsufficientLiquidity);
        }
        self.available_amount = self.available_amount - liquidity_amount;
        Ok(())
    }

    /// Lends out `borrow_decimal`.
    pub fn borrow(&mut self, borrow_decimal: Decimal) -> (r: Result<(), LendingError>)
        ensures
            transition(r, *old(self), *final(self), old(self)@.borrow(borrow_decimal@)),
    {
        let whole = borrow_decimal.try_floor_u64()?;
        if whole > self.available_amount {
            return Err(LendingError::InsufficientLiquidity);
        }
        let owed = self.borrowed_amount_wads.try_add(borrow_decimal)?;
        self.available_amount = self.available_amount - whole;
        self.borrowed_amount_wads = owed;
        Ok(())
    }

    /// Takes `repay_amount` into the pool and settles `settle_amount` of debt.
    pub fn repay(&mut self, repay_amount: u64, settle_amount: Decimal) -> (r: Result<
        (),
        LendingError,
    >)
        ensures
            transition(r, *old(self), *final(self), old(self)@.repay(repay_amount, settle_amount@)),
    {
        let available = match self.available_amount.checked_add(repay_amount) {
            Some(v) => v,
            None => {
                return Err(LendingError::MathOverflow);
            },
        };
        let settled = settle_amount.min(self.borrowed_amount_wads);
        let owed = self.borrowed_amount_wads.try_sub(settled)?;
        self.available_amount = available;
        self.borrowed_amount_wads = owed;
        Ok(())
    }

    /// The share of the total supply that is lent out: at most one.
    pub fn utilization_rate(&self) -> (r: Result<Rate, LendingError>)
        ensures
            rate_is(r, self@.utilization_rate()),
            r matches Ok(share) ==> share@ <= wad(),
    {
        proof {
            lemma_utilization_is_a_share(self@);
        }
        let total = self.total_supply()?;
        if total.is_zero() {
            return Ok(Rate::zero());
        }
        Rate::try_from_decimal(self.borrowed_amount_wads.try_div(total)?)
    }

    /// Compounds interest at the yearly rate `current_borrow_rate` over
    /// `slots_elapsed` slots.
    pub fn compound_interest(&mut self, current_borrow_rate: Rate, slots_elapsed: u64) -> (r: Result<
        (),
        LendingError,
    >)
        ensures
            transition(
                r,
                *old(self),
                *final(self),
                or_overflow(old(self)@.compound_interest(current_borrow_rate@, slots_elapsed)),
            ),
    {
        let slot_rate = current_borrow_rate.try_div_u64(SLOTS_PER_YEAR)?;
        let factor = Rate::one().try_add(slot_rate)?.try_pow(slots_elapsed)?;
        let cumulative = self.cumulative_borrow_rate_wads.try_mul_rate(factor)?;
        let owed = self.borrowed_amount_wads.try_mul_rate(factor)?;
        self.cumulative_borrow_rate_wads = cumulative;
        self.borrowed_amount_wads = owed;
        Ok(())
    }
}

/// The collateral side of a reserve.
#[derive(Clone, Copy, Debug, PartialEq, Eq, Structural)]
pub struct ReserveCollateral {
    /// Collateral tokens in circulation.
    pub mint_total_supply: u64,
}

/// The scaled liquidity that one collateral token stands for: one unit while
/// there is no collateral or no liquidity, and the scaled `total_liquidity`
/// divided by the collateral supply afterwards.
pub open spec fn spec_exchange_rate(mint_total_supply: u64, total_liquidity: nat) -> Option<nat> {
    if mint_total_supply == 0 || total_liquidity == 0 {
        Some(INITIAL_COLLATERAL_RATE as nat)
    } else {
        match spec_div_int(total_liquidity, mint_total_supply as nat) {
            Some(rate) if rate <= u128::MAX => Some(rate),
            _ => None,
        }
    }
}

/// Scaled liquidity that the scaled `collateral` redeems at the scaled `rate`.
pub open spec fn spec_decimal_collateral_to_liquidity(rate: nat, collateral: nat) -> Option<nat> {
    spec_mul(collateral, rate)
}

/// Scaled collateral that the scaled `liquidity` mints at the scaled `rate`.
pub open spec fn spec_decimal_liquidity_to_collateral(rate: nat, liquidity: nat) -> Option<nat> {
    spec_div(liquidity, rate)
}

/// Liquidity that `collateral_amount` redeems at the scaled `rate`, rounded down.
pub open spec fn spec_collateral_to_liquidity(rate: nat, collateral_amount: u64) -> Option<nat> {
    match spec_decimal_collateral_to_liquidity(rate, collateral_amount as nat * wad()) {
        Some(liquidity) => spec_floor_u64(liquidity),
        None => None,
    }
}

/// Collateral that `liquidity_amount` mints at the scaled `rate`, rounded down.
pub open spec fn spec_liquidity_to_collateral(rate: nat, liquidity_amount: u64) -> Option<nat> {
    match spec_decimal_liquidity_to_collateral(rate, liquidity_amount as nat * wad()) {
        Some(collateral) => spec_floor_u64(collateral),
        None => None,
    }
}

impl ReserveCollateral {
    /// After `amount` collateral tokens were minted.
    pub open spec fn spec_mint(self, amount: u64) -> Result<ReserveCollateral, LendingError> {
        if self.mint_total_supply + amount <= u64::MAX {
            Ok(ReserveCollateral { mint_total_supply: (self.mint_total_supply + amount) as u64 })
        } else {
            Err(LendingError::MathOverflow)
        }
    }

    /// After `amount` collateral tokens were burned.
    pub open spec fn spec_burn(self, amount: u64) -> Result<ReserveCollateral, LendingError> {
        if amount <= self.mint_total_supply {
            Ok(ReserveCollateral { mint_total_supply: (self.mint_total_supply - amount) as u64 })
        } else {
            Err(LendingError::MathUnderflow)
        }
    }

    /// Records that `collateral_amount` tokens were minted.
    pub fn mint(&mut self, collateral_amount: u64) -> (r: Result<(), LendingError>)
        ensures
            match old(self).spec_mint(collateral_amount) {
                Ok(next) => r is Ok && *final(self) == next,
                Err(e) => r == Err::<(), LendingError>(e) && *final(self) == *old(self),
            },
    {
        match self.mint_total_supply.checked_add(collateral_amount) {
            Some(v) => {
                self.mint_total_supply = v;
                Ok(())
            },
            None => Err(LendingError::MathOverflow),
        }
    }

    /// Records that `collateral_amount` tokens were burned.
    pub fn burn(&mut self, collateral_amount: u64) -> (r: Result<(), LendingError>)
        ensures
            match old(self).spec_burn(collateral_amount) {
                Ok(next) => r is Ok && *final(self) == next,
                Err(e) => r == Err::<(), LendingError>(e) && *final(self) == *old(self),
            },
    {
        match self.mint_total_supply.checked_sub(collateral_amount) {
            Some(v) => {
                self.mint_total_supply = v;
                Ok(())
            },
            None => Err(LendingError::MathUnderflow),
        }
    }

    /// The liquidity that one collateral token stands for when the reserve
    /// holds `total_liquidity`.
    pub fn exchange_rate(&self, total_liquidity: Decimal) -> (r: Result<
        CollateralExchangeRate,
        LendingError,
    >)
        ensures
            match spec_exchange_rate(self.mint_total_supply, total_liquidity@) {
                Some(rate) => r matches Ok(x) && x.0@ == rate,
                None => r == Err::<CollateralExchangeRate, LendingError>(LendingError::MathOverflow),
            },
    {
        if self.mint_total_supply == 0 || total_liquidity.is_zero() {
            return Ok(CollateralExchangeRate(Rate::from_scaled_val(INITIAL_COLLATERAL_RATE)));
        }
        let rate = Rate::try_from_decimal(total_liquidity.try_div_u64(self.mint_total_supply)?)?;
        Ok(CollateralExchangeRate(rate))
    }
}

/// The liquidity that one collateral token stands for.
#[derive(Clone, Copy, Debug, PartialEq, Eq, Structural)]
pub struct CollateralExchangeRate(pub Rate);

impl CollateralExchangeRate {
    /// Liquidity that `collateral_amount` redeems, rounded down.
    pub fn collateral_to_liquidity(&self, collateral_amount: u64) -> (r: Result<u64, LendingError>)
        ensures
            integer_is(r, spec_collateral_to_liquidity(self.0@, collateral_amount)),
    {
        self.decimal_collateral_to_liquidity(
            Decimal::from_u64(collateral_amount),
        )?.try_floor_u64()
    }

    /// Liquidity that `collateral_amount` redeems.
    pub fn decimal_collateral_to_liquidity(&self, collateral_amount: Decimal) -> (r: Result<
        Decimal,
        LendingError,
    >)
        ensures
            decimal_is(r, spec_decimal_collateral_to_liquidity(self.0@, collateral_amount@)),
    {
        collateral_amount.try_mul_rate(self.0)
    }

    /// Collateral that `liquidity_amount` mints, rounded down.
    pub fn liquidity_to_collateral(&self, liquidity_amount: u64) -> (r: Result<u64, LendingError>)
        ensures
            integer_is(r, spec_liquidity_to_collateral(self.0@, liquidity_amount)),
    {
        self.decimal_liquidity_to_collateral(
            Decimal::from_u64(liquidity_amount),
        )?.try_floor_u64()
    }

    /// Collateral that `liquidity_amount` mints.
    pub fn decimal_liquidity_to_collateral(&self, liquidity_amount: Decimal) -> (r: Result<
        Decimal,
        LendingError,
    >)
        ensures
            decimal_is(r, spec_decimal_liquidity_to_collateral(self.0@, liquidity_amount@)),
    {
        liquidity_amount.try_div_rate(self.0)
    }
}

/// A reserve: a pool of one token, with its collateral and its parameters.
#[derive(Clone, Copy, Debug, PartialEq, Eq, Structural)]
pub struct Reserve {
    /// When the price and the interest were last brought up to date.
    pub last_update: LastUpdate,
    /// The liquidity side.
    pub liquidity: ReserveLiquidity,
    /// The collateral side.
    pub collateral: ReserveCollateral,
    /// The parameters.
    pub config: ReserveConfig,
}

/// A reserve with its fixed-point fields as scaled numbers.
pub ghost struct ReserveView {
    /// When the price and the interest were last brought up to date.
    pub last_update: LastUpdate,
    /// The liquidity side.
    pub liquidity: ReserveLiquidityView,
    /// The collateral side.
    pub collateral: ReserveCollateral,
    /// The parameters.
    pub config: ReserveConfig,
}

impl View for Reserve {
    type V = ReserveView;

    open spec fn view(&self) -> ReserveView {
        ReserveView {
            last_update: self.last_update,
            liquidity: self.liquidity@,
            collateral: self.collateral,
            config: self.config,
        }
    }
}

/// The scaled rate on the line from `low` percent to `high` percent, at the
/// fraction `numerator / denominator` of the way.
pub open spec fn spec_interpolate(numerator: nat, denominator: nat, low: u8, high: u8) -> Option<
    nat,
> {
    if high < low {
        None
    } else {
        match rate_div(numerator, denominator) {
            None => None,
            Some(fraction) => match rate_mul(fraction, (high - low) as nat * percent_scaler()) {
                None => None,
                Some(rise) => rate_add(rise, low as nat * percent_scaler()),
            },
        }
    }
}

/// The rate on the line from `low` percent to `high` percent, at the fraction
/// `numerator / denominator` of the way.
fn interpolate(numerator: Rate, denominator: Rate, low: u8, high: u8) -> (r: Result<
    Rate,
    LendingError,
>)
    ensures
        rate_is(r, spec_interpolate(numerator@, denominator@, low, high)),
{
    let range = match high.checked_sub(low) {
        Some(v) => Rate::from_percent(v),
        None => {
            return Err(LendingError::MathOverflow);
        },
    };
    numerator.try_div(denominator)?.try_mul(range)?.try_add(Rate::from_percent(low))
}

impl ReserveView {
    /// The scaled liquidity that one collateral token stands for.
    pub open spec fn collateral_exchange_rate(self) -> Option<nat> {
        match self.liquidity.total_supply() {
            Some(total) => spec_exchange_rate(self.collateral.mint_total_supply, total),
            None => None,
        }
    }

    /// After `liquidity_amount` was deposited, with the collateral minted for it.
    pub open spec fn deposit_liquidity(self, liquidity_amount: u64) -> Result<
        (ReserveView, u64),
        LendingError,
    > {
        match self.collateral_exchange_rate() {
            None => Err(LendingError::MathOverflow),
            Some(rate) => match spec_liquidity_to_collateral(rate, liquidity_amount) {
                None => Err(LendingError::MathOverflow),
                Some(minted) => match self.liquidity.deposit(liquidity_amount) {
                    Err(e) => Err(e),
                    Ok(liquidity) => match self.collateral.spec_mint(minted as u64) {
                        Err(e) => Err(e),
                        Ok(collateral) => Ok(
                            (ReserveView { liquidity, collateral, ..self }, minted as u64),
                        ),
                    },
                },
            },
        }
    }

    /// After `collateral_amount` was redeemed, with the liquidity paid out for it.
    pub open spec fn redeem_collateral(self, collateral_amount: u64) -> Result<
        (ReserveView, u64),
        LendingError,
    > {
        match self.collateral_exchange_rate() {
            None => Err(LendingError::MathOverflow),
            Some(rate) => match spec_collateral_to_liquidity(rate, collateral_amount) {
                None => Err(LendingError::MathOverflow),
                Some(paid) => match self.collateral.spec_burn(collateral_amount) {
                    Err(e) => Err(e),
                    Ok(collateral) => match self.liquidity.withdraw(paid as u64) {
                        Err(e) => Err(e),
                        Ok(liquidity) => Ok(
                            (ReserveView { liquidity, collateral, ..self }, paid as u64),
                        ),
                    },
                },
            },
        }
    }

    /// The scaled yearly borrow rate at the current utilization.
    ///
    /// Below the optimal utilization the rate rises from the minimum to the
    /// optimal borrow rate; from there to full utilization it rises from the
    /// optimal to the maximum borrow rate. With the optimal utilization at one
    /// hundred percent the first line covers everything.
    pub open spec fn current_borrow_rate(self) -> Option<nat> {
        match self.liquidity.utilization_rate() {
            None => None,
            Some(utilization) => {
                let optimal = self.config.optimal_utilization_rate as nat * percent_scaler();
                if utilization < optimal || self.config.optimal_utilization_rate == 100 {
                    spec_interpolate(
                        utilization,
                        optimal,
                        self.config.min_borrow_rate,
                        self.config.optimal_borrow_rate,
                    )
                } else if self.config.optimal_utilization_rate > 100 {
                    None
                } else {
                    spec_interpolate(
                        (utilization - optimal) as nat,
                        (100 - self.config.optimal_utilization_rate) as nat * percent_scaler(),
                        self.config.optimal_borrow_rate,
                        self.config.max_borrow_rate,
                    )
                }
            },
        }
    }

    /// After the interest of the slots up to `current_slot` was added to the
    /// debt. Nothing changes when no slot has passed, and a slot before the
    /// last update is `MathUnderflow`.
    pub open spec fn accrue_interest(self, current_slot: u64) -> Result<ReserveView, LendingError> {
        match self.last_update.spec_slots_elapsed(current_slot) {
            Err(e) => Err(e),
            Ok(elapsed) => if elapsed > 0 {
                match self.current_borrow_rate() {
                    None => Err(LendingError::MathOverflow),
                    Some(rate) => match self.liquidity.compound_interest(rate, elapsed) {
                        None => Err(LendingError::MathOverflow),
                        Some(liquidity) => Ok(ReserveView { liquidity, ..self }),
                    },
                }
            } else {
                Ok(self)
            },
        }
    }
}

/// Compounding never shrinks the cumulative borrow rate or the debt.
pub proof fn lemma_compound_interest_grows(
    liquidity: ReserveLiquidityView,
    borrow_rate: nat,
    slots_elapsed: u64,
)
    ensures
        liquidity.compound_interest(borrow_rate, slots_elapsed) matches Some(next) ==> {
            &&& next.cumulative_borrow_rate_wads >= liquidity.cumulative_borrow_rate_wads
            &&& next.borrowed_amount_wads >= liquidity.borrowed_amount_wads
            &&& next.available_amount == liquidity.available_amount
        },
{
    if liquidity.compound_interest(borrow_rate, slots_elapsed) is Some {
        let slot_rate = rate_div_int(borrow_rate, SLOTS_PER_YEAR as nat)->0;
        let base = rate_add(wad(), slot_rate)->0;
        crate::rate::lemma_rate_pow_at_least_one(base, slots_elapsed as nat);
        let factor = rate_pow(base, slots_elapsed as nat)->0;
        crate::rate::lemma_rate_mul_grows(liquidity.cumulative_borrow_rate_wads, factor);
        crate::rate::lemma_rate_mul_grows(liquidity.borrowed_amount_wads, factor);
    }
}

impl Reserve {
    /// The liquidity that one collateral token stands for.
    pub fn collateral_exchange_rate(&self) -> (r: Result<CollateralExchangeRate, LendingError>)
        ensures
            match self@.collateral_exchange_rate() {
                Some(rate) => r matches Ok(x) && x.0@ == rate,
                None => r == Err::<CollateralExchangeRate, LendingError>(LendingError::MathOverflow),
            },
    {
        let total = self.liquidity.total_supply()?;
        self.collateral.exchange_rate(total)
    }

    /// Takes `liquidity_amount` into the pool and returns the collateral to mint for it.
    pub fn deposit_liquidity(&mut self, liquidity_amount: u64) -> (r: Result<u64, LendingError>)
        ensures
            transition_with(
                r,
                *old(self),
                *final(self),
                old(self)@.deposit_liquidity(liquidity_amount),
            ),
    {
        let minted = self.collateral_exchange_rate()?.liquidity_to_collateral(liquidity_amount)?;
        let mut liquidity = self.liquidity;
        liquidity.deposit(liquidity_amount)?;
        let mut collateral = self.collateral;
        collateral.mint(minted)?;
        self.liquidity = liquidity;
        self.collateral = collateral;
        Ok(minted)
    }

    /// Burns `collateral_amount` and returns the liquidity to pay out for it.
    pub fn redeem_collateral(&mut self, collateral_amount: u64) -> (r: Result<u64, LendingError>)
        ensures
            transition_with(
                r,
                *old(self),
                *final(self),
                old(self)@.redeem_collateral(collateral_amount),
            ),
    {
        let paid = self.collateral_exchange_rate()?.collateral_to_liquidity(collateral_amount)?;
        let mut collateral = self.collateral;
        collateral.burn(collateral_amount)?;
        let mut liquidity = self.liquidity;
        liquidity.withdraw(paid)?;
        self.liquidity = liquidity;
        self.collateral = collateral;
        Ok(paid)
    }

    /// The yearly borrow rate at the current utilization.
    pub fn current_borrow_rate(&self) -> (r: Result<Rate, LendingError>)
        ensures
            rate_is(r, self@.current_borrow_rate()),
    {
        let utilization = self.liquidity.utilization_rate()?;
        let optimal = Rate::from_percent(self.config.optimal_utilization_rate);
        if utilization.lt(optimal) || self.config.optimal_utilization_rate == 100 {
            interpolate(
                utilization,
                optimal,
                self.config.min_borrow_rate,
                self.config.optimal_borrow_rate,
            )
        } else {
            let rest: u8 = match 100u8.checked_sub(self.config.optimal_utilization_rate) {
                Some(v) => v,
                None => {
                    return Err(LendingError::MathOverflow);
                },
            };
            interpolate(
                utilization.try_sub(optimal)?,
                Rate::from_percent(rest),
                self.config.optimal_borrow_rate,
                self.config.max_borrow_rate,
            )
        }
    }

    /// Adds the interest of the slots up to `current_slot` to the debt. The
    /// cumulative borrow rate and the debt never shrink.
    pub fn accrue_interest(&mut self, current_slot: u64) -> (r: Result<(), LendingError>)
        ensures
            transition(
                r,
                *old(self),
                *final(self),
                old(self)@.accrue_interest(current_slot),
            ),
            final(self).liquidity.cumulative_borrow_rate_wads@ >= old(self).liquidity.cumulative_borrow_rate_wads@,
            final(self).liquidity.borrowed_amount_wads@ >= old(self).liquidity.borrowed_amount_wads@,
    {
        let elapsed = self.last_update.slots_elapsed(current_slot)?;
        if elapsed > 0 {
            let rate = self.current_borrow_rate()?;
            proof {
                lemma_compound_interest_grows(self.liquidity@, rate@, elapsed);
            }
            let mut liquidity = self.liquidity;
            liquidity.compound_interest(rate, elapsed)?;
            self.liquidity = liquidity;
        }
        Ok(())
    }
}

/// The amounts of a borrow.
#[derive(Clone, Copy, Debug)]
pub struct CalculateBorrowResult {
    /// What the obligation owes for the borrow: what is received and the fee.
    pub borrow_amount: Decimal,
    /// What the borrower receives.
    pub receive_amount: u64,
    /// The whole fee.
    pub borrow_fee: u64,
    /// The part of the fee that goes to the host.
    pub host_fee: u64,
}

/// The amounts of a borrow, with the amount owed as a scaled number.
pub ghost struct BorrowAmounts {
    /// Scaled amount that the obligation owes for the borrow.
    pub borrow_amount: nat,
    /// What the borrower receives.
    pub receive_amount: u64,
    /// The whole fee.
    pub borrow_fee: u64,
    /// The part of the fee that goes to the host.
    pub host_fee: u64,
}

impl View for CalculateBorrowResult {
    type V = BorrowAmounts;

    open spec fn view(&self) -> BorrowAmounts {
        BorrowAmounts {
            borrow_amount: self.borrow_amount@,
            receive_amount: self.receive_amount,
            borrow_fee: self.borrow_fee,
            host_fee: self.host_fee,
        }
    }
}

/// The amounts of a repayment.
#[derive(Clone, Copy, Debug)]
pub struct CalculateRepayResult {
    /// The debt that is settled.
    pub settle_amount: Decimal,
    /// What the repayer pays: the settled debt rounded up.
    pub repay_amount: u64,
}

/// The amounts of a repayment, with the settled debt as a scaled number.
pub ghost struct RepayAmounts {
    /// Scaled debt that is settled.
    pub settle_amount: nat,
    /// What the repayer pays.
    pub repay_amount: u64,
}

impl View for CalculateRepayResult {
    type V = RepayAmounts;

    open spec fn view(&self) -> RepayAmounts {
        RepayAmounts { settle_amount: self.settle_amount@, repay_amount: self.repay_amount }
    }
}

/// The scaled value in the quote currency of the scaled `amount` of a token
/// with the scaled `price` and `decimals` base units to the token.
pub open spec fn spec_market_value(amount: nat, price: nat, decimals: nat) -> Option<nat> {
    match spec_mul(amount, price) {
        Some(v) => spec_div_int(v, decimals),
        None => None,
    }
}

/// The scaled amount of a token that the scaled `value` buys at the scaled
/// `price`, with `decimals` base units to the token.
pub open spec fn spec_amount_for_value(value: nat, price: nat, decimals: nat) -> Option<nat> {
    match spec_mul_int(value, decimals) {
        Some(v) => spec_div(v, price),
        None => None,
    }
}

/// The scaled amount settled by a repayment of `amount_to_repay` against the
/// scaled debt `borrowed_amount`: the whole debt for `u64::MAX`, else the
/// amount and at most the debt.
pub open spec fn spec_settle_amount(amount_to_repay: u64, borrowed_amount: nat) -> nat {
    if amount_to_repay == u64::MAX {
        borrowed_amount
    } else {
        nat_min(amount_to_repay as nat * wad(), borrowed_amount)
    }
}

/// What a repayment of `amount_to_repay` against the scaled debt
/// `borrowed_amount` settles, and what it costs: the settled debt rounded up.
pub open spec fn spec_calculate_repay(amount_to_repay: u64, borrowed_amount: nat) -> Result<
    RepayAmounts,
    LendingError,
> {
    let settle_amount = spec_settle_amount(amount_to_repay, borrowed_amount);
    match spec_ceil_u64(settle_amount) {
        Some(repay_amount) => Ok(RepayAmounts { settle_amount, repay_amount: repay_amount as u64 }),
        None => Err(LendingError::MathOverflow),
    }
}

impl ReserveView {
    /// Total fee and host fee on a borrow of the scaled `amount`; none when
    /// the fee is waived.
    pub open spec fn borrow_fees(self, amount: nat, mode: FeeCalculation, waive_fees: bool) -> Result<
        (u64, u64),
        LendingError,
    > {
        if waive_fees {
            Ok((0u64, 0u64))
        } else {
            self.config.fees.spec_borrow_fees(amount, mode)
        }
    }

    /// The borrow of everything that is allowed: the liquidity worth the
    /// scaled `max_borrow_value`, at most the scaled `remaining_reserve_borrow`
    /// and at most what is available. That is what leaves the reserve: the
    /// fee is the fee rate of it and is carved out of it.
    pub open spec fn calculate_max_borrow(
        self,
        decimals: nat,
        max_borrow_value: nat,
        remaining_reserve_borrow: nat,
        waive_fees: bool,
    ) -> Result<BorrowAmounts, LendingError> {
        match spec_amount_for_value(max_borrow_value, self.liquidity.market_price, decimals) {
            None => Err(LendingError::MathOverflow),
            Some(by_value) => {
                let borrow_amount = nat_min(
                    nat_min(by_value, remaining_reserve_borrow),
                    self.liquidity.available_amount as nat * wad(),
                );
                match self.borrow_fees(borrow_amount, FeeCalculation::Inclusive, waive_fees) {
                    Err(e) => Err(e),
                    Ok((borrow_fee, host_fee)) => match spec_floor_u64(borrow_amount) {
                        None => Err(LendingError::MathOverflow),
                        Some(whole) => if whole >= borrow_fee {
                            Ok(
                                BorrowAmounts {
                                    borrow_amount,
                                    receive_amount: (whole - borrow_fee) as u64,
                                    borrow_fee,
                                    host_fee,
                                },
                            )
                        } else {
                            Err(LendingError::MathUnderflow)
                        },
                    },
                }
            },
        }
    }

    /// The borrow that lets the borrower receive `receive_amount`: the fee
    /// comes on top, and is the fee rate of the two together. A borrow worth
    /// more than the scaled `max_borrow_value` is `BorrowTooLarge`, and one
    /// above the scaled `remaining_reserve_borrow` is `InvalidAmount`.
    pub open spec fn calculate_exact_borrow(
        self,
        decimals: nat,
        receive_amount: u64,
        max_borrow_value: nat,
        remaining_reserve_borrow: nat,
        waive_fees: bool,
    ) -> Result<BorrowAmounts, LendingError> {
        match self.borrow_fees(receive_amount as nat * wad(), FeeCalculation::Exclusive, waive_fees) {
            Err(e) => Err(e),
            Ok((borrow_fee, host_fee)) => match spec_add(
                receive_amount as nat * wad(),
                borrow_fee as nat * wad(),
            ) {
                None => Err(LendingError::MathOverflow),
                Some(borrow_amount) => match spec_market_value(
                    borrow_amount,
                    self.liquidity.market_price,
                    decimals,
                ) {
                    None => Err(LendingError::MathOverflow),
                    Some(borrow_value) => if borrow_value > max_borrow_value {
                        Err(LendingError::BorrowTooLarge)
                    } else if borrow_amount > remaining_reserve_borrow {
                        Err(LendingError::InvalidAmount)
                    } else {
                        Ok(BorrowAmounts { borrow_amount, receive_amount, borrow_fee, host_fee })
                    },
                },
            },
        }
    }

    /// The amounts of a borrow of `amount_to_borrow`, where `u64::MAX` asks
    /// for everything that is allowed.
    pub open spec fn calculate_borrow(
        self,
        amount_to_borrow: u64,
        max_borrow_value: nat,
        remaining_reserve_borrow: nat,
        waive_fees: bool,
    ) -> Result<BorrowAmounts, LendingError> {
        match spec_decimals_factor(self.liquidity.mint_decimals) {
            None => Err(LendingError::MathOverflow),
            Some(decimals) => if amount_to_borrow == u64::MAX {
                self.calculate_max_borrow(
                    decimals,
                    max_borrow_value,
                    remaining_reserve_borrow,
                    waive_fees,
                )
            } else {
                self.calculate_exact_borrow(
                    decimals,
                    amount_to_borrow,
                    max_borrow_value,
                    remaining_reserve_borrow,
                    waive_fees,
                )
            },
        }
    }
}

/// The value in the quote currency of `amount` of a token with the given
/// `price` and `decimals` base units to the token.
pub fn market_value(amount: Decimal, price: Decimal, decimals: u64) -> (r: Result<
    Decimal,
    LendingError,
>)
    ensures
        decimal_is(r, spec_market_value(amount@, price@, decimals as nat)),
{
    amount.try_mul(price)?.try_div_u64(decimals)
}

/// The amount of a token that `value` buys at `price`, with `decimals` base
/// units to the token.
pub fn amount_for_value(value: Decimal, price: Decimal, decimals: u64) -> (r: Result<
    Decimal,
    LendingError,
>)
    ensures
        decimal_is(r, spec_amount_for_value(value@, price@, decimals as nat)),
{
    value.try_mul_u64(decimals)?.try_div(price)
}

impl Reserve {
    /// Total fee and host fee on a borrow of `amount`; none when the fee is waived.
    pub fn borrow_fees(&self, amount: Decimal, mode: FeeCalculation, waive_fees: bool) -> (r: Result<
        (u64, u64),
        LendingError,
    >)
        ensures
            r == self@.borrow_fees(amount@, mode, waive_fees),
    {
        if waive_fees {
            Ok((0, 0))
        } else {
            self.config.fees.calculate_borrow_fees(amount, mode)
        }
    }

    /// The amounts of a borrow of `amount_to_borrow`, where `u64::MAX` asks
    /// for everything that `max_borrow_value`, `remaining_reserve_borrow` and
    /// the available liquidity allow.
    pub fn calculate_borrow(
        &self,
        amount_to_borrow: u64,
        max_borrow_value: Decimal,
        remaining_reserve_borrow: Decimal,
        waive_fees: bool,
    ) -> (r: Result<CalculateBorrowResult, LendingError>)
        ensures
            match self@.calculate_borrow(
                amount_to_borrow,
                max_borrow_value@,
                remaining_reserve_borrow@,
                waive_fees,
            ) {
                Ok(amounts) => r matches Ok(x) && x@ == amounts,
                Err(e) => r matches Err(x) && x == e,
            },
    {
        let decimals = decimals_factor(self.liquidity.mint_decimals)?;
        if amount_to_borrow == u64::MAX {
            let borrow_amount = amount_for_value(
                max_borrow_value,
                self.liquidity.market_price,
                decimals,
            )?.min(remaining_reserve_borrow).min(Decimal::from_u64(self.liquidity.available_amount));
            let (borrow_fee, host_fee) = self.borrow_fees(
                borrow_amount,
                FeeCalculation::Inclusive,
                waive_fees,
            )?;
            let receive_amount = match borrow_amount.try_floor_u64()?.checked_sub(borrow_fee) {
                Some(v) => v,
                None => {
                    return Err(LendingError::MathUnderflow);
                },
            };
            Ok(CalculateBorrowResult { borrow_amount, receive_amount, borrow_fee, host_fee })
        } else {
            let receive_amount = amount_to_borrow;
            let (borrow_fee, host_fee) = self.borrow_fees(
                Decimal::from_u64(receive_amount),
                FeeCalculation::Exclusive,
                waive_fees,
            )?;
            let borrow_amount = Decimal::from_u64(receive_amount).try_add(
                Decimal::from_u64(borrow_fee),
            )?;
            let borrow_value = market_value(borrow_amount, self.liquidity.market_price, decimals)?;
            if max_borrow_value.lt(borrow_value) {
                return Err(LendingError::BorrowTooLarge);
            }
            if remaining_reserve_borrow.lt(borrow_amount) {
                return Err(LendingError::InvalidAmount);
            }
            Ok(CalculateBorrowResult { borrow_amount, receive_amount, borrow_fee, host_fee })
        }
    }

    /// What a repayment of `amount_to_repay` against the debt
    /// `borrowed_amount` settles and costs; `u64::MAX` repays everything.
    pub fn calculate_repay(&self, amount_to_repay: u64, borrowed_amount: Decimal) -> (r: Result<
        CalculateRepayResult,
        LendingError,
    >)
        ensures
            match spec_calculate_repay(amount_to_repay, borrowed_amount@) {
                Ok(amounts) => r matches Ok(x) && x@ == amounts,
                Err(e) => r matches Err(x) && x == e,
            },
    {
        let settle_amount = if amount_to_repay == u64::MAX {
            borrowed_amount
        } else {
            Decimal::from_u64(amount_to_repay).min(borrowed_amount)
        };
        let repay_amount = settle_amount.try_ceil_u64()?;
        Ok(CalculateRepayResult { settle_amount, repay_amount })
    }
}

} // verus!
