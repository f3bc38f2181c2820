//! Ratios and percentages as fixed-point numbers with eighteen fractional digits.
//!
//! A `Rate` stores its value times `WAD` in 128 bits. Its view is that scaled
//! value as a natural number.

use vstd::prelude::*;
use vstd::arithmetic::div_mod::{lemma_div_is_ordered, lemma_div_multiples_vanish};
use crate::decimal::{half_wad, percent_scaler, wad, Decimal, HALF_WAD, PERCENT_SCALER, WAD};
use crate::error::LendingError;

verus! {

/// Scaled sum of two scaled rates, unless it needs more than 128 bits.
pub open spec fn rate_add(a: nat, b: nat) -> Option<nat> {
    if a + b <= u128::MAX {
        Some(a + b)
    } else {
        None
    }
}

/// Scaled difference of two scaled rates, unless it would be negative.
pub open spec fn rate_sub(a: nat, b: nat) -> Option<nat> {
    if a >= b {
        Some((a - b) as nat)
    } else {
        None
    }
}

/// Scaled product of two scaled rates, rounded down, unless the unscaled
/// product needs more than 128 bits.
pub open spec fn rate_mul(a: nat, b: nat) -> Option<nat> {
    if a * b <= u128::MAX {
        Some(a * b / wad())
    } else {
        None
    }
}

/// Scaled quotient of two scaled rates, rounded down, unless the divisor is
/// zero or the rescaled dividend needs more than 128 bits.
pub open spec fn rate_div(a: nat, b: nat) -> Option<nat> {
    if b != 0 && a * wad() <= u128::MAX {
        Some(a * wad() / b)
    } else {
        None
    }
}

/// Scaled product of a scaled rate and a plain integer, unless it needs more
/// than 128 bits.
pub open spec fn rate_mul_int(a: nat, m: nat) -> Option<nat> {
    if a * m <= u128::MAX {
        Some(a * m)
    } else {
        None
    }
}

/// Scaled quotient of a scaled rate and a plain integer, rounded down, unless
/// the divisor is zero.
pub open spec fn rate_div_int(a: nat, m: nat) -> Option<nat> {
    if m != 0 {
        Some(a / m)
    } else {
        None
    }
}

/// A scaled rate rounded to the nearest integer, halves up, when the rounding
/// neither leaves 128 bits nor the result 64 bits.
pub open spec fn rate_round_u64(a: nat) -> Option<nat> {
    if a + half_wad() <= u128::MAX && (a + half_wad()) / wad() <= u64::MAX {
        Some((a + half_wad()) / wad())
    } else {
        None
    }
}

/// `acc` times the square of `base` to the power `exp`, by repeated squaring:
/// `base` is squared, the lowest bit of `exp` decides whether the square
/// enters the product, and the rest of `exp` is left to the square. Every
/// product is rounded down to eighteen digits.
pub open spec fn rate_pow_from(acc: nat, base: nat, exp: nat) -> Option<nat>
    decreases exp,
{
    if exp == 0 {
        Some(acc)
    } else {
        match rate_mul(base, base) {
            None => None,
            Some(square) => {
                let taken = if exp % 2 == 1 {
                    rate_mul(acc, square)
                } else {
                    Some(acc)
                };
                match taken {
                    None => None,
                    Some(a) => rate_pow_from(a, square, exp / 2),
                }
            },
        }
    }
}

/// `base` to the power `exp` by repeated squaring: the product starts with
/// `base` for an odd exponent and with one for an even one, and the higher
/// bits of the exponent bring in the repeated squares of `base`.
pub open spec fn rate_pow(base: nat, exp: nat) -> Option<nat> {
    rate_pow_from(
        if exp % 2 == 1 {
            base
        } else {
            wad()
        },
        base,
        exp / 2,
    )
}

/// A rate result `r` carries the scaled value `expected` when there is one, and
/// reports an overflow when there is none.
pub open spec fn rate_is(r: Result<Rate, LendingError>, expected: Option<nat>) -> bool {
    match expected {
        Some(v) => r matches Ok(x) && x@ == v,
        None => r == Err::<Rate, LendingError>(LendingError::MathOverflow),
    }
}

/// A rate difference `r` carries the scaled value `expected` when there is
/// one, and reports an underflow when there is none.
pub open spec fn rate_difference_is(r: Result<Rate, LendingError>, expected: Option<nat>) -> bool {
    match expected {
        Some(v) => r matches Ok(x) && x@ == v,
        None => r == Err::<Rate, LendingError>(LendingError::MathUnderflow),
    }
}

/// A product with a factor of at least one is at least the other factor.
pub proof fn lemma_rate_mul_grows(a: nat, b: nat)
    requires
        b >= wad(),
    ensures
        a * b / wad() >= a,
{
    assert(a * b >= a * wad()) by (nonlinear_arith)
        requires
            b >= wad(),
    ;
    lemma_div_is_ordered((a * wad()) as int, (a * b) as int, wad() as int);
    lemma_div_multiples_vanish(a as int, wad() as int);
}

/// A product with repeated squares of a base of at least one is at least
/// what the product started with.
pub proof fn lemma_rate_pow_grows(acc: nat, base: nat, exp: nat)
    requires
        base >= wad(),
    ensures
        rate_pow_from(acc, base, exp) matches Some(v) ==> v >= acc,
    decreases exp,
{
    if exp != 0 && rate_mul(base, base) is Some {
        lemma_rate_mul_grows(base, base);
        let square = rate_mul(base, base)->0;
        lemma_rate_mul_grows(acc, square);
        let taken = if exp % 2 == 1 {
            rate_mul(acc, square)
        } else {
            Some(acc)
        };
        if taken is Some {
            lemma_rate_pow_grows(taken->0, square, exp / 2);
        }
    }
}

/// A power of a base of at least one is at least one.
pub proof fn lemma_rate_pow_at_least_one(base: nat, exp: nat)
    requires
        base >= wad(),
    ensures
        rate_pow(base, exp) matches Some(v) ==> v >= wad(),
{
    lemma_rate_pow_grows(
        if exp % 2 == 1 {
            base
        } else {
            wad()
        },
        base,
        exp / 2,
    );
}

/// A ratio or percentage with eighteen fractional digits.
#[derive(Clone, Copy, Debug, PartialEq, Eq, Structural)]
pub struct Rate(pub u128);

impl View for Rate {
    type V = nat;

    /// The value times `wad()`.
    open spec fn view(&self) -> nat {
        self.0 as nat
    }
}

impl Rate {
    /// The rate zero.
    pub fn zero() -> (r: Rate)
        ensures
            r@ == 0,
    {
        Rate(0)
    }

    /// The rate one, that is one hundred percent.
    pub fn one() -> (r: Rate)
        ensures
            r@ == wad(),
    {
        Rate(WAD as u128)
    }

    /// The given number of hundredths.
    pub fn from_percent(percent: u8) -> (r: Rate)
        ensures
            r@ == percent as nat * percent_scaler(),
    {
        let wide: u64 = percent as u64;
        Rate((wide * PERCENT_SCALER) as u128)
    }

    /// The rate whose scaled value is `scaled_val`.
    pub fn from_scaled_val(scaled_val: u64) -> (r: Rate)
        ensures
            r@ == scaled_val as nat,
    {
        Rate(scaled_val as u128)
    }

    /// The scaled value.
    pub fn to_scaled_val(self) -> (r: u128)
        ensures
            r as nat == self@,
    {
        self.0
    }

    /// The rate with the scaled value of `decimal`, or `MathOverflow` when that
    /// needs more than 128 bits.
    pub fn try_from_decimal(decimal: Decimal) -> (r: Result<Rate, LendingError>)
        ensures
            rate_is(
                r,
                if decimal@ <= u128::MAX {
                    Some(decimal@)
                } else {
                    None
                },
            ),
    {
        match decimal.to_scaled_val() {
            Ok(v) => Ok(Rate(v)),
            Err(e) => Err(e),
        }
    }

    /// Whether the rate is zero.
    pub fn is_zero(self) -> (r: bool)
        ensures
            r == (self@ == 0),
    {
        self.0 == 0
    }

    /// Whether `self` is strictly below `rhs`.
    pub fn lt(self, rhs: Rate) -> (r: bool)
        ensures
            r == (self@ < rhs@),
    {
        self.0 < rhs.0
    }

    /// Whether `self` is below or equal to `rhs`.
    pub fn le(self, rhs: Rate) -> (r: bool)
        ensures
            r == (self@ <= rhs@),
    {
        self.0 <= rhs.0
    }

    /// The sum, or `MathOverflow`.
    pub fn try_add(self, rhs: Rate) -> (r: Result<Rate, LendingError>)
        ensures
            rate_is(r, rate_add(self@, rhs@)),
    {
        match self.0.checked_add(rhs.0) {
            Some(v) => Ok(Rate(v)),
            None => Err(LendingError::MathOverflow),
        }
    }

    /// The difference, or `MathUnderflow` when `rhs` is the larger.
    pub fn try_sub(self, rhs: Rate) -> (r: Result<Rate, LendingError>)
        ensures
            rate_difference_is(r, rate_sub(self@, rhs@)),
    {
        match self.0.checked_sub(rhs.0) {
            Some(v) => Ok(Rate(v)),
            None => Err(LendingError::MathUnderflow),
        }
    }

    /// The product rounded down to the last fractional digit, or `MathOverflow`.
    pub fn try_mul(self, rhs: Rate) -> (r: Result<Rate, LendingError>)
        ensures
            rate_is(r, rate_mul(self@, rhs@)),
    {
        match self.0.checked_mul(rhs.0) {
            Some(v) => Ok(Rate(v / (WAD as u128))),
            None => Err(LendingError::MathOverflow),
        }
    }

    /// The product with a whole number, or `MathOverflow`.
    pub fn try_mul_u64(self, rhs: u64) -> (r: Result<Rate, LendingError>)
        ensures
            rate_is(r, rate_mul_int(self@, rhs as nat)),
    {
        match self.0.checked_mul(rhs as u128) {
            Some(v) => Ok(Rate(v)),
            None => Err(LendingError::MathOverflow),
        }
    }

    /// The quotient rounded down to the last fractional digit, or
    /// `MathOverflow` when `rhs` is zero or the dividend is too large to rescale.
    pub fn try_div(self, rhs: Rate) -> (r: Result<Rate, LendingError>)
        ensures
            rate_is(r, rate_div(self@, rhs@)),
    {
        if rhs.0 == 0 {
            return Err(LendingError::MathOverflow);
        }
        match self.0.checked_mul(WAD as u128) {
            Some(v) => Ok(Rate(v / rhs.0)),
            None => Err(LendingError::MathOverflow),
        }
    }

    /// The quotient by a whole number, rounded down to the last fractional
    /// digit, or `MathOverflow` when `rhs` is zero.
    pub fn try_div_u64(self, rhs: u64) -> (r: Result<Rate, LendingError>)
        ensures
            rate_is(r, rate_div_int(self@, rhs as nat)),
    {
        if rhs == 0 {
            return Err(LendingError::MathOverflow);
        }
        Ok(Rate(self.0 / (rhs as u128)))
    }

    /// The rate rounded to the nearest integer, halves up, or `MathOverflow`.
    pub fn try_round_u64(self) -> (r: Result<u64, LendingError>)
        ensures
            crate::decimal::integer_is(r, rate_round_u64(self@)),
    {
        match self.0.checked_add(HALF_WAD as u128) {
            Some(raised) => {
                let rounded: u128 = raised / (WAD as u128);
                if rounded <= u64::MAX as u128 {
                    Ok(rounded as u64)
                } else {
                    Err(LendingError::MathOverflow)
                }
            },
            None => Err(LendingError::MathOverflow),
        }
    }

    /// The rate to the power `exp` by repeated squaring, every product rounded
    /// down, or `MathOverflow` when one of the products overflows.
    pub fn try_pow(self, exp: u64) -> (r: Result<Rate, LendingError>)
        ensures
            rate_is(r, rate_pow(self@, exp as nat)),
            self@ >= wad() ==> (r matches Ok(p) ==> p@ >= wad()),
    {
        let mut acc = if exp % 2 == 1 {
            self
        } else {
            Rate::one()
        };
        let mut base = self;
        let mut left: u64 = exp / 2;
        proof {
            if self@ >= wad() {
                lemma_rate_pow_at_least_one(self@, exp as nat);
            }
        }
        while left > 0
            invariant
                rate_pow_from(acc@, base@, left as nat) == rate_pow(self@, exp as nat),
            decreases left,
        {
            base = base.try_mul(base)?;
            if left % 2 == 1 {
                acc = acc.try_mul(base)?;
            }
            left = left / 2;
        }
        Ok(acc)
    }
}

} // verus!
