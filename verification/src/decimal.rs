//! Non-negative fixed-point numbers with eighteen fractional digits.
//!
//! A `Decimal` stores its value times `WAD` in 192 bits. Its view is that
//! scaled value as a natural number, so a contract that reads `d@ == 3 * wad()`
//! speaks of the number three.

use vstd::prelude::*;
use vstd::arithmetic::div_mod::lemma_fundamental_div_mod;
use crate::error::LendingError;
use crate::rate::Rate;
use crate::wide::{limit, U192};

verus! {

/// Number of fractional digits.
pub const SCALE: usize = 18;

/// The scaled value of one.
pub const WAD: u64 = 1_000_000_000_000_000_000;

/// The scaled value of one half.
pub const HALF_WAD: u64 = 500_000_000_000_000_000;

/// The scaled value of one percent.
pub const PERCENT_SCALER: u64 = 10_000_000_000_000_000;

/// The scaled value of one.
#[verifier::inline]
pub open spec fn wad() -> nat {
    1_000_000_000_000_000_000
}

/// The scaled value of one half.
#[verifier::inline]
pub open spec fn half_wad() -> nat {
    500_000_000_000_000_000
}

/// The scaled value of one percent.
#[verifier::inline]
pub open spec fn percent_scaler() -> nat {
    10_000_000_000_000_000
}

/// The larger of two natural numbers.
pub open spec fn nat_max(a: nat, b: nat) -> nat {
    if a >= b {
        a
    } else {
        b
    }
}

/// The smaller of two natural numbers.
pub open spec fn nat_min(a: nat, b: nat) -> nat {
    if a <= b {
        a
    } else {
        b
    }
}

/// Scaled sum of two scaled values, unless it needs more than 192 bits.
pub open spec fn spec_add(a: nat, b: nat) -> Option<nat> {
    if a + b < limit() {
        Some(a + b)
    } else {
        None
    }
}

/// Scaled difference of two scaled values, unless it would be negative.
pub open spec fn spec_sub(a: nat, b: nat) -> Option<nat> {
    if a >= b {
        Some((a - b) as nat)
    } else {
        None
    }
}

/// Scaled product of two scaled values, rounded down, unless the unscaled
/// product needs more than 192 bits.
pub open spec fn spec_mul(a: nat, b: nat) -> Option<nat> {
    if a * b < limit() {
        Some(a * b / wad())
    } else {
        None
    }
}

/// Scaled quotient of two scaled values, rounded down, unless the divisor is
/// zero or the rescaled dividend needs more than 192 bits.
pub open spec fn spec_div(a: nat, b: nat) -> Option<nat> {
    if b != 0 && a * wad() < limit() {
        Some(a * wad() / b)
    } else {
        None
    }
}

/// Scaled product of a scaled value and a plain integer, unless it needs more
/// than 192 bits.
pub open spec fn spec_mul_int(a: nat, m: nat) -> Option<nat> {
    if a * m < limit() {
        Some(a * m)
    } else {
        None
    }
}

/// Scaled quotient of a scaled value and a plain integer, rounded down, unless
/// the divisor is zero.
pub open spec fn spec_div_int(a: nat, m: nat) -> Option<nat> {
    if m != 0 {
        Some(a / m)
    } else {
        None
    }
}

/// The integer part of a scaled value, when it fits in 64 bits.
pub open spec fn spec_floor_u64(a: nat) -> Option<nat> {
    if a / wad() <= u64::MAX {
        Some(a / wad())
    } else {
        None
    }
}

/// A scaled value rounded up to an integer, when the rounding neither leaves
/// 192 bits nor the result 64 bits.
pub open spec fn spec_ceil_u64(a: nat) -> Option<nat> {
    if a + wad() - 1 < limit() && (a + wad() - 1) / (wad() as int) <= u64::MAX {
        Some(((a + wad() - 1) / (wad() as int)) as nat)
    } else {
        None
    }
}

/// A scaled value rounded to the nearest integer, halves up, when the rounding
/// neither leaves 192 bits nor the result 64 bits.
pub open spec fn spec_round_u64(a: nat) -> Option<nat> {
    if a + half_wad() < limit() && (a + half_wad()) / wad() <= u64::MAX {
        Some((a + half_wad()) / wad())
    } else {
        None
    }
}

/// A fixed-point result `r` carries the scaled value `expected` when there is
/// one, and reports an overflow when there is none.
pub open spec fn decimal_is(r: Result<Decimal, LendingError>, expected: Option<nat>) -> bool {
    match expected {
        Some(v) => r matches Ok(d) && d@ == v,
        None => r == Err::<Decimal, LendingError>(LendingError::MathOverflow),
    }
}

/// A fixed-point difference `r` carries the scaled value `expected` when
/// there is one, and reports an underflow when there is none.
pub open spec fn difference_is(r: Result<Decimal, LendingError>, expected: Option<nat>) -> bool {
    match expected {
        Some(v) => r matches Ok(d) && d@ == v,
        None => r == Err::<Decimal, LendingError>(LendingError::MathUnderflow),
    }
}

/// An integer result `r` carries `expected` when there is one, and reports an
/// overflow when there is none.
pub open spec fn integer_is(r: Result<u64, LendingError>, expected: Option<nat>) -> bool {
    match expected {
        Some(v) => r matches Ok(x) && x as nat == v,
        None => r == Err::<u64, LendingError>(LendingError::MathOverflow),
    }
}

/// Dividing by a number and multiplying by it again never gives more than
/// was there, and loses less than the divisor's integer part and one more of
/// the smallest unit. For a divisor of at most one the loss is at most one
/// smallest unit. The multiplication never overflows.
pub proof fn lemma_div_then_mul_is_close(a: nat, b: nat)
    requires
        spec_div(a, b) is Some,
    ensures
        spec_mul(spec_div(a, b)->0, b) matches Some(back) && back <= a && (a - back) * wad() < b
            + wad(),
        b <= wad() ==> a - spec_mul(spec_div(a, b)->0, b)->0 <= 1,
{
    let q = a * wad() / b;
    lemma_fundamental_div_mod((a * wad()) as int, b as int);
    assert(q * b <= a * wad() && a * wad() - q * b < b) by (nonlinear_arith)
        requires
            a * wad() == b * q + (a * wad()) % b,
            0 <= (a * wad()) % b < b,
    ;
    let back = q * b / wad();
    lemma_fundamental_div_mod((q * b) as int, wad() as int);
}

/// A non-negative fixed-point number with eighteen fractional digits.
#[derive(Clone, Copy, Debug, PartialEq, Eq, Structural)]
pub struct Decimal(pub U192);

impl View for Decimal {
    type V = nat;

    /// The value times `wad()`.
    open spec fn view(&self) -> nat {
        self.0@
    }
}

impl Decimal {
    /// The number zero.
    pub fn zero() -> (r: Decimal)
        ensures
            r@ == 0,
    {
        Decimal(U192::zero())
    }

    /// The number one.
    pub fn one() -> (r: Decimal)
        ensures
            r@ == wad(),
    {
        Decimal(U192::from_u64(WAD))
    }

    /// The given number of hundredths.
    pub fn from_percent(percent: u8) -> (r: Decimal)
        ensures
            r@ == percent as nat * percent_scaler(),
    {
        let wide: u64 = percent as u64;
        Decimal(U192::from_u64(wide * PERCENT_SCALER))
    }

    /// The given whole number.
    pub fn from_u64(x: u64) -> (r: Decimal)
        ensures
            r@ == x as nat * wad(),
    {
        let wide: u128 = x as u128;
        Decimal(U192::from_u128(wide * (WAD as u128)))
    }

    /// The given whole number, unless its scaled value needs more than 192 bits.
    pub fn try_from_u128(x: u128) -> (r: Result<Decimal, LendingError>)
        ensures
            decimal_is(r, spec_mul_int(x as nat, wad())),
    {
        match U192::from_u128(x).checked_mul_u64(WAD) {
            Some(v) => Ok(Decimal(v)),
            None => Err(LendingError::MathOverflow),
        }
    }

    /// The number that `rate` stands for.
    pub fn from_rate(rate: Rate) -> (r: Decimal)
        ensures
            r@ == rate@,
    {
        Decimal(U192::from_u128(rate.to_scaled_val()))
    }

    /// The number whose scaled value is `scaled_val`.
    pub fn from_scaled_val(scaled_val: u128) -> (r: Decimal)
        ensures
            r@ == scaled_val as nat,
    {
        Decimal(U192::from_u128(scaled_val))
    }

    /// The scaled value, when it fits in 128 bits.
    pub fn to_scaled_val(self) -> (r: Result<u128, LendingError>)
        ensures
            self@ <= u128::MAX ==> r == Ok::<u128, LendingError>(self@ as u128),
            self@ > u128::MAX ==> r == Err::<u128, LendingError>(LendingError::MathOverflow),
    {
        match self.0.to_u128() {
            Some(v) => Ok(v),
            None => Err(LendingError::MathOverflow),
        }
    }

    /// Whether the number is zero.
    pub fn is_zero(self) -> (r: bool)
        ensures
            r == (self@ == 0),
    {
        self.0.is_zero()
    }

    /// Whether `self` is strictly below `rhs`.
    pub fn lt(self, rhs: Decimal) -> (r: bool)
        ensures
            r == (self@ < rhs@),
    {
        self.0.lt(rhs.0)
    }

    /// Whether `self` is below or equal to `rhs`.
    pub fn le(self, rhs: Decimal) -> (r: bool)
        ensures
            r == (self@ <= rhs@),
    {
        self.0.le(rhs.0)
    }

    /// The smaller of the two.
    pub fn min(self, rhs: Decimal) -> (r: Decimal)
        ensures
            r@ == if self@ <= rhs@ { self@ } else { rhs@ },
            r == self || r == rhs,
    {
        if self.le(rhs) {
            self
        } else {
            rhs
        }
    }

    /// The larger of the two.
    pub fn max(self, rhs: Decimal) -> (r: Decimal)
        ensures
            r@ == if self@ >= rhs@ { self@ } else { rhs@ },
            r == self || r == rhs,
    {
        if rhs.le(self) {
            self
        } else {
            rhs
        }
    }

    /// The sum, or `MathOverflow`.
    pub fn try_add(self, rhs: Decimal) -> (r: Result<Decimal, LendingError>)
        ensures
            decimal_is(r, spec_add(self@, rhs@)),
    {
        match self.0.checked_add(rhs.0) {
            Some(v) => Ok(Decimal(v)),
            None => Err(LendingError::MathOverflow),
        }
    }

    /// The difference, or `MathUnderflow` when `rhs` is the larger.
    pub fn try_sub(self, rhs: Decimal) -> (r: Result<Decimal, LendingError>)
        ensures
            difference_is(r, spec_sub(self@, rhs@)),
    {
        match self.0.checked_sub(rhs.0) {
            Some(v) => Ok(Decimal(v)),
            None => Err(LendingError::MathUnderflow),
        }
    }

    /// The product rounded down to the last fractional digit, or `MathOverflow`.
    pub fn try_mul(self, rhs: Decimal) -> (r: Result<Decimal, LendingError>)
        ensures
            decimal_is(r, spec_mul(self@, rhs@)),
    {
        match self.0.checked_mul(rhs.0) {
            Some(v) => Ok(Decimal(v.div_rem_u64(WAD).0)),
            None => Err(LendingError::MathOverflow),
        }
    }

    /// The product with a whole number, or `MathOverflow`.
    pub fn try_mul_u64(self, rhs: u64) -> (r: Result<Decimal, LendingError>)
        ensures
            decimal_is(r, spec_mul_int(self@, rhs as nat)),
    {
        match self.0.checked_mul_u64(rhs) {
            Some(v) => Ok(Decimal(v)),
            None => Err(LendingError::MathOverflow),
        }
    }

    /// The product with a rate, rounded down to the last fractional digit, or
    /// `MathOverflow`.
    pub fn try_mul_rate(self, rhs: Rate) -> (r: Result<Decimal, LendingError>)
        ensures
            decimal_is(r, spec_mul(self@, rhs@)),
    {
        self.try_mul(Decimal::from_rate(rhs))
    }

    /// The quotient by a rate, rounded down to the last fractional digit, or
    /// `MathOverflow` when `rhs` is zero or the dividend is too large to rescale.
    pub fn try_div_rate(self, rhs: Rate) -> (r: Result<Decimal, LendingError>)
        ensures
            decimal_is(r, spec_div(self@, rhs@)),
    {
        self.try_div(Decimal::from_rate(rhs))
    }

    /// The quotient rounded down to the last fractional digit, or
    /// `MathOverflow` when `rhs` is zero or the dividend is too large to rescale.
    pub fn try_div(self, rhs: Decimal) -> (r: Result<Decimal, LendingError>)
        ensures
            decimal_is(r, spec_div(self@, rhs@)),
    {
        if rhs.is_zero() {
            return Err(LendingError::MathOverflow);
        }
        match self.0.checked_mul_u64(WAD) {
            Some(v) => Ok(Decimal(v.div_rem(rhs.0).0)),
            None => Err(LendingError::MathOverflow),
        }
    }

    /// The quotient by a whole number, rounded down to the last fractional
    /// digit, or `MathOverflow` when `rhs` is zero.
    pub fn try_div_u64(self, rhs: u64) -> (r: Result<Decimal, LendingError>)
        ensures
            decimal_is(r, spec_div_int(self@, rhs as nat)),
    {
        if rhs == 0 {
            return Err(LendingError::MathOverflow);
        }
        Ok(Decimal(self.0.div_rem_u64(rhs).0))
    }

    /// The integer part, or `MathOverflow` when it needs more than 64 bits.
    pub fn try_floor_u64(self) -> (r: Result<u64, LendingError>)
        ensures
            integer_is(r, spec_floor_u64(self@)),
    {
        match self.0.div_rem_u64(WAD).0.to_u64() {
            Some(v) => Ok(v),
            None => Err(LendingError::MathOverflow),
        }
    }

    /// The number rounded up to an integer, or `MathOverflow`.
    pub fn try_ceil_u64(self) -> (r: Result<u64, LendingError>)
        ensures
            integer_is(r, spec_ceil_u64(self@)),
    {
        match self.0.checked_add(U192::from_u64(WAD - 1)) {
            Some(raised) => match raised.div_rem_u64(WAD).0.to_u64() {
                Some(v) => Ok(v),
                None => Err(LendingError::MathOverflow),
            },
            None => Err(LendingError::MathOverflow),
        }
    }

    /// The number rounded to the nearest integer, halves up, or `MathOverflow`.
    pub fn try_round_u64(self) -> (r: Result<u64, LendingError>)
        ensures
            integer_is(r, spec_round_u64(self@)),
    {
        match self.0.checked_add(U192::from_u64(HALF_WAD)) {
            Some(raised) => match raised.div_rem_u64(WAD).0.to_u64() {
                Some(v) => Ok(v),
                None => Err(LendingError::MathOverflow),
            },
            None => Err(LendingError::MathOverflow),
        }
    }
}

} // verus!
