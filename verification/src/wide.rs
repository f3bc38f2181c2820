//! Unsigned 192-bit integers built from three 64-bit limbs.
//!
//! Every operation is checked: it either returns the exact mathematical
//! result or reports that the result does not fit in 192 bits.

use vstd::prelude::*;
use vstd::arithmetic::div_mod::{lemma_fundamental_div_mod, lemma_fundamental_div_mod_converse};

verus! {

/// The weight of one limb in executable code: two to the power 64.
pub const LIMB_BASE: u128 = 0x1_0000_0000_0000_0000;

/// The weight of one limb: two to the power 64.
#[verifier::inline]
pub open spec fn limb_base() -> nat {
    0x1_0000_0000_0000_0000
}

/// The weight of the third limb: two to the power 128.
#[verifier::inline]
pub open spec fn limb_square() -> nat {
    0x1_0000_0000_0000_0000_0000_0000_0000_0000nat
}

/// The first value that no longer fits: two to the power 192.
#[verifier::inline]
pub open spec fn limit() -> nat {
    0x1_0000_0000_0000_0000_0000_0000_0000_0000_0000_0000_0000_0000nat
}

/// An unsigned integer below two to the power 192, least significant limb first.
#[derive(Clone, Copy, Debug, PartialEq, Eq, Structural)]
pub struct U192 {
    /// Bits 0 to 63.
    pub lo: u64,
    /// Bits 64 to 127.
    pub mid: u64,
    /// Bits 128 to 191.
    pub hi: u64,
}

impl View for U192 {
    type V = nat;

    /// The number that the three limbs stand for.
    open spec fn view(&self) -> nat {
        self.lo as nat + self.mid as nat * limb_base() + self.hi as nat * limb_square()
    }
}

/// Splits a double-limb value into its low limb and the carry above it.
fn split(x: u128) -> (r: (u64, u128))
    ensures
        r.0 as nat + r.1 as nat * limb_base() == x as nat,
        r.1 < LIMB_BASE,
{
    let low: u128 = x % LIMB_BASE;
    (low as u64, x / LIMB_BASE)
}

/// The product of two limbs as a double-limb value.
fn limb_product(a: u64, b: u64) -> (r: u128)
    ensures
        r as nat == a as nat * b as nat,
        r as nat <= 0xffff_ffff_ffff_fffe_0000_0000_0000_0001nat,
{
    assert(a as nat * b as nat <= 0xffff_ffff_ffff_ffff * 0xffff_ffff_ffff_ffff) by (nonlinear_arith)
        requires
            a as nat <= 0xffff_ffff_ffff_ffff,
            b as nat <= 0xffff_ffff_ffff_ffff,
    ;
    let wide_a: u128 = a as u128;
    let wide_b: u128 = b as u128;
    wide_a * wide_b
}

impl U192 {
    /// The number zero.
    pub fn zero() -> (r: U192)
        ensures
            r@ == 0,
    {
        U192 { lo: 0, mid: 0, hi: 0 }
    }

    /// Widens a 64-bit value.
    pub fn from_u64(x: u64) -> (r: U192)
        ensures
            r@ == x as nat,
    {
        U192 { lo: x, mid: 0, hi: 0 }
    }

    /// Widens a 128-bit value.
    pub fn from_u128(x: u128) -> (r: U192)
        ensures
            r@ == x as nat,
    {
        let (lo, carry) = split(x);
        U192 { lo, mid: carry as u64, hi: 0 }
    }

    /// The value as a `u64`, when it fits.
    pub fn to_u64(self) -> (r: Option<u64>)
        ensures
            self@ <= u64::MAX ==> r == Some(self@ as u64),
            self@ > u64::MAX ==> r is None,
    {
        if self.mid == 0 && self.hi == 0 {
            Some(self.lo)
        } else {
            None
        }
    }

    /// The value as a `u128`, when it fits.
    pub fn to_u128(self) -> (r: Option<u128>)
        ensures
            self@ <= u128::MAX ==> r == Some(self@ as u128),
            self@ > u128::MAX ==> r is None,
    {
        if self.hi == 0 {
            let wide_mid: u128 = self.mid as u128;
            let wide_lo: u128 = self.lo as u128;
            Some(wide_mid * LIMB_BASE + wide_lo)
        } else {
            None
        }
    }

    /// Whether the value is zero.
    pub fn is_zero(self) -> (r: bool)
        ensures
            r == (self@ == 0),
    {
        self.lo == 0 && self.mid == 0 && self.hi == 0
    }

    /// Whether `self` is strictly below `rhs`.
    pub fn lt(self, rhs: U192) -> (r: bool)
        ensures
            r == (self@ < rhs@),
    {
        if self.hi != rhs.hi {
            self.hi < rhs.hi
        } else if self.mid != rhs.mid {
            self.mid < rhs.mid
        } else {
            self.lo < rhs.lo
        }
    }

    /// Whether `self` is below or equal to `rhs`.
    pub fn le(self, rhs: U192) -> (r: bool)
        ensures
            r == (self@ <= rhs@),
    {
        !rhs.lt(self)
    }

    /// The sum, unless it needs more than 192 bits.
    pub fn checked_add(self, rhs: U192) -> (r: Option<U192>)
        ensures
            self@ + rhs@ < limit() ==> r is Some && r->0@ == self@ + rhs@,
            self@ + rhs@ >= limit() ==> r is None,
    {
        let (lo, carry_lo) = split(self.lo as u128 + rhs.lo as u128);
        let (mid, carry_mid) = split(self.mid as u128 + rhs.mid as u128 + carry_lo);
        let (hi, carry_hi) = split(self.hi as u128 + rhs.hi as u128 + carry_mid);
        if carry_hi == 0 {
            Some(U192 { lo, mid, hi })
        } else {
            None
        }
    }

    /// The difference, unless `rhs` is the larger.
    pub fn checked_sub(self, rhs: U192) -> (r: Option<U192>)
        ensures
            self@ >= rhs@ ==> r is Some && r->0@ == self@ - rhs@,
            self@ < rhs@ ==> r is None,
    {
        if self.lt(rhs) {
            return None;
        }
        let (lo, carry_lo) = split(LIMB_BASE + self.lo as u128 - rhs.lo as u128);
        let (mid, carry_mid) = split(
            LIMB_BASE - 1 + carry_lo + self.mid as u128 - rhs.mid as u128,
        );
        let (hi, carry_hi) = split(LIMB_BASE - 1 + carry_mid + self.hi as u128 - rhs.hi as u128);
        Some(U192 { lo, mid, hi })
    }

    /// The product with a single limb, unless it needs more than 192 bits.
    pub fn checked_mul_u64(self, m: u64) -> (r: Option<U192>)
        ensures
            self@ * m < limit() ==> r is Some && r->0@ == self@ * m,
            self@ * m >= limit() ==> r is None,
    {
        let (lo, carry_lo) = split(limb_product(self.lo, m));
        let (mid, carry_mid) = split(limb_product(self.mid, m) + carry_lo);
        let (hi, carry_hi) = split(limb_product(self.hi, m) + carry_mid);
        assert(self@ * m == self.lo as nat * m as nat + self.mid as nat * m as nat * limb_base()
            + self.hi as nat * m as nat * limb_square()) by (nonlinear_arith)
            requires
                self@ == self.lo as nat + self.mid as nat * limb_base() + self.hi as nat
                    * limb_square(),
        ;
        if carry_hi == 0 {
            Some(U192 { lo, mid, hi })
        } else {
            None
        }
    }

    /// The value times two to the power 64, unless it needs more than 192 bits.
    pub fn checked_shift_limb(self) -> (r: Option<U192>)
        ensures
            self@ * limb_base() < limit() ==> r is Some && r->0@ == self@ * limb_base(),
            self@ * limb_base() >= limit() ==> r is None,
    {
        if self.hi == 0 {
            Some(U192 { lo: 0, mid: self.lo, hi: self.mid })
        } else {
            None
        }
    }

    /// The product, unless it needs more than 192 bits.
    pub fn checked_mul(self, rhs: U192) -> (r: Option<U192>)
        ensures
            self@ * rhs@ < limit() ==> r is Some && r->0@ == self@ * rhs@,
            self@ * rhs@ >= limit() ==> r is None,
    {
        proof {
            lemma_product_by_limbs(self@, rhs);
        }
        let low = match self.checked_mul_u64(rhs.lo) {
            Some(p) => p,
            None => {
                return None;
            },
        };
        let middle = match self.checked_mul_u64(rhs.mid) {
            Some(p) => match p.checked_shift_limb() {
                Some(s) => s,
                None => {
                    return None;
                },
            },
            None => {
                return None;
            },
        };
        let high = match self.checked_mul_u64(rhs.hi) {
            Some(p) => match p.checked_shift_limb() {
                Some(s) => match s.checked_shift_limb() {
                    Some(t) => t,
                    None => {
                        return None;
                    },
                },
                None => {
                    return None;
                },
            },
            None => {
                return None;
            },
        };
        match low.checked_add(middle) {
            Some(s) => s.checked_add(high),
            None => None,
        }
    }

    /// Quotient and remainder of the division by a single non-zero limb.
    pub fn div_rem_u64(self, d: u64) -> (r: (U192, u64))
        requires
            d > 0,
        ensures
            r.0@ == self@ / (d as nat),
            r.1 as nat == self@ % (d as nat),
    {
        let wide_d: u128 = d as u128;
        let q_hi: u64 = self.hi / d;
        let r_hi: u64 = self.hi % d;
        let cur_mid: u128 = (r_hi as u128) * LIMB_BASE + self.mid as u128;
        let q_mid: u128 = cur_mid / wide_d;
        let r_mid: u128 = cur_mid % wide_d;
        let cur_lo: u128 = r_mid * LIMB_BASE + self.lo as u128;
        let q_lo: u128 = cur_lo / wide_d;
        let r_lo: u128 = cur_lo % wide_d;
        proof {
            lemma_fundamental_div_mod(self.hi as int, d as int);
            lemma_fundamental_div_mod(cur_mid as int, d as int);
            lemma_fundamental_div_mod(cur_lo as int, d as int);
            lemma_quotient_below(cur_mid as int, d as int, limb_base() as int);
            lemma_quotient_below(cur_lo as int, d as int, limb_base() as int);
        }
        let q = U192 { lo: q_lo as u64, mid: q_mid as u64, hi: q_hi };
        proof {
            assert(self@ == q@ * d + r_lo) by (nonlinear_arith)
                requires
                    self@ == self.lo + self.mid * limb_base() + self.hi * limb_square(),
                    q@ == q_lo + q_mid * limb_base() + q_hi * limb_square(),
                    self.hi == d * q_hi + r_hi,
                    cur_mid == d * q_mid + r_mid,
                    cur_lo == d * q_lo + r_lo,
                    cur_mid == r_hi * limb_base() + self.mid,
                    cur_lo == r_mid * limb_base() + self.lo,
            ;
            lemma_fundamental_div_mod_converse(self@ as int, d as int, q@ as int, r_lo as int);
        }
        (q, r_lo as u64)
    }

    /// Quotient and remainder of the division by a non-zero value.
    ///
    /// The divisor is doubled until it passes the dividend; the quotient is
    /// then assembled bit by bit on the way back.
    pub fn div_rem(self, d: U192) -> (r: (U192, U192))
        requires
            d@ > 0,
        ensures
            r.0@ == self@ / d@,
            r.1@ == self@ % d@,
        decreases limit() - d@,
    {
        if self.lt(d) {
            proof {
                lemma_fundamental_div_mod_converse(self@ as int, d@ as int, 0, self@ as int);
            }
            return (U192::zero(), self);
        }
        match d.checked_add(d) {
            None => {
                let rest = self.checked_sub(d).unwrap();
                proof {
                    lemma_fundamental_div_mod_converse(self@ as int, d@ as int, 1, rest@ as int);
                }
                (U192::from_u64(1), rest)
            },
            Some(twice) => {
                let (half_q, big_rest) = self.div_rem(twice);
                proof {
                    lemma_fundamental_div_mod(self@ as int, twice@ as int);
                    assert(self@ == (2 * half_q@) * d@ + big_rest@ && 2 * half_q@ <= self@)
                        by (nonlinear_arith)
                        requires
                            self@ == twice@ * half_q@ + big_rest@,
                            twice@ == d@ + d@,
                            d@ > 0,
                    ;
                }
                let even_q = half_q.checked_add(half_q).unwrap();
                if big_rest.lt(d) {
                    proof {
                        lemma_fundamental_div_mod_converse(
                            self@ as int,
                            d@ as int,
                            even_q@ as int,
                            big_rest@ as int,
                        );
                    }
                    (even_q, big_rest)
                } else {
                    let rest = big_rest.checked_sub(d).unwrap();
                    proof {
                        assert(self@ == (even_q@ + 1) * d@ + rest@ && even_q@ + 1 <= self@)
                            by (nonlinear_arith)
                            requires
                                self@ == even_q@ * d@ + big_rest@,
                                rest@ == big_rest@ - d@,
                                big_rest@ >= d@,
                                d@ > 0,
                        ;
                    }
                    let odd_q = even_q.checked_add(U192::from_u64(1)).unwrap();
                    proof {
                        lemma_fundamental_div_mod_converse(
                            self@ as int,
                            d@ as int,
                            odd_q@ as int,
                            rest@ as int,
                        );
                    }
                    (odd_q, rest)
                }
            },
        }
    }
}

/// A product with a three-limb value is the sum of the products with its limbs,
/// each at the weight of its limb.
proof fn lemma_product_by_limbs(a: nat, b: U192)
    ensures
        a * b@ == a * b.lo + (a * b.mid) * limb_base() + ((a * b.hi) * limb_base()) * limb_base(),
        a * b.lo >= 0,
        a * b.mid >= 0,
        a * b.hi >= 0,
{
    assert(a * b@ == a * b.lo + (a * b.mid) * limb_base() + ((a * b.hi) * limb_base())
        * limb_base()) by (nonlinear_arith)
        requires
            b@ == b.lo + b.mid * limb_base() + b.hi * limb_square(),
    ;
    assert(a * b.lo >= 0 && a * b.mid >= 0 && a * b.hi >= 0) by (nonlinear_arith);
}

/// A dividend below `d * bound` has a quotient below `bound`.
proof fn lemma_quotient_below(x: int, d: int, bound: int)
    requires
        0 <= x,
        0 < d,
        x < d * bound,
    ensures
        0 <= x / d < bound,
        0 <= x % d < d,
{
    lemma_fundamental_div_mod(x, d);
    assert(0 <= x / d < bound) by (nonlinear_arith)
        requires
            x == d * (x / d) + x % d,
            0 <= x % d < d,
            0 <= x,
            0 < d,
            x < d * bound,
    ;
}

} // verus!
