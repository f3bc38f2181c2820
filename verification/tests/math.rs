use token_lending::decimal::{Decimal, HALF_WAD, PERCENT_SCALER, WAD};
use token_lending::error::LendingError;
use token_lending::rate::Rate;
use token_lending::wide::U192;

fn wide(x: u128) -> U192 {
    U192::from_u128(x)
}

#[test]
fn wide_from_and_back() {
    assert_eq!(U192::zero().to_u64(), Some(0));
    assert_eq!(U192::from_u64(7).to_u64(), Some(7));
    assert_eq!(wide(u128::MAX).to_u128(), Some(u128::MAX));
    assert_eq!(wide(u128::MAX).to_u64(), None);
    assert_eq!(wide(1 << 64), U192 { lo: 0, mid: 1, hi: 0 });
    assert_eq!(U192 { lo: 0, mid: 0, hi: 1 }.to_u128(), None);
    assert!(U192::zero().is_zero());
    assert!(!wide(1 << 100).is_zero());
}

#[test]
fn wide_order() {
    let small = U192 { lo: u64::MAX, mid: u64::MAX, hi: 0 };
    let large = U192 { lo: 0, mid: 0, hi: 1 };
    assert!(small.lt(large));
    assert!(!large.lt(small));
    assert!(!small.lt(small));
    assert!(small.le(small));
    assert!(U192 { lo: 1, mid: 2, hi: 3 }.lt(U192 { lo: 0, mid: 3, hi: 3 }));
}

#[test]
fn wide_add_carries_through_the_limbs() {
    let a = U192 { lo: u64::MAX, mid: u64::MAX, hi: 0 };
    assert_eq!(a.checked_add(U192::from_u64(1)), Some(U192 { lo: 0, mid: 0, hi: 1 }));
    let top = U192 { lo: u64::MAX, mid: u64::MAX, hi: u64::MAX };
    assert_eq!(top.checked_add(U192::from_u64(1)), None);
    assert_eq!(top.checked_add(U192::zero()), Some(top));
}

#[test]
fn wide_sub_borrows_through_the_limbs() {
    let a = U192 { lo: 0, mid: 0, hi: 1 };
    assert_eq!(
        a.checked_sub(U192::from_u64(1)),
        Some(U192 { lo: u64::MAX, mid: u64::MAX, hi: 0 })
    );
    assert_eq!(U192::from_u64(1).checked_sub(a), None);
    assert_eq!(a.checked_sub(a), Some(U192::zero()));
    assert_eq!(wide(1000).checked_sub(wide(1)).unwrap().to_u64(), Some(999));
}

#[test]
fn wide_mul_matches_native_arithmetic() {
    let a: u128 = 0xdead_beef_1234_5678;
    let b: u128 = 0x0fed_cba9_8765_4321;
    assert_eq!(wide(a).checked_mul(wide(b)).unwrap().to_u128(), Some(a * b));
    assert_eq!(wide(a).checked_mul_u64(b as u64).unwrap().to_u128(), Some(a * b));
    assert_eq!(
        wide(1 << 64).checked_mul(wide(1 << 64)),
        Some(U192 { lo: 0, mid: 0, hi: 1 })
    );
    assert_eq!(
        wide(1 << 100).checked_mul(wide(1 << 91)),
        Some(U192 { lo: 0, mid: 0, hi: 1 << 63 })
    );
}

#[test]
fn wide_mul_overflow_is_reported() {
    assert_eq!(wide(1 << 100).checked_mul(wide(1 << 92)), None);
    assert_eq!(wide(u128::MAX).checked_mul(wide(u128::MAX)), None);
    assert_eq!(U192 { lo: 0, mid: 0, hi: 1 }.checked_mul_u64(u64::MAX).is_some(), true);
    assert_eq!(U192 { lo: 0, mid: 0, hi: 2 }.checked_mul_u64(u64::MAX), None);
    assert_eq!(U192 { lo: 0, mid: 0, hi: 1 }.checked_shift_limb(), None);
    assert_eq!(
        U192 { lo: 5, mid: 6, hi: 0 }.checked_shift_limb(),
        Some(U192 { lo: 0, mid: 5, hi: 6 })
    );
}

#[test]
fn wide_division_matches_native_arithmetic() {
    let cases: [(u128, u128); 6] = [
        (0, 1),
        (17, 5),
        (u128::MAX, 3),
        (u128::MAX, u128::MAX),
        (1 << 100, (1 << 64) + 1),
        (123_456_789_012_345_678_901_234_567_890, 987_654_321_987_654_321),
    ];
    for (a, b) in cases {
        let (q, r) = wide(a).div_rem(wide(b));
        assert_eq!(q.to_u128(), Some(a / b));
        assert_eq!(r.to_u128(), Some(a % b));
    }
    let (q, r) = wide(u128::MAX).div_rem_u64(1_000_000_007);
    assert_eq!(q.to_u128(), Some(u128::MAX / 1_000_000_007));
    assert_eq!(r as u128, u128::MAX % 1_000_000_007);
}

#[test]
fn wide_division_beyond_128_bits() {
    // (2^128 * 6 + 5) / (2^64 * 3) = 2^65, remainder 5
    let a = U192 { lo: 5, mid: 0, hi: 6 };
    let b = U192 { lo: 0, mid: 3, hi: 0 };
    let (q, r) = a.div_rem(b);
    assert_eq!(q, U192 { lo: 0, mid: 2, hi: 0 });
    assert_eq!(r, U192::from_u64(5));
    let top = U192 { lo: u64::MAX, mid: u64::MAX, hi: u64::MAX };
    let (q, r) = top.div_rem(top);
    assert_eq!(q, U192::from_u64(1));
    assert_eq!(r, U192::zero());
    let (q, r) = top.div_rem(U192 { lo: 0, mid: 0, hi: 1 << 63 });
    assert_eq!(q, U192::from_u64(1));
    assert_eq!(r, U192 { lo: u64::MAX, mid: u64::MAX, hi: (1 << 63) - 1 });
    let (q, r) = top.div_rem_u64(u64::MAX);
    assert_eq!(q, U192 { lo: 1, mid: 1, hi: 1 });
    assert_eq!(r, 0);
}

#[test]
fn decimal_scaling() {
    assert_eq!(Decimal::zero().to_scaled_val(), Ok(0));
    assert_eq!(Decimal::one().to_scaled_val(), Ok(WAD as u128));
    assert_eq!(Decimal::from_u64(3).to_scaled_val(), Ok(3 * WAD as u128));
    assert_eq!(Decimal::from_percent(50).to_scaled_val(), Ok(HALF_WAD as u128));
    assert_eq!(Decimal::from_percent(1).to_scaled_val(), Ok(PERCENT_SCALER as u128));
    assert_eq!(Decimal::from_scaled_val(42).to_scaled_val(), Ok(42));
    assert_eq!(
        Decimal::from_u64(u64::MAX).to_scaled_val(),
        Ok(u64::MAX as u128 * WAD as u128)
    );
    assert_eq!(
        Decimal::try_from_u128(1 << 100).unwrap(),
        Decimal::from_scaled_val(1 << 100).try_mul_u64(WAD).unwrap()
    );
    assert_eq!(
        Decimal::try_from_u128(1 << 100).unwrap().to_scaled_val(),
        Err(LendingError::MathOverflow)
    );
    assert_eq!(Decimal::from_rate(Rate::from_percent(7)), Decimal::from_percent(7));
}

#[test]
fn decimal_add_and_sub() {
    let a = Decimal::from_scaled_val(1_500_000_000_000_000_000);
    let b = Decimal::from_scaled_val(2_250_000_000_000_000_000);
    assert_eq!(a.try_add(b), Ok(Decimal::from_scaled_val(3_750_000_000_000_000_000)));
    assert_eq!(b.try_sub(a), Ok(Decimal::from_scaled_val(750_000_000_000_000_000)));
    assert_eq!(a.try_sub(a), Ok(Decimal::zero()));
    assert_eq!(a.try_sub(b), Err(LendingError::MathUnderflow));
    let top = Decimal(U192 { lo: u64::MAX, mid: u64::MAX, hi: u64::MAX });
    assert_eq!(top.try_add(Decimal::from_scaled_val(1)), Err(LendingError::MathOverflow));
}

#[test]
fn decimal_mul_rounds_down() {
    let a = Decimal::from_scaled_val(1_500_000_000_000_000_000);
    let b = Decimal::from_scaled_val(2_500_000_000_000_000_000);
    assert_eq!(a.try_mul(b), Ok(Decimal::from_scaled_val(3_750_000_000_000_000_000)));
    let third = Decimal::from_scaled_val(333_333_333_333_333_333);
    assert_eq!(
        third.try_mul(third),
        Ok(Decimal::from_scaled_val(111_111_111_111_111_110))
    );
    assert_eq!(a.try_mul_u64(3), Ok(Decimal::from_scaled_val(4_500_000_000_000_000_000)));
    assert_eq!(
        a.try_mul_rate(Rate::from_percent(50)),
        Ok(Decimal::from_scaled_val(750_000_000_000_000_000))
    );
    assert_eq!(Decimal::from_scaled_val(1).try_mul(Decimal::from_percent(99)), Ok(Decimal::zero()));
}

#[test]
fn decimal_mul_uses_192_bits() {
    // 2^100 * 2^80 = 2^180 fits in 192 bits although it leaves 128 bits.
    let a = Decimal::from_scaled_val(1 << 100);
    let b = Decimal::from_scaled_val(1 << 80);
    assert_eq!(
        a.try_mul(b),
        Ok(Decimal::from_scaled_val(1532495540865888858358347027150309183))
    );
    // 2^100 * 2^92 = 2^192 does not.
    let c = Decimal::from_scaled_val(1 << 92);
    assert_eq!(a.try_mul(c), Err(LendingError::MathOverflow));
    assert_eq!(
        Decimal::from_scaled_val(u128::MAX).try_mul(Decimal::from_scaled_val(u128::MAX)),
        Err(LendingError::MathOverflow)
    );
    assert_eq!(
        Decimal::from_scaled_val(u128::MAX).try_mul_u64(u64::MAX).is_ok(),
        true
    );
    assert_eq!(
        Decimal::from_scaled_val(u128::MAX)
            .try_mul_u64(u64::MAX)
            .unwrap()
            .try_mul_u64(2),
        Err(LendingError::MathOverflow)
    );
}

#[test]
fn decimal_div_rounds_down() {
    let one = Decimal::one();
    let three = Decimal::from_u64(3);
    assert_eq!(one.try_div(three), Ok(Decimal::from_scaled_val(333_333_333_333_333_333)));
    assert_eq!(three.try_div(one), Ok(three));
    assert_eq!(three.try_div_u64(2), Ok(Decimal::from_scaled_val(1_500_000_000_000_000_000)));
    assert_eq!(
        three.try_div_rate(Rate::from_percent(50)),
        Ok(Decimal::from_u64(6))
    );
    assert_eq!(one.try_div(Decimal::zero()), Err(LendingError::MathOverflow));
    assert_eq!(one.try_div_u64(0), Err(LendingError::MathOverflow));
    assert_eq!(one.try_div_rate(Rate::zero()), Err(LendingError::MathOverflow));
    // The dividend times the scale must fit in 192 bits.
    let large = Decimal(U192 { lo: 0, mid: 0, hi: 1 << 40 });
    assert_eq!(large.try_div(one), Err(LendingError::MathOverflow));
}

#[test]
fn dividing_and_multiplying_back_loses_little() {
    let one = Decimal::one();
    let three = Decimal::from_u64(3);
    let back = one.try_div(three).unwrap().try_mul(three).unwrap();
    assert_eq!(back, Decimal::from_scaled_val(999_999_999_999_999_999));
    assert_eq!(one.try_sub(back), Ok(Decimal::from_scaled_val(1)));

    // With a divisor of at most one, at most one smallest unit is lost.
    let a = Decimal::from_scaled_val(123_456_789_123_456_789_123);
    let b = Decimal::from_scaled_val(700_000_000_000_000_001);
    let back = a.try_div(b).unwrap().try_mul(b).unwrap();
    assert!(back.le(a));
    assert!(a.try_sub(back).unwrap().le(Decimal::from_scaled_val(1)));

    // With a divisor of three, five smallest units come back as three.
    let five = Decimal::from_scaled_val(5);
    let back = five.try_div(three).unwrap().try_mul(three).unwrap();
    assert_eq!(back, Decimal::from_scaled_val(3));
}

#[test]
fn decimal_rounding_to_integers() {
    let x = Decimal::from_scaled_val(1_500_000_000_000_000_000);
    assert_eq!(x.try_floor_u64(), Ok(1));
    assert_eq!(x.try_round_u64(), Ok(2));
    assert_eq!(x.try_ceil_u64(), Ok(2));
    let y = Decimal::from_scaled_val(1_499_999_999_999_999_999);
    assert_eq!(y.try_round_u64(), Ok(1));
    let z = Decimal::from_scaled_val(1_000_000_000_000_000_001);
    assert_eq!(z.try_floor_u64(), Ok(1));
    assert_eq!(z.try_ceil_u64(), Ok(2));
    assert_eq!(Decimal::from_u64(7).try_ceil_u64(), Ok(7));
    assert_eq!(Decimal::zero().try_ceil_u64(), Ok(0));
    assert_eq!(Decimal::from_u64(u64::MAX).try_floor_u64(), Ok(u64::MAX));
    let beyond = Decimal::from_u64(u64::MAX).try_add(Decimal::one()).unwrap();
    assert_eq!(beyond.try_floor_u64(), Err(LendingError::MathOverflow));
    assert_eq!(beyond.try_round_u64(), Err(LendingError::MathOverflow));
    assert_eq!(beyond.try_ceil_u64(), Err(LendingError::MathOverflow));
    let top = Decimal(U192 { lo: u64::MAX, mid: u64::MAX, hi: u64::MAX });
    assert_eq!(top.try_ceil_u64(), Err(LendingError::MathOverflow));
    assert_eq!(top.try_round_u64(), Err(LendingError::MathOverflow));
}

#[test]
fn decimal_order() {
    let a = Decimal::from_u64(1);
    let b = Decimal::from_u64(2);
    assert!(a.lt(b));
    assert!(a.le(a));
    assert!(!b.le(a));
    assert_eq!(a.min(b), a);
    assert_eq!(a.max(b), b);
    assert!(Decimal::zero().is_zero());
    assert!(!a.is_zero());
}

#[test]
fn decimal_text() {
    assert_eq!(Decimal::zero().to_string(), "0.000000000000000000");
    assert_eq!(Decimal::one().to_string(), "1.000000000000000000");
    assert_eq!(Decimal::from_scaled_val(1).to_string(), "0.000000000000000001");
    assert_eq!(
        Decimal::from_scaled_val(12_345_678_900_000_000_000_000).to_string(),
        "12345.678900000000000000"
    );
    assert_eq!(
        Decimal::from_u64(u64::MAX).to_string(),
        "18446744073709551615.000000000000000000"
    );
    assert_eq!(
        Decimal(U192 { lo: u64::MAX, mid: u64::MAX, hi: u64::MAX }).to_string(),
        "6277101735386680763835789423207666416102.355444464034512895"
    );
    assert_eq!(Rate::from_percent(5).to_string(), "0.050000000000000000");
}

#[test]
fn rate_arithmetic() {
    let half = Rate::from_percent(50);
    assert_eq!(half.to_scaled_val(), HALF_WAD as u128);
    assert_eq!(Rate::one().to_scaled_val(), WAD as u128);
    assert_eq!(Rate::from_scaled_val(5).to_scaled_val(), 5);
    assert_eq!(half.try_add(half), Ok(Rate::one()));
    assert_eq!(half.try_sub(Rate::one()), Err(LendingError::MathUnderflow));
    assert_eq!(Rate::one().try_sub(half), Ok(half));
    assert_eq!(half.try_mul(half), Ok(Rate::from_percent(25)));
    assert_eq!(half.try_mul_u64(3), Ok(Rate(1_500_000_000_000_000_000)));
    assert_eq!(half.try_div(Rate::from_percent(25)), Ok(Rate(2_000_000_000_000_000_000)));
    assert_eq!(half.try_div_u64(4), Ok(Rate(125_000_000_000_000_000)));
    assert_eq!(half.try_div(Rate::zero()), Err(LendingError::MathOverflow));
    assert_eq!(half.try_div_u64(0), Err(LendingError::MathOverflow));
    assert_eq!(Rate(u128::MAX).try_add(Rate(1)), Err(LendingError::MathOverflow));
    assert_eq!(Rate(u128::MAX).try_mul(Rate(2)), Err(LendingError::MathOverflow));
    assert_eq!(Rate(u128::MAX).try_mul_u64(2), Err(LendingError::MathOverflow));
    assert_eq!(Rate(u128::MAX).try_div(Rate(1)), Err(LendingError::MathOverflow));
    assert_eq!(half.try_round_u64(), Ok(1));
    assert_eq!(Rate::from_percent(49).try_round_u64(), Ok(0));
    assert_eq!(Rate(u128::MAX).try_round_u64(), Err(LendingError::MathOverflow));
    assert!(half.lt(Rate::one()));
    assert!(half.le(half));
    assert!(Rate::zero().is_zero());
}

#[test]
fn rate_from_decimal() {
    assert_eq!(Rate::try_from_decimal(Decimal::from_percent(7)), Ok(Rate::from_percent(7)));
    assert_eq!(
        Rate::try_from_decimal(Decimal(U192 { lo: 0, mid: 0, hi: 1 })),
        Err(LendingError::MathOverflow)
    );
}

#[test]
fn rate_powers() {
    let base = Rate(1_100_000_000_000_000_000);
    assert_eq!(base.try_pow(0), Ok(Rate::one()));
    assert_eq!(base.try_pow(1), Ok(base));
    assert_eq!(base.try_pow(2), Ok(Rate(1_210_000_000_000_000_000)));
    assert_eq!(base.try_pow(3), Ok(Rate(1_331_000_000_000_000_000)));
    assert_eq!(
        Rate(1_000_000_001_000_000_000).try_pow(5),
        Ok(Rate(1_000_000_005_000_000_010))
    );
    assert_eq!(
        Rate(1_000_000_004_756_468_797).try_pow(63_072_000),
        Ok(Rate(1_349_858_806_507_944_813))
    );
    assert_eq!(Rate::from_percent(50).try_pow(2), Ok(Rate::from_percent(25)));
    assert_eq!(
        Rate(10_000_000_000_000_000_000).try_pow(64),
        Err(LendingError::MathOverflow)
    );
    // The base is squared only while bits of the exponent remain.
    assert_eq!(
        Rate(10_000_000_000_000_000_000_000_000_000).try_pow(1),
        Ok(Rate(10_000_000_000_000_000_000_000_000_000))
    );
}
