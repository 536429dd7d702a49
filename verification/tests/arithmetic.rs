//! Arithmetic on ranged integers, held against wide integers.

use deranged::{
    RangedI128, RangedI16, RangedI32, RangedI64, RangedI8, RangedIsize, RangedU128, RangedU16,
    RangedU32, RangedU64, RangedU8, RangedUsize,
};

fn signed(v: i32) -> RangedI8<251, 5> {
    RangedI8::new(v as i8).unwrap()
}

fn unsigned(v: i32) -> RangedU8<3, 20> {
    RangedU8::new(v as u8).unwrap()
}

/// The value of `-5..=5` that an integer is, if it is one.
fn signed_if(v: i32) -> Option<i8> {
    if (-5..=5).contains(&v) {
        Some(v as i8)
    } else {
        None
    }
}

/// The value of `3..=20` that an integer is, if it is one.
fn unsigned_if(v: i32) -> Option<u8> {
    if (3..=20).contains(&v) {
        Some(v as u8)
    } else {
        None
    }
}

fn wrapped(lo: i32, hi: i32, v: i32) -> i32 {
    (v - lo).rem_euclid(hi - lo + 1) + lo
}

#[test]
fn checked_signed_arithmetic() {
    for v in -5..=5 {
        for rhs in -128..=127 {
            let x = signed(v);
            let r = rhs as i8;
            assert_eq!(x.checked_add(r).map(|y| y.get()), signed_if(v + rhs));
            assert_eq!(x.checked_sub(r).map(|y| y.get()), signed_if(v - rhs));
            assert_eq!(x.checked_mul(r).map(|y| y.get()), signed_if(v * rhs));
            if rhs == 0 {
                assert!(x.checked_div(r).is_none());
                assert!(x.checked_div_euclid(r).is_none());
                assert!(x.checked_rem(r).is_none());
                assert!(x.checked_rem_euclid(r).is_none());
            } else {
                assert_eq!(x.checked_div(r).map(|y| y.get()), signed_if(v / rhs));
                assert_eq!(x.checked_div_euclid(r).map(|y| y.get()), signed_if(v.div_euclid(rhs)));
                assert_eq!(x.checked_rem(r).map(|y| y.get()), signed_if(v % rhs));
                assert_eq!(x.checked_rem_euclid(r).map(|y| y.get()), signed_if(v.rem_euclid(rhs)));
            }
        }
    }
}

#[test]
fn checked_unsigned_arithmetic() {
    for v in 3..=20 {
        for rhs in 0..=255 {
            let x = unsigned(v);
            let r = rhs as u8;
            assert_eq!(x.checked_add(r).map(|y| y.get()), unsigned_if(v + rhs));
            assert_eq!(x.checked_sub(r).map(|y| y.get()), unsigned_if(v - rhs));
            assert_eq!(x.checked_mul(r).map(|y| y.get()), unsigned_if(v * rhs));
            if rhs == 0 {
                assert!(x.checked_div(r).is_none());
                assert!(x.checked_div_euclid(r).is_none());
                assert!(x.checked_rem(r).is_none());
                assert!(x.checked_rem_euclid(r).is_none());
            } else {
                assert_eq!(x.checked_div(r).map(|y| y.get()), unsigned_if(v / rhs));
                assert_eq!(x.checked_div_euclid(r).map(|y| y.get()), unsigned_if(v / rhs));
                assert_eq!(x.checked_rem(r).map(|y| y.get()), unsigned_if(v % rhs));
                assert_eq!(x.checked_rem_euclid(r).map(|y| y.get()), unsigned_if(v % rhs));
            }
        }
    }
}

#[test]
fn unchecked_agrees_with_checked() {
    for v in -5..=5 {
        for rhs in -128..=127 {
            let x = signed(v);
            let r = rhs as i8;
            if let Some(y) = x.checked_add(r) {
                assert!(x.unchecked_add(r) == y);
            }
            if let Some(y) = x.checked_sub(r) {
                assert!(x.unchecked_sub(r) == y);
            }
            if let Some(y) = x.checked_mul(r) {
                assert!(x.unchecked_mul(r) == y);
            }
            if let Some(y) = x.checked_div(r) {
                assert!(x.unchecked_div(r) == y);
            }
            if let Some(y) = x.checked_div_euclid(r) {
                assert!(x.unchecked_div_euclid(r) == y);
            }
            if let Some(y) = x.checked_rem(r) {
                assert!(x.unchecked_rem(r) == y);
            }
            if let Some(y) = x.checked_rem_euclid(r) {
                assert!(x.unchecked_rem_euclid(r) == y);
            }
        }
        for n in 0..8 {
            if let Some(y) = signed(v).checked_shl(n) {
                assert!(signed(v).unchecked_shl(n) == y);
            }
            if let Some(y) = signed(v).checked_shr(n) {
                assert!(signed(v).unchecked_shr(n) == y);
            }
            if let Some(y) = signed(v).checked_pow(n) {
                assert!(signed(v).unchecked_pow(n) == y);
            }
        }
        assert!(signed(v).unchecked_neg() == signed(v).checked_neg().unwrap());
        assert!(signed(v).unchecked_abs() == signed(v).checked_abs().unwrap());
    }
    for v in 3..=20 {
        for r in 0..=255u8 {
            let x = unsigned(v);
            if let Some(y) = x.checked_add(r) {
                assert!(x.unchecked_add(r) == y);
            }
            if let Some(y) = x.checked_sub(r) {
                assert!(x.unchecked_sub(r) == y);
            }
            if let Some(y) = x.checked_mul(r) {
                assert!(x.unchecked_mul(r) == y);
            }
            if let Some(y) = x.checked_div(r) {
                assert!(x.unchecked_div(r) == y);
                assert!(x.unchecked_div_euclid(r) == y);
            }
            if let Some(y) = x.checked_rem(r) {
                assert!(x.unchecked_rem(r) == y);
                assert!(x.unchecked_rem_euclid(r) == y);
            }
        }
    }
}

#[test]
fn remainder_of_the_least_word_by_minus_one_overflows() {
    let least = RangedI8::<128, 127>::new(-128).unwrap();
    assert!(least.checked_rem(-1).is_none());
    assert!(least.checked_rem_euclid(-1).is_none());
    assert!(least.checked_div(-1).is_none());
    assert!(least.checked_div_euclid(-1).is_none());
    assert!(matches!(least.checked_div(2), Some(x) if x.get() == -64));
}

#[test]
fn saturating_signed_arithmetic() {
    for v in -5i32..=5 {
        for rhs in -128..=127 {
            let x = signed(v);
            let r = rhs as i8;
            assert_eq!(x.saturating_add(r).get() as i32, (v + rhs).clamp(-5, 5));
            assert_eq!(x.saturating_sub(r).get() as i32, (v - rhs).clamp(-5, 5));
            assert_eq!(x.saturating_mul(r).get() as i32, (v * rhs).clamp(-5, 5));
        }
        for exp in 0..12 {
            assert_eq!(signed(v).saturating_pow(exp).get() as i32, v.pow(exp).clamp(-5, 5));
        }
        assert_eq!(signed(v).saturating_neg().get() as i32, -v);
        assert_eq!(signed(v).saturating_abs().get() as i32, v.abs());
    }
}

#[test]
fn saturating_unsigned_arithmetic() {
    for v in 3i32..=20 {
        for rhs in 0..=255 {
            let x = unsigned(v);
            let r = rhs as u8;
            assert_eq!(x.saturating_add(r).get() as i32, (v + rhs).clamp(3, 20));
            assert_eq!(x.saturating_sub(r).get() as i32, (v - rhs).clamp(3, 20));
            assert_eq!(x.saturating_mul(r).get() as i32, (v * rhs).clamp(3, 20));
        }
        for exp in 0..7 {
            assert_eq!(unsigned(v).saturating_pow(exp).get() as i32, v.pow(exp).clamp(3, 20));
        }
    }
}

#[test]
fn saturating_at_the_ends_of_the_word() {
    let least = RangedI8::<128, 127>::new(-128).unwrap();
    assert_eq!(least.saturating_neg().get(), 127);
    assert_eq!(least.saturating_abs().get(), 127);
    assert_eq!(least.saturating_add(-128).get(), -128);
    assert_eq!(least.saturating_sub(127).get(), -128);
    assert_eq!(least.saturating_mul(-128).get(), 127);
    assert_eq!(least.saturating_mul(127).get(), -128);
    assert_eq!(least.saturating_pow(2).get(), 127);
    assert_eq!(least.saturating_pow(3).get(), -128);
    let low = RangedI8::<128, 251>::new(-128).unwrap();
    assert_eq!(low.saturating_neg().get(), -5);
    assert_eq!(low.saturating_abs().get(), -5);
    let wide = RangedI128::<170141183460469231731687303715884105728, 0>::new(i128::MIN).unwrap();
    assert_eq!(wide.saturating_pow(3).get(), i128::MIN);
    assert_eq!(wide.saturating_pow(2).get(), 0);
    assert_eq!(wide.saturating_sub(1).get(), i128::MIN);
}

#[test]
fn wrapping_signed_arithmetic() {
    for v in -5..=5 {
        for rhs in -128..=127 {
            let r = rhs as i8;
            assert_eq!(signed(v).wrapping_add(r).get() as i32, wrapped(-5, 5, v + rhs));
            assert_eq!(signed(v).wrapping_sub(r).get() as i32, wrapped(-5, 5, v - rhs));
        }
    }
}

#[test]
fn wrapping_unsigned_arithmetic() {
    for v in 3..=20 {
        for rhs in 0..=255 {
            let r = rhs as u8;
            assert_eq!(unsigned(v).wrapping_add(r).get() as i32, wrapped(3, 20, v + rhs));
            assert_eq!(unsigned(v).wrapping_sub(r).get() as i32, wrapped(3, 20, v - rhs));
        }
    }
}

#[test]
fn wrapping_in_nearly_the_whole_word() {
    for v in -128..=126i32 {
        for rhs in -128..=127 {
            let x = RangedI8::<128, 126>::new(v as i8).unwrap();
            assert_eq!(x.wrapping_add(rhs as i8).get() as i32, wrapped(-128, 126, v + rhs));
            assert_eq!(x.wrapping_sub(rhs as i8).get() as i32, wrapped(-128, 126, v - rhs));
        }
    }
    for v in -127..=127i32 {
        for rhs in -128..=127 {
            let x = RangedI8::<129, 127>::new(v as i8).unwrap();
            assert_eq!(x.wrapping_add(rhs as i8).get() as i32, wrapped(-127, 127, v + rhs));
            assert_eq!(x.wrapping_sub(rhs as i8).get() as i32, wrapped(-127, 127, v - rhs));
        }
    }
}

#[test]
fn wrapping_in_the_whole_word() {
    for v in 0..=255u8 {
        for rhs in 0..=255u8 {
            let x = RangedU8::<0, 255>::new(v).unwrap();
            assert_eq!(x.wrapping_add(rhs).get(), v.wrapping_add(rhs));
            assert_eq!(x.wrapping_sub(rhs).get(), v.wrapping_sub(rhs));
        }
    }
    let x = RangedI8::<128, 127>::new(127).unwrap();
    assert_eq!(x.wrapping_add(1).get(), -128);
    let x = RangedI8::<128, 127>::new(-128).unwrap();
    assert_eq!(x.wrapping_sub(1).get(), 127);
}

#[test]
fn wrapping_in_wide_words() {
    let x = RangedU128::<1, 340282366920938463463374607431768211455>::new(u128::MAX).unwrap();
    assert_eq!(x.wrapping_add(1).get(), 1);
    assert_eq!(x.wrapping_add(u128::MAX).get(), u128::MAX);
    let x = RangedI128::<170141183460469231731687303715884105729, 5>::new(5).unwrap();
    assert_eq!(x.wrapping_add(1).get(), -i128::MAX);
    assert_eq!(x.wrapping_sub(i128::MIN).get(), 0);
    let x = RangedUsize::<10, 20>::new(15).unwrap();
    assert_eq!(x.wrapping_add(17).get(), 10);
    assert_eq!(x.wrapping_sub(17).get(), 20);
    let x = RangedIsize::<18446744073709551606, 20>::new(15).unwrap();
    assert_eq!(x.wrapping_add(7).get(), -9);
    assert_eq!(x.wrapping_sub(26).get(), 20);
    let x = RangedU64::<0, 6>::new(6).unwrap();
    assert_eq!(x.wrapping_add(u64::MAX).get(), 0);
    let x = RangedI64::<18446744073709551615, 1>::new(1).unwrap();
    assert_eq!(x.wrapping_add(i64::MIN).get(), -1);
    let x = RangedU32::<5, 10>::new(9).unwrap();
    assert_eq!(x.wrapping_add(3).get(), 6);
    let x = RangedI32::<4294967291, 5>::new(-5).unwrap();
    assert_eq!(x.wrapping_sub(1).get(), 5);
}

#[test]
fn negation() {
    for v in -5..=5 {
        assert_eq!(signed(v).neg().get() as i32, -v);
        assert_eq!(signed(v).abs().get() as i32, v.abs());
        assert_eq!(signed(v).is_positive(), v > 0);
        assert_eq!(signed(v).is_negative(), v < 0);
    }
    assert!(RangedI8::<128, 127>::new(-128).unwrap().checked_neg().is_none());
    assert!(RangedI8::<128, 127>::new(-128).unwrap().checked_abs().is_none());
    assert!(RangedI8::<251, 3>::new(-5).unwrap().checked_neg().is_none());
    assert!(RangedI8::<251, 3>::new(-5).unwrap().checked_abs().is_none());
    assert!(matches!(RangedI8::<251, 3>::new(-3).unwrap().checked_abs(), Some(x) if x.get() == 3));
    assert!(matches!(RangedU16::<0, 9>::new(0).unwrap().checked_neg(), Some(x) if x.get() == 0));
    assert!(RangedU16::<0, 9>::new(1).unwrap().checked_neg().is_none());
    assert_eq!(RangedU16::<0, 0>::new(0).unwrap().neg().get(), 0);
    assert_eq!(RangedU16::<0, 9>::new(0).unwrap().unchecked_neg().get(), 0);
}

#[test]
fn remainder_by_a_static_value() {
    let divisor = RangedU16::<0, 0>::exact::<7>();
    for v in 0..=300u16 {
        let x = RangedU16::<0, 300>::new(v).unwrap();
        assert_eq!(x.rem(divisor).get(), v % 7);
    }
}

#[test]
fn shifts() {
    for v in -128..=127i8 {
        for n in 0..=9 {
            let x = RangedI8::<128, 127>::new(v).unwrap();
            assert_eq!(x.checked_shl(n).map(|y| y.get()), v.checked_shl(n));
            assert_eq!(x.checked_shr(n).map(|y| y.get()), v.checked_shr(n));
        }
    }
    for v in 0..=255u8 {
        for n in 0..=9 {
            let x = RangedU8::<0, 255>::new(v).unwrap();
            assert_eq!(x.checked_shl(n).map(|y| y.get()), v.checked_shl(n));
            assert_eq!(x.checked_shr(n).map(|y| y.get()), v.checked_shr(n));
        }
    }
    assert!(unsigned(6).checked_shl(2).is_none());
    assert!(matches!(unsigned(5).checked_shl(2), Some(x) if x.get() == 20));
    assert!(unsigned(5).checked_shr(1).is_none());
    assert!(matches!(unsigned(7).checked_shr(1), Some(x) if x.get() == 3));
    let wide = RangedU128::<0, 340282366920938463463374607431768211455>::new(1).unwrap();
    assert!(matches!(wide.checked_shl(127), Some(x) if x.get() == 1 << 127));
    assert!(wide.checked_shl(128).is_none());
}

#[test]
fn powers() {
    for v in -5i32..=5 {
        for exp in 0..12 {
            assert_eq!(signed(v).checked_pow(exp).map(|y| y.get()), signed_if(v.pow(exp)));
        }
    }
    for v in 3i32..=20 {
        for exp in 0..7 {
            assert_eq!(unsigned(v).checked_pow(exp).map(|y| y.get()), unsigned_if(v.pow(exp)));
        }
    }
    let two = RangedU128::<0, 340282366920938463463374607431768211455>::new(2).unwrap();
    assert!(matches!(two.checked_pow(127), Some(x) if x.get() == 1 << 127));
    assert!(two.checked_pow(128).is_none());
    assert_eq!(two.saturating_pow(128).get(), u128::MAX);
    assert!(two.checked_pow(u32::MAX).is_none());
    let one = RangedU128::<0, 1>::new(1).unwrap();
    assert!(matches!(one.checked_pow(u32::MAX), Some(x) if x.get() == 1));
    let zero = RangedU128::<0, 1>::new(0).unwrap();
    assert!(matches!(zero.checked_pow(u32::MAX), Some(x) if x.get() == 0));
    assert!(matches!(zero.checked_pow(0), Some(x) if x.get() == 1));
    let minus = RangedI128::<170141183460469231731687303715884105728, 0>::new(-2).unwrap();
    assert!(matches!(minus.checked_pow(127), Some(x) if x.get() == i128::MIN));
    assert!(minus.checked_pow(129).is_none());
    let minus_one = RangedI16::<65535, 1>::new(-1).unwrap();
    assert!(matches!(minus_one.checked_pow(u32::MAX), Some(x) if x.get() == -1));
}

#[test]
fn ends_of_the_range_u8() {
    let least = RangedU8::<5, 100>::min_value();
    let greatest = RangedU8::<5, 100>::max_value();
    assert_eq!(least.get(), 5);
    assert_eq!(greatest.get(), 100);
    assert!(least.checked_sub(1).is_none());
    assert!(greatest.checked_add(1).is_none());
    assert!(greatest.checked_mul(u8::MAX).is_none());
    assert!(greatest.checked_add(u8::MAX).is_none());
    assert_eq!(least.saturating_sub(1).get(), 5);
    assert_eq!(greatest.saturating_add(u8::MAX).get(), 100);
    assert_eq!(greatest.saturating_mul(u8::MAX).get(), 100);
    assert_eq!(greatest.saturating_pow(70).get(), 100);
    assert_eq!(least.wrapping_sub(1).get(), 100);
    assert_eq!(greatest.wrapping_add(1).get(), 5);
    assert_eq!(greatest.wrapping_add(3).get(), 5 + 2);
    assert!(matches!(greatest.checked_div(7), Some(x) if x.get() == 14));
    assert!(matches!(greatest.checked_rem(47), Some(x) if x.get() == 6));
    assert!(matches!(greatest.checked_shr(2), Some(x) if x.get() == 25));
    assert!(greatest.checked_shr(u8::BITS).is_none());
    assert!(greatest.checked_shl(u8::BITS).is_none());
    assert!(greatest.checked_pow(2).is_none());
    assert!(matches!(RangedU8::<5, 100>::new(10).unwrap().checked_pow(2), Some(x) if x.get() == 100));
}

#[test]
fn ends_of_the_range_u16() {
    let least = RangedU16::<5, 100>::min_value();
    let greatest = RangedU16::<5, 100>::max_value();
    assert_eq!(least.get(), 5);
    assert_eq!(greatest.get(), 100);
    assert!(least.checked_sub(1).is_none());
    assert!(greatest.checked_add(1).is_none());
    assert!(greatest.checked_mul(u16::MAX).is_none());
    assert!(greatest.checked_add(u16::MAX).is_none());
    assert_eq!(least.saturating_sub(1).get(), 5);
    assert_eq!(greatest.saturating_add(u16::MAX).get(), 100);
    assert_eq!(greatest.saturating_mul(u16::MAX).get(), 100);
    assert_eq!(greatest.saturating_pow(70).get(), 100);
    assert_eq!(least.wrapping_sub(1).get(), 100);
    assert_eq!(greatest.wrapping_add(1).get(), 5);
    assert_eq!(greatest.wrapping_add(3).get(), 5 + 2);
    assert!(matches!(greatest.checked_div(7), Some(x) if x.get() == 14));
    assert!(matches!(greatest.checked_rem(47), Some(x) if x.get() == 6));
    assert!(matches!(greatest.checked_shr(2), Some(x) if x.get() == 25));
    assert!(greatest.checked_shr(u16::BITS).is_none());
    assert!(greatest.checked_shl(u16::BITS).is_none());
    assert!(greatest.checked_pow(2).is_none());
    assert!(matches!(RangedU16::<5, 100>::new(10).unwrap().checked_pow(2), Some(x) if x.get() == 100));
}

#[test]
fn ends_of_the_range_u32() {
    let least = RangedU32::<5, 100>::min_value();
    let greatest = RangedU32::<5, 100>::max_value();
    assert_eq!(least.get(), 5);
    assert_eq!(greatest.get(), 100);
    assert!(least.checked_sub(1).is_none());
    assert!(greatest.checked_add(1).is_none());
    assert!(greatest.checked_mul(u32::MAX).is_none());
    assert!(greatest.checked_add(u32::MAX).is_none());
    assert_eq!(least.saturating_sub(1).get(), 5);
    assert_eq!(greatest.saturating_add(u32::MAX).get(), 100);
    assert_eq!(greatest.saturating_mul(u32::MAX).get(), 100);
    assert_eq!(greatest.saturating_pow(70).get(), 100);
    assert_eq!(least.wrapping_sub(1).get(), 100);
    assert_eq!(greatest.wrapping_add(1).get(), 5);
    assert_eq!(greatest.wrapping_add(3).get(), 5 + 2);
    assert!(matches!(greatest.checked_div(7), Some(x) if x.get() == 14));
    assert!(matches!(greatest.checked_rem(47), Some(x) if x.get() == 6));
    assert!(matches!(greatest.checked_shr(2), Some(x) if x.get() == 25));
    assert!(greatest.checked_shr(u32::BITS).is_none());
    assert!(greatest.checked_shl(u32::BITS).is_none());
    assert!(greatest.checked_pow(2).is_none());
    assert!(matches!(RangedU32::<5, 100>::new(10).unwrap().checked_pow(2), Some(x) if x.get() == 100));
}

#[test]
fn ends_of_the_range_u64() {
    let least = RangedU64::<5, 100>::min_value();
    let greatest = RangedU64::<5, 100>::max_value();
    assert_eq!(least.get(), 5);
    assert_eq!(greatest.get(), 100);
    assert!(least.checked_sub(1).is_none());
    assert!(greatest.checked_add(1).is_none());
    assert!(greatest.checked_mul(u64::MAX).is_none());
    assert!(greatest.checked_add(u64::MAX).is_none());
    assert_eq!(least.saturating_sub(1).get(), 5);
    assert_eq!(greatest.saturating_add(u64::MAX).get(), 100);
    assert_eq!(greatest.saturating_mul(u64::MAX).get(), 100);
    assert_eq!(greatest.saturating_pow(70).get(), 100);
    assert_eq!(least.wrapping_sub(1).get(), 100);
    assert_eq!(greatest.wrapping_add(1).get(), 5);
    assert_eq!(greatest.wrapping_add(3).get(), 5 + 2);
    assert!(matches!(greatest.checked_div(7), Some(x) if x.get() == 14));
    assert!(matches!(greatest.checked_rem(47), Some(x) if x.get() == 6));
    assert!(matches!(greatest.checked_shr(2), Some(x) if x.get() == 25));
    assert!(greatest.checked_shr(u64::BITS).is_none());
    assert!(greatest.checked_shl(u64::BITS).is_none());
    assert!(greatest.checked_pow(2).is_none());
    assert!(matches!(RangedU64::<5, 100>::new(10).unwrap().checked_pow(2), Some(x) if x.get() == 100));
}

#[test]
fn ends_of_the_range_u128() {
    let least = RangedU128::<5, 100>::min_value();
    let greatest = RangedU128::<5, 100>::max_value();
    assert_eq!(least.get(), 5);
    assert_eq!(greatest.get(), 100);
    assert!(least.checked_sub(1).is_none());
    assert!(greatest.checked_add(1).is_none());
    assert!(greatest.checked_mul(u128::MAX).is_none());
    assert!(greatest.checked_add(u128::MAX).is_none());
    assert_eq!(least.saturating_sub(1).get(), 5);
    assert_eq!(greatest.saturating_add(u128::MAX).get(), 100);
    assert_eq!(greatest.saturating_mul(u128::MAX).get(), 100);
    assert_eq!(greatest.saturating_pow(70).get(), 100);
    assert_eq!(least.wrapping_sub(1).get(), 100);
    assert_eq!(greatest.wrapping_add(1).get(), 5);
    assert_eq!(greatest.wrapping_add(3).get(), 5 + 2);
    assert!(matches!(greatest.checked_div(7), Some(x) if x.get() == 14));
    assert!(matches!(greatest.checked_rem(47), Some(x) if x.get() == 6));
    assert!(matches!(greatest.checked_shr(2), Some(x) if x.get() == 25));
    assert!(greatest.checked_shr(u128::BITS).is_none());
    assert!(greatest.checked_shl(u128::BITS).is_none());
    assert!(greatest.checked_pow(2).is_none());
    assert!(matches!(RangedU128::<5, 100>::new(10).unwrap().checked_pow(2), Some(x) if x.get() == 100));
}

#[test]
fn ends_of_the_range_usize() {
    let least = RangedUsize::<5, 100>::min_value();
    let greatest = RangedUsize::<5, 100>::max_value();
    assert_eq!(least.get(), 5);
    assert_eq!(greatest.get(), 100);
    assert!(least.checked_sub(1).is_none());
    assert!(greatest.checked_add(1).is_none());
    assert!(greatest.checked_mul(usize::MAX).is_none());
    assert!(greatest.checked_add(usize::MAX).is_none());
    assert_eq!(least.saturating_sub(1).get(), 5);
    assert_eq!(greatest.saturating_add(usize::MAX).get(), 100);
    assert_eq!(greatest.saturating_mul(usize::MAX).get(), 100);
    assert_eq!(greatest.saturating_pow(70).get(), 100);
    assert_eq!(least.wrapping_sub(1).get(), 100);
    assert_eq!(greatest.wrapping_add(1).get(), 5);
    assert_eq!(greatest.wrapping_add(3).get(), 5 + 2);
    assert!(matches!(greatest.checked_div(7), Some(x) if x.get() == 14));
    assert!(matches!(greatest.checked_rem(47), Some(x) if x.get() == 6));
    assert!(matches!(greatest.checked_shr(2), Some(x) if x.get() == 25));
    assert!(greatest.checked_shr(usize::BITS).is_none());
    assert!(greatest.checked_shl(usize::BITS).is_none());
    assert!(greatest.checked_pow(2).is_none());
    assert!(matches!(RangedUsize::<5, 100>::new(10).unwrap().checked_pow(2), Some(x) if x.get() == 100));
}

#[test]
fn ends_of_the_range_i8() {
    let least = RangedI8::<251, 100>::min_value();
    let greatest = RangedI8::<251, 100>::max_value();
    assert_eq!(least.get(), -5);
    assert_eq!(greatest.get(), 100);
    assert!(least.checked_sub(1).is_none());
    assert!(greatest.checked_add(1).is_none());
    assert!(greatest.checked_mul(i8::MAX).is_none());
    assert!(greatest.checked_add(i8::MAX).is_none());
    assert_eq!(least.saturating_sub(1).get(), -5);
    assert_eq!(greatest.saturating_add(i8::MAX).get(), 100);
    assert_eq!(greatest.saturating_mul(i8::MAX).get(), 100);
    assert_eq!(greatest.saturating_pow(70).get(), 100);
    assert_eq!(least.wrapping_sub(1).get(), 100);
    assert_eq!(greatest.wrapping_add(1).get(), -5);
    assert_eq!(greatest.wrapping_add(3).get(), -5 + 2);
    assert!(matches!(greatest.checked_div(7), Some(x) if x.get() == 14));
    assert!(matches!(greatest.checked_rem(47), Some(x) if x.get() == 6));
    assert!(matches!(greatest.checked_shr(2), Some(x) if x.get() == 25));
    assert!(greatest.checked_shr(i8::BITS).is_none());
    assert!(greatest.checked_shl(i8::BITS).is_none());
    assert!(greatest.checked_pow(2).is_none());
    assert!(matches!(RangedI8::<251, 100>::new(10).unwrap().checked_pow(2), Some(x) if x.get() == 100));
}

#[test]
fn ends_of_the_range_i16() {
    let least = RangedI16::<65531, 100>::min_value();
    let greatest = RangedI16::<65531, 100>::max_value();
    assert_eq!(least.get(), -5);
    assert_eq!(greatest.get(), 100);
    assert!(least.checked_sub(1).is_none());
    assert!(greatest.checked_add(1).is_none());
    assert!(greatest.checked_mul(i16::MAX).is_none());
    assert!(greatest.checked_add(i16::MAX).is_none());
    assert_eq!(least.saturating_sub(1).get(), -5);
    assert_eq!(greatest.saturating_add(i16::MAX).get(), 100);
    assert_eq!(greatest.saturating_mul(i16::MAX).get(), 100);
    assert_eq!(greatest.saturating_pow(70).get(), 100);
    assert_eq!(least.wrapping_sub(1).get(), 100);
    assert_eq!(greatest.wrapping_add(1).get(), -5);
    assert_eq!(greatest.wrapping_add(3).get(), -5 + 2);
    assert!(matches!(greatest.checked_div(7), Some(x) if x.get() == 14));
    assert!(matches!(greatest.checked_rem(47), Some(x) if x.get() == 6));
    assert!(matches!(greatest.checked_shr(2), Some(x) if x.get() == 25));
    assert!(greatest.checked_shr(i16::BITS).is_none());
    assert!(greatest.checked_shl(i16::BITS).is_none());
    assert!(greatest.checked_pow(2).is_none());
    assert!(matches!(RangedI16::<65531, 100>::new(10).unwrap().checked_pow(2), Some(x) if x.get() == 100));
}

#[test]
fn ends_of_the_range_i32() {
    let least = RangedI32::<4294967291, 100>::min_value();
    let greatest = RangedI32::<4294967291, 100>::max_value();
    assert_eq!(least.get(), -5);
    assert_eq!(greatest.get(), 100);
    assert!(least.checked_sub(1).is_none());
    assert!(greatest.checked_add(1).is_none());
    assert!(greatest.checked_mul(i32::MAX).is_none());
    assert!(greatest.checked_add(i32::MAX).is_none());
    assert_eq!(least.saturating_sub(1).get(), -5);
    assert_eq!(greatest.saturating_add(i32::MAX).get(), 100);
    assert_eq!(greatest.saturating_mul(i32::MAX).get(), 100);
    assert_eq!(greatest.saturating_pow(70).get(), 100);
    assert_eq!(least.wrapping_sub(1).get(), 100);
    assert_eq!(greatest.wrapping_add(1).get(), -5);
    assert_eq!(greatest.wrapping_add(3).get(), -5 + 2);
    assert!(matches!(greatest.checked_div(7), Some(x) if x.get() == 14));
    assert!(matches!(greatest.checked_rem(47), Some(x) if x.get() == 6));
    assert!(matches!(greatest.checked_shr(2), Some(x) if x.get() == 25));
    assert!(greatest.checked_shr(i32::BITS).is_none());
    assert!(greatest.checked_shl(i32::BITS).is_none());
    assert!(greatest.checked_pow(2).is_none());
    assert!(matches!(RangedI32::<4294967291, 100>::new(10).unwrap().checked_pow(2), Some(x) if x.get() == 100));
}

#[test]
fn ends_of_the_range_i64() {
    let least = RangedI64::<18446744073709551611, 100>::min_value();
    let greatest = RangedI64::<18446744073709551611, 100>::max_value();
    assert_eq!(least.get(), -5);
    assert_eq!(greatest.get(), 100);
    assert!(least.checked_sub(1).is_none());
    assert!(greatest.checked_add(1).is_none());
    assert!(greatest.checked_mul(i64::MAX).is_none());
    assert!(greatest.checked_add(i64::MAX).is_none());
    assert_eq!(least.saturating_sub(1).get(), -5);
    assert_eq!(greatest.saturating_add(i64::MAX).get(), 100);
    assert_eq!(greatest.saturating_mul(i64::MAX).get(), 100);
    assert_eq!(greatest.saturating_pow(70).get(), 100);
    assert_eq!(least.wrapping_sub(1).get(), 100);
    assert_eq!(greatest.wrapping_add(1).get(), -5);
    assert_eq!(greatest.wrapping_add(3).get(), -5 + 2);
    assert!(matches!(greatest.checked_div(7), Some(x) if x.get() == 14));
    assert!(matches!(greatest.checked_rem(47), Some(x) if x.get() == 6));
    assert!(matches!(greatest.checked_shr(2), Some(x) if x.get() == 25));
    assert!(greatest.checked_shr(i64::BITS).is_none());
    assert!(greatest.checked_shl(i64::BITS).is_none());
    assert!(greatest.checked_pow(2).is_none());
    assert!(matches!(RangedI64::<18446744073709551611, 100>::new(10).unwrap().checked_pow(2), Some(x) if x.get() == 100));
}

#[test]
fn ends_of_the_range_i128() {
    let least = RangedI128::<340282366920938463463374607431768211451, 100>::min_value();
    let greatest = RangedI128::<340282366920938463463374607431768211451, 100>::max_value();
    assert_eq!(least.get(), -5);
    assert_eq!(greatest.get(), 100);
    assert!(least.checked_sub(1).is_none());
    assert!(greatest.checked_add(1).is_none());
    assert!(greatest.checked_mul(i128::MAX).is_none());
    assert!(greatest.checked_add(i128::MAX).is_none());
    assert_eq!(least.saturating_sub(1).get(), -5);
    assert_eq!(greatest.saturating_add(i128::MAX).get(), 100);
    assert_eq!(greatest.saturating_mul(i128::MAX).get(), 100);
    assert_eq!(greatest.saturating_pow(70).get(), 100);
    assert_eq!(least.wrapping_sub(1).get(), 100);
    assert_eq!(greatest.wrapping_add(1).get(), -5);
    assert_eq!(greatest.wrapping_add(3).get(), -5 + 2);
    assert!(matches!(greatest.checked_div(7), Some(x) if x.get() == 14));
    assert!(matches!(greatest.checked_rem(47), Some(x) if x.get() == 6));
    assert!(matches!(greatest.checked_shr(2), Some(x) if x.get() == 25));
    assert!(greatest.checked_shr(i128::BITS).is_none());
    assert!(greatest.checked_shl(i128::BITS).is_none());
    assert!(greatest.checked_pow(2).is_none());
    assert!(matches!(RangedI128::<340282366920938463463374607431768211451, 100>::new(10).unwrap().checked_pow(2), Some(x) if x.get() == 100));
}

#[test]
fn ends_of_the_range_isize() {
    let least = RangedIsize::<18446744073709551611, 100>::min_value();
    let greatest = RangedIsize::<18446744073709551611, 100>::max_value();
    assert_eq!(least.get(), -5);
    assert_eq!(greatest.get(), 100);
    assert!(least.checked_sub(1).is_none());
    assert!(greatest.checked_add(1).is_none());
    assert!(greatest.checked_mul(isize::MAX).is_none());
    assert!(greatest.checked_add(isize::MAX).is_none());
    assert_eq!(least.saturating_sub(1).get(), -5);
    assert_eq!(greatest.saturating_add(isize::MAX).get(), 100);
    assert_eq!(greatest.saturating_mul(isize::MAX).get(), 100);
    assert_eq!(greatest.saturating_pow(70).get(), 100);
    assert_eq!(least.wrapping_sub(1).get(), 100);
    assert_eq!(greatest.wrapping_add(1).get(), -5);
    assert_eq!(greatest.wrapping_add(3).get(), -5 + 2);
    assert!(matches!(greatest.checked_div(7), Some(x) if x.get() == 14));
    assert!(matches!(greatest.checked_rem(47), Some(x) if x.get() == 6));
    assert!(matches!(greatest.checked_shr(2), Some(x) if x.get() == 25));
    assert!(greatest.checked_shr(isize::BITS).is_none());
    assert!(greatest.checked_shl(isize::BITS).is_none());
    assert!(greatest.checked_pow(2).is_none());
    assert!(matches!(RangedIsize::<18446744073709551611, 100>::new(10).unwrap().checked_pow(2), Some(x) if x.get() == 100));
}
