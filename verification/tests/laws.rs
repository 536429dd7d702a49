//! What holds of several operations together, on given values.

use core::cmp::Ordering;
use core::str::FromStr;

use deranged::words::{
    i128_from_bits, i128_to_bits, i16_from_bits, i16_to_bits, i8_from_bits, i8_to_bits,
};
use deranged::{OptionRangedI8, RangedI128, RangedI64, RangedI8, RangedU16, RangedU8};

/// The values of `-5..=9`.
fn values() -> Vec<RangedI8<251, 9>> {
    (-5..=9).map(|v| RangedI8::new(v).unwrap()).collect()
}

#[test]
fn wrapping_subtraction_undoes_wrapping_addition() {
    for x in values() {
        for rhs in -128..=127 {
            assert!(x.wrapping_add(rhs).wrapping_sub(rhs) == x);
            assert!(x.wrapping_sub(rhs).wrapping_add(rhs) == x);
        }
    }
}

#[test]
fn wrapping_additions_add_up() {
    for x in values() {
        for a in -60..=60 {
            for b in -60..=60 {
                assert!(x.wrapping_add(a).wrapping_add(b) == x.wrapping_add(a + b));
            }
        }
    }
}

#[test]
fn wrapping_by_the_length_of_the_range_changes_nothing() {
    for x in values() {
        for turns in -8..=8 {
            assert!(x.wrapping_add(turns * 15) == x);
        }
    }
}

#[test]
fn in_range_all_kinds_of_arithmetic_agree() {
    for x in values() {
        for rhs in -128..=127 {
            if let Some(y) = x.checked_add(rhs) {
                assert!(x.saturating_add(rhs) == y);
                assert!(x.wrapping_add(rhs) == y);
            }
            if let Some(y) = x.checked_sub(rhs) {
                assert!(x.saturating_sub(rhs) == y);
                assert!(x.wrapping_sub(rhs) == y);
            }
            if let Some(y) = x.checked_mul(rhs) {
                assert!(x.saturating_mul(rhs) == y);
            }
        }
    }
}

#[test]
fn saturating_keeps_order() {
    for x in values() {
        for a in -128..=126i8 {
            assert!(x.saturating_add(a) <= x.saturating_add(a + 1));
        }
    }
}

#[test]
fn quotient_and_remainder_give_back_the_dividend() {
    for v in -128..=127i32 {
        let x = RangedI8::<128, 127>::new(v as i8).unwrap();
        for rhs in -128..=127i32 {
            let r = rhs as i8;
            if let (Some(q), Some(m)) = (x.checked_div(r), x.checked_rem(r)) {
                assert_eq!(q.get() as i32 * rhs + m.get() as i32, v);
                assert!((m.get() as i32).abs() < rhs.abs());
                assert!(m.get() == 0 || (m.get() < 0) == (v < 0));
            }
            if let (Some(q), Some(m)) = (x.checked_div_euclid(r), x.checked_rem_euclid(r)) {
                assert_eq!(q.get() as i32 * rhs + m.get() as i32, v);
                assert!(m.get() >= 0 && (m.get() as i32) < rhs.abs());
            }
        }
    }
}

#[test]
fn shifting_multiplies_and_divides_by_powers_of_two() {
    for v in -128..=127i32 {
        let x = RangedI8::<128, 127>::new(v as i8).unwrap();
        for n in 0..8 {
            assert_eq!(x.checked_shr(n).unwrap().get() as i32, v.div_euclid(1 << n));
            let product = v * (1 << n);
            if (-128..=127).contains(&product) {
                assert_eq!(x.checked_shl(n).unwrap().get() as i32, product);
            }
        }
    }
}

#[test]
fn text_reads_back() {
    for x in values() {
        assert!(matches!(RangedI8::<251, 9>::from_str(&x.to_string()), Ok(y) if y == x));
        assert!(matches!(RangedI8::<251, 9>::from_human_str(&x.to_string()), Some(y) if y == x));
    }
    for v in [i128::MIN, i128::MIN + 1, -1, 0, 1, i128::MAX] {
        let x = RangedI128::<
            170141183460469231731687303715884105728,
            170141183460469231731687303715884105727,
        >::new(v)
        .unwrap();
        assert_eq!(x.to_string().parse::<i128>(), Ok(v));
    }
}

#[test]
fn different_values_have_different_texts() {
    for x in values() {
        for y in values() {
            assert_eq!(x.to_string() == y.to_string(), x == y);
        }
    }
}

#[test]
fn what_a_range_reads_a_wider_one_reads() {
    for text in ["5", "+7", "010", "8", "9", "11", "-1", ""] {
        if let Ok(x) = RangedU8::<5, 10>::from_str(text) {
            assert!(matches!(RangedU8::<0, 20>::from_str(text), Ok(y) if y == x));
        }
    }
}

#[test]
fn expanding_and_narrowing_keep_the_value() {
    for v in 5..=10 {
        let x = RangedU16::<5, 10>::new(v).unwrap();
        assert!(matches!(x.expand::<0, 300>().narrow::<5, 10>(), Some(y) if y == x));
    }
}

#[test]
fn negating_twice_changes_nothing() {
    for v in -9..=9 {
        let x = RangedI8::<247, 9>::new(v).unwrap();
        assert!(x.neg().neg() == x);
        assert!(x.neg().abs() == x.abs());
    }
}

#[test]
fn stored_bytes_read_back_and_keep_order() {
    for x in values() {
        assert!(matches!(RangedI8::<251, 9>::from_bytes(&x.as_bytes()), Ok(y) if y == x));
        for y in values() {
            assert_eq!(
                RangedI8::<251, 9>::compare(&x.as_bytes(), &y.as_bytes()),
                Ok(x.get().cmp(&y.get()))
            );
        }
    }
}

#[test]
fn absent_is_less_than_any() {
    let none = OptionRangedI8::<251, 9>::none();
    for x in values() {
        let some = OptionRangedI8::some(x);
        assert_eq!(none.cmp(&some), Ordering::Less);
        assert_eq!(some.cmp(&none), Ordering::Greater);
    }
}

#[test]
fn every_value_comes_from_some_arbitrary_integer() {
    for x in values() {
        assert!(RangedI8::<251, 9>::from_arbitrary_int(x.get() + 5) == x);
    }
}

#[test]
fn patterns_and_signed_integers_correspond() {
    for bits in 0..=255u8 {
        assert_eq!(i8_from_bits(bits), bits as i8);
        assert_eq!(i8_to_bits(i8_from_bits(bits)), bits);
    }
    for bits in 0..=65535u16 {
        assert_eq!(i16_from_bits(bits), bits as i16);
        assert_eq!(i16_to_bits(bits as i16), bits);
    }
    for v in [i128::MIN, i128::MIN + 1, -1, 0, 1, i128::MAX] {
        assert_eq!(i128_to_bits(v), v as u128);
        assert_eq!(i128_from_bits(v as u128), v);
    }
}

#[test]
fn part_of_a_json_safe_range_is_json_safe() {
    assert!(RangedI64::<18437736874454810625, 9007199254740991>::is_json_safe());
    assert!(RangedI64::<18437736874454810625, 5>::is_json_safe());
    assert!(RangedI64::<5, 9007199254740991>::is_json_safe());
    assert!(RangedI64::<5, 6>::is_json_safe());
}
