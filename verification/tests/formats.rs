//! Ranged integers as text, as bytes and as database values.

use core::cmp::Ordering;
use core::str::FromStr;

use bigdecimal::num_bigint::BigInt;
use bigdecimal::BigDecimal;
use deranged::{
    HumanReadable, IntegerSchema, OptionRangedI128, OptionRangedI16, OptionRangedI32,
    OptionRangedI64, OptionRangedI8, OptionRangedIsize, OptionRangedU128, OptionRangedU16,
    OptionRangedU32, OptionRangedU64, OptionRangedU8, OptionRangedUsize, RangedI128, RangedI16,
    RangedI32, RangedI64, RangedI8, RangedIsize, RangedU128, RangedU16, RangedU32, RangedU64,
    RangedU8, RangedUsize, StoredBytesError, TryFromIntError, signed_json_safe_integer_range,
    unsigned_json_safe_integer_range,
};
use deranged::json::{JSON_SIGNED_INTEGER_PATTERN, JSON_UNSIGNED_INTEGER_PATTERN};

/// A decimal as the library takes it.
fn parts(text: &str) -> (Vec<u8>, i64) {
    let (unscaled, scale) = BigDecimal::from_str(text).unwrap().into_bigint_and_scale();
    (unscaled.to_signed_bytes_le(), scale)
}

#[test]
fn json_safe_ranges() {
    let edge: i128 = 9_007_199_254_740_991;
    assert!(signed_json_safe_integer_range(-edge, edge));
    assert!(!signed_json_safe_integer_range(-edge - 1, edge));
    assert!(!signed_json_safe_integer_range(-edge, edge + 1));
    assert!(signed_json_safe_integer_range(0, 0));
    assert!(unsigned_json_safe_integer_range(edge as u128));
    assert!(!unsigned_json_safe_integer_range(edge as u128 + 1));
    assert!(!unsigned_json_safe_integer_range(u128::MAX));
}

#[test]
fn json_safe_ranges_are_written_as_numbers() {
    let x = RangedU64::<0, 9007199254740991>::new(5).unwrap();
    assert!(matches!(x.to_human_readable(), HumanReadable::Number(5)));
    assert!(RangedU64::<0, 9007199254740991>::is_json_safe());
    let x = RangedI64::<18437736874454810625, 0>::new(-5).unwrap();
    assert!(matches!(x.to_human_readable(), HumanReadable::Number(-5)));
    let x = OptionRangedI64::<18437736874454810625, 0>::some_unchecked(-5);
    assert!(matches!(x.to_human_readable(), Some(HumanReadable::Number(-5))));
}

#[test]
fn other_ranges_are_written_as_text() {
    let x = RangedU64::<0, 9007199254740992>::new(5).unwrap();
    assert!(matches!(x.to_human_readable(), HumanReadable::Text(t) if t == "5"));
    assert!(!RangedU64::<0, 9007199254740992>::is_json_safe());
    let x = RangedI64::<18437736874454810624, 0>::new(-5).unwrap();
    assert!(matches!(x.to_human_readable(), HumanReadable::Text(t) if t == "-5"));
    let x = OptionRangedU64::<0, 9007199254740992>::some_unchecked(17);
    assert!(matches!(x.to_human_readable(), Some(HumanReadable::Text(t)) if t == "17"));
    assert!(OptionRangedU64::<0, 9007199254740992>::none().to_human_readable().is_none());
}

#[test]
fn text_is_decimal() {
    assert_eq!(RangedU8::<0, 255>::new(0).unwrap().to_string(), "0");
    assert_eq!(RangedU8::<0, 255>::new(255).unwrap().to_string(), "255");
    assert_eq!(RangedI8::<128, 127>::new(-128).unwrap().to_string(), "-128");
    let x = RangedU128::<0, 340282366920938463463374607431768211455>::max_value();
    assert_eq!(x.to_string(), u128::MAX.to_string());
    let x = RangedI128::<170141183460469231731687303715884105728, 0>::min_value();
    assert_eq!(x.to_string(), i128::MIN.to_string());
    for v in -128..=127i8 {
        assert_eq!(RangedI8::<128, 127>::new(v).unwrap().to_string(), format!("{v}"));
    }
}

#[test]
fn human_readers_take_text_and_numbers() {
    assert!(matches!(RangedI8::<251, 5>::from_human_str("-5"), Some(x) if x.get() == -5));
    assert!(RangedI8::<251, 5>::from_human_str("-6").is_none());
    assert!(RangedI8::<251, 5>::from_human_str("six").is_none());
    assert!(matches!(RangedI8::<251, 5>::from_human_i64(-5), Some(x) if x.get() == -5));
    assert!(RangedI8::<251, 5>::from_human_i64(6).is_none());
    assert!(RangedI8::<251, 5>::from_human_i64(i64::MIN).is_none());
    assert!(RangedI8::<251, 5>::from_human_i64(251).is_none());
    assert!(matches!(RangedI8::<251, 5>::from_human_u64(5), Some(x) if x.get() == 5));
    assert!(RangedI8::<251, 5>::from_human_u64(u64::MAX).is_none());
    assert!(RangedU64::<0, 5>::from_human_i64(-1).is_none());
    assert!(matches!(
        RangedU64::<0, 18446744073709551615>::from_human_u64(u64::MAX),
        Some(x) if x.get() == u64::MAX
    ));
    assert!(matches!(RangedI128::<0, 5>::from_human_i64(3), Some(x) if x.get() == 3));
    assert!(RangedI64::<0, 5>::from_human_u64(u64::MAX).is_none());
}

#[test]
fn names_and_expectations() {
    assert_eq!(
        RangedI8::<251, 5>::expecting(),
        "an integer or integer string in the range -5..=5"
    );
    assert_eq!(
        RangedU128::<0, 340282366920938463463374607431768211455>::expecting(),
        "an integer or integer string in the range 0..=340282366920938463463374607431768211455"
    );
    assert_eq!(RangedI8::<251, 5>::human_type_name(), "RangedI8_-5_5");
    assert_eq!(RangedU16::<0, 300>::human_type_name(), "RangedU16_0_300");
}

#[test]
fn schema_of_a_json_safe_range() {
    assert!(matches!(
        RangedI16::<65526, 300>::human_schema(),
        IntegerSchema::Integer { minimum: -10, maximum: 300 }
    ));
}

#[test]
fn schema_of_another_range() {
    match RangedU64::<0, 18446744073709551615>::human_schema() {
        IntegerSchema::Text { min_length, pattern, max_length } => {
            assert_eq!(min_length, 1);
            assert_eq!(pattern, JSON_UNSIGNED_INTEGER_PATTERN);
            assert_eq!(pattern, "^(?:0|[1-9][0-9]*)$");
            assert_eq!(max_length, 20);
        }
        IntegerSchema::Integer { .. } => panic!("a string is due"),
    }
    match RangedI64::<9223372036854775808, 7>::human_schema() {
        IntegerSchema::Text { min_length, pattern, max_length } => {
            assert_eq!(min_length, 1);
            assert_eq!(pattern, JSON_SIGNED_INTEGER_PATTERN);
            assert_eq!(pattern, "^-?(?:0|[1-9][0-9]*)$");
            assert_eq!(max_length, 20);
        }
        IntegerSchema::Integer { .. } => panic!("a string is due"),
    }
}

#[test]
fn schema_bounds_what_is_written() {
    for v in [0, 9, 10, 99, 12345678901234567, u64::MAX] {
        let x = RangedU64::<0, 18446744073709551615>::new(v).unwrap();
        let text = x.to_string();
        assert!(text.len() >= 1 && text.len() <= 20);
        assert!(text == "0" || !text.starts_with('0'));
        assert!(matches!(RangedU64::<0, 18446744073709551615>::from_human_str(&text), Some(y) if y == x));
    }
}

#[test]
fn stored_bytes_u8() {
    assert_eq!(RangedU8::<5, 100>::fixed_width(), Some(core::mem::size_of::<u8>()));
    assert_eq!(RangedU8::<5, 100>::primitive_name(), "u8");
    assert_eq!(OptionRangedU8::<5, 100>::fixed_width(), Some(core::mem::size_of::<u8>()));
    assert_eq!(OptionRangedU8::<5, 100>::primitive_name(), "u8");
    for v in 5..=100 as u8 {
        let x = RangedU8::<5, 100>::new(v).unwrap();
        assert_eq!(x.as_bytes(), v.to_le_bytes().to_vec());
        assert!(matches!(RangedU8::<5, 100>::from_bytes(&v.to_le_bytes()), Ok(y) if y == x));
        let x = OptionRangedU8::<5, 100>::some_unchecked(v);
        assert_eq!(x.as_bytes(), v.to_le_bytes().to_vec());
        assert!(matches!(OptionRangedU8::<5, 100>::from_bytes(&v.to_le_bytes()), Ok(y) if y == x));
        assert_eq!(
            RangedU8::<5, 100>::compare(&v.to_le_bytes(), &(50 as u8).to_le_bytes()),
            Ok(v.cmp(&50))
        );
        assert_eq!(
            OptionRangedU8::<5, 100>::compare(&v.to_le_bytes(), &u8::MIN.to_le_bytes()),
            Ok(Ordering::Greater)
        );
    }
    assert_eq!(OptionRangedU8::<5, 100>::none().as_bytes(), u8::MIN.to_le_bytes().to_vec());
    assert!(matches!(OptionRangedU8::<5, 100>::from_bytes(&u8::MIN.to_le_bytes()), Ok(y) if y.is_none()));
    assert_eq!(RangedU8::<5, 100>::from_bytes(&u8::MAX.to_le_bytes()).err(), Some(StoredBytesError::Range));
    assert_eq!(OptionRangedU8::<5, 100>::from_bytes(&u8::MAX.to_le_bytes()).err(), Some(StoredBytesError::Range));
    assert_eq!(RangedU8::<5, 100>::from_bytes(&[]).err(), Some(StoredBytesError::Width));
    assert_eq!(OptionRangedU8::<5, 100>::from_bytes(&[0; 17]).err(), Some(StoredBytesError::Width));
    assert_eq!(
        RangedU8::<5, 100>::compare(&u8::MAX.to_le_bytes(), &[]),
        Err(StoredBytesError::Range)
    );
    assert_eq!(
        RangedU8::<5, 100>::compare(&(50 as u8).to_le_bytes(), &[]),
        Err(StoredBytesError::Width)
    );
    assert_eq!(
        OptionRangedU8::<5, 100>::compare(&(50 as u8).to_le_bytes(), &[]),
        Err(StoredBytesError::Width)
    );
}

#[test]
fn stored_bytes_u16() {
    assert_eq!(RangedU16::<5, 100>::fixed_width(), Some(core::mem::size_of::<u16>()));
    assert_eq!(RangedU16::<5, 100>::primitive_name(), "u16");
    assert_eq!(OptionRangedU16::<5, 100>::fixed_width(), Some(core::mem::size_of::<u16>()));
    assert_eq!(OptionRangedU16::<5, 100>::primitive_name(), "u16");
    for v in 5..=100 as u16 {
        let x = RangedU16::<5, 100>::new(v).unwrap();
        assert_eq!(x.as_bytes(), v.to_le_bytes().to_vec());
        assert!(matches!(RangedU16::<5, 100>::from_bytes(&v.to_le_bytes()), Ok(y) if y == x));
        let x = OptionRangedU16::<5, 100>::some_unchecked(v);
        assert_eq!(x.as_bytes(), v.to_le_bytes().to_vec());
        assert!(matches!(OptionRangedU16::<5, 100>::from_bytes(&v.to_le_bytes()), Ok(y) if y == x));
        assert_eq!(
            RangedU16::<5, 100>::compare(&v.to_le_bytes(), &(50 as u16).to_le_bytes()),
            Ok(v.cmp(&50))
        );
        assert_eq!(
            OptionRangedU16::<5, 100>::compare(&v.to_le_bytes(), &u16::MIN.to_le_bytes()),
            Ok(Ordering::Greater)
        );
    }
    assert_eq!(OptionRangedU16::<5, 100>::none().as_bytes(), u16::MIN.to_le_bytes().to_vec());
    assert!(matches!(OptionRangedU16::<5, 100>::from_bytes(&u16::MIN.to_le_bytes()), Ok(y) if y.is_none()));
    assert_eq!(RangedU16::<5, 100>::from_bytes(&u16::MAX.to_le_bytes()).err(), Some(StoredBytesError::Range));
    assert_eq!(OptionRangedU16::<5, 100>::from_bytes(&u16::MAX.to_le_bytes()).err(), Some(StoredBytesError::Range));
    assert_eq!(RangedU16::<5, 100>::from_bytes(&[]).err(), Some(StoredBytesError::Width));
    assert_eq!(OptionRangedU16::<5, 100>::from_bytes(&[0; 17]).err(), Some(StoredBytesError::Width));
    assert_eq!(
        RangedU16::<5, 100>::compare(&u16::MAX.to_le_bytes(), &[]),
        Err(StoredBytesError::Range)
    );
    assert_eq!(
        RangedU16::<5, 100>::compare(&(50 as u16).to_le_bytes(), &[]),
        Err(StoredBytesError::Width)
    );
    assert_eq!(
        OptionRangedU16::<5, 100>::compare(&(50 as u16).to_le_bytes(), &[]),
        Err(StoredBytesError::Width)
    );
}

#[test]
fn stored_bytes_u32() {
    assert_eq!(RangedU32::<5, 100>::fixed_width(), Some(core::mem::size_of::<u32>()));
    assert_eq!(RangedU32::<5, 100>::primitive_name(), "u32");
    assert_eq!(OptionRangedU32::<5, 100>::fixed_width(), Some(core::mem::size_of::<u32>()));
    assert_eq!(OptionRangedU32::<5, 100>::primitive_name(), "u32");
    for v in 5..=100 as u32 {
        let x = RangedU32::<5, 100>::new(v).unwrap();
        assert_eq!(x.as_bytes(), v.to_le_bytes().to_vec());
        assert!(matches!(RangedU32::<5, 100>::from_bytes(&v.to_le_bytes()), Ok(y) if y == x));
        let x = OptionRangedU32::<5, 100>::some_unchecked(v);
        assert_eq!(x.as_bytes(), v.to_le_bytes().to_vec());
        assert!(matches!(OptionRangedU32::<5, 100>::from_bytes(&v.to_le_bytes()), Ok(y) if y == x));
        assert_eq!(
            RangedU32::<5, 100>::compare(&v.to_le_bytes(), &(50 as u32).to_le_bytes()),
            Ok(v.cmp(&50))
        );
        assert_eq!(
            OptionRangedU32::<5, 100>::compare(&v.to_le_bytes(), &u32::MIN.to_le_bytes()),
            Ok(Ordering::Greater)
        );
    }
    assert_eq!(OptionRangedU32::<5, 100>::none().as_bytes(), u32::MIN.to_le_bytes().to_vec());
    assert!(matches!(OptionRangedU32::<5, 100>::from_bytes(&u32::MIN.to_le_bytes()), Ok(y) if y.is_none()));
    assert_eq!(RangedU32::<5, 100>::from_bytes(&u32::MAX.to_le_bytes()).err(), Some(StoredBytesError::Range));
    assert_eq!(OptionRangedU32::<5, 100>::from_bytes(&u32::MAX.to_le_bytes()).err(), Some(StoredBytesError::Range));
    assert_eq!(RangedU32::<5, 100>::from_bytes(&[]).err(), Some(StoredBytesError::Width));
    assert_eq!(OptionRangedU32::<5, 100>::from_bytes(&[0; 17]).err(), Some(StoredBytesError::Width));
    assert_eq!(
        RangedU32::<5, 100>::compare(&u32::MAX.to_le_bytes(), &[]),
        Err(StoredBytesError::Range)
    );
    assert_eq!(
        RangedU32::<5, 100>::compare(&(50 as u32).to_le_bytes(), &[]),
        Err(StoredBytesError::Width)
    );
    assert_eq!(
        OptionRangedU32::<5, 100>::compare(&(50 as u32).to_le_bytes(), &[]),
        Err(StoredBytesError::Width)
    );
}

#[test]
fn stored_bytes_u64() {
    assert_eq!(RangedU64::<5, 100>::fixed_width(), Some(core::mem::size_of::<u64>()));
    assert_eq!(RangedU64::<5, 100>::primitive_name(), "u64");
    assert_eq!(OptionRangedU64::<5, 100>::fixed_width(), Some(core::mem::size_of::<u64>()));
    assert_eq!(OptionRangedU64::<5, 100>::primitive_name(), "u64");
    for v in 5..=100 as u64 {
        let x = RangedU64::<5, 100>::new(v).unwrap();
        assert_eq!(x.as_bytes(), v.to_le_bytes().to_vec());
        assert!(matches!(RangedU64::<5, 100>::from_bytes(&v.to_le_bytes()), Ok(y) if y == x));
        let x = OptionRangedU64::<5, 100>::some_unchecked(v);
        assert_eq!(x.as_bytes(), v.to_le_bytes().to_vec());
        assert!(matches!(OptionRangedU64::<5, 100>::from_bytes(&v.to_le_bytes()), Ok(y) if y == x));
        assert_eq!(
            RangedU64::<5, 100>::compare(&v.to_le_bytes(), &(50 as u64).to_le_bytes()),
            Ok(v.cmp(&50))
        );
        assert_eq!(
            OptionRangedU64::<5, 100>::compare(&v.to_le_bytes(), &u64::MIN.to_le_bytes()),
            Ok(Ordering::Greater)
        );
    }
    assert_eq!(OptionRangedU64::<5, 100>::none().as_bytes(), u64::MIN.to_le_bytes().to_vec());
    assert!(matches!(OptionRangedU64::<5, 100>::from_bytes(&u64::MIN.to_le_bytes()), Ok(y) if y.is_none()));
    assert_eq!(RangedU64::<5, 100>::from_bytes(&u64::MAX.to_le_bytes()).err(), Some(StoredBytesError::Range));
    assert_eq!(OptionRangedU64::<5, 100>::from_bytes(&u64::MAX.to_le_bytes()).err(), Some(StoredBytesError::Range));
    assert_eq!(RangedU64::<5, 100>::from_bytes(&[]).err(), Some(StoredBytesError::Width));
    assert_eq!(OptionRangedU64::<5, 100>::from_bytes(&[0; 17]).err(), Some(StoredBytesError::Width));
    assert_eq!(
        RangedU64::<5, 100>::compare(&u64::MAX.to_le_bytes(), &[]),
        Err(StoredBytesError::Range)
    );
    assert_eq!(
        RangedU64::<5, 100>::compare(&(50 as u64).to_le_bytes(), &[]),
        Err(StoredBytesError::Width)
    );
    assert_eq!(
        OptionRangedU64::<5, 100>::compare(&(50 as u64).to_le_bytes(), &[]),
        Err(StoredBytesError::Width)
    );
}

#[test]
fn stored_bytes_u128() {
    assert_eq!(RangedU128::<5, 100>::fixed_width(), Some(core::mem::size_of::<u128>()));
    assert_eq!(RangedU128::<5, 100>::primitive_name(), "u128");
    assert_eq!(OptionRangedU128::<5, 100>::fixed_width(), Some(core::mem::size_of::<u128>()));
    assert_eq!(OptionRangedU128::<5, 100>::primitive_name(), "u128");
    for v in 5..=100 as u128 {
        let x = RangedU128::<5, 100>::new(v).unwrap();
        assert_eq!(x.as_bytes(), v.to_le_bytes().to_vec());
        assert!(matches!(RangedU128::<5, 100>::from_bytes(&v.to_le_bytes()), Ok(y) if y == x));
        let x = OptionRangedU128::<5, 100>::some_unchecked(v);
        assert_eq!(x.as_bytes(), v.to_le_bytes().to_vec());
        assert!(matches!(OptionRangedU128::<5, 100>::from_bytes(&v.to_le_bytes()), Ok(y) if y == x));
        assert_eq!(
            RangedU128::<5, 100>::compare(&v.to_le_bytes(), &(50 as u128).to_le_bytes()),
            Ok(v.cmp(&50))
        );
        assert_eq!(
            OptionRangedU128::<5, 100>::compare(&v.to_le_bytes(), &u128::MIN.to_le_bytes()),
            Ok(Ordering::Greater)
        );
    }
    assert_eq!(OptionRangedU128::<5, 100>::none().as_bytes(), u128::MIN.to_le_bytes().to_vec());
    assert!(matches!(OptionRangedU128::<5, 100>::from_bytes(&u128::MIN.to_le_bytes()), Ok(y) if y.is_none()));
    assert_eq!(RangedU128::<5, 100>::from_bytes(&u128::MAX.to_le_bytes()).err(), Some(StoredBytesError::Range));
    assert_eq!(OptionRangedU128::<5, 100>::from_bytes(&u128::MAX.to_le_bytes()).err(), Some(StoredBytesError::Range));
    assert_eq!(RangedU128::<5, 100>::from_bytes(&[]).err(), Some(StoredBytesError::Width));
    assert_eq!(OptionRangedU128::<5, 100>::from_bytes(&[0; 17]).err(), Some(StoredBytesError::Width));
    assert_eq!(
        RangedU128::<5, 100>::compare(&u128::MAX.to_le_bytes(), &[]),
        Err(StoredBytesError::Range)
    );
    assert_eq!(
        RangedU128::<5, 100>::compare(&(50 as u128).to_le_bytes(), &[]),
        Err(StoredBytesError::Width)
    );
    assert_eq!(
        OptionRangedU128::<5, 100>::compare(&(50 as u128).to_le_bytes(), &[]),
        Err(StoredBytesError::Width)
    );
}

#[test]
fn stored_bytes_usize() {
    assert_eq!(RangedUsize::<5, 100>::fixed_width(), Some(core::mem::size_of::<usize>()));
    assert_eq!(RangedUsize::<5, 100>::primitive_name(), "usize");
    assert_eq!(OptionRangedUsize::<5, 100>::fixed_width(), Some(core::mem::size_of::<usize>()));
    assert_eq!(OptionRangedUsize::<5, 100>::primitive_name(), "usize");
    for v in 5..=100 as usize {
        let x = RangedUsize::<5, 100>::new(v).unwrap();
        assert_eq!(x.as_bytes(), v.to_le_bytes().to_vec());
        assert!(matches!(RangedUsize::<5, 100>::from_bytes(&v.to_le_bytes()), Ok(y) if y == x));
        let x = OptionRangedUsize::<5, 100>::some_unchecked(v);
        assert_eq!(x.as_bytes(), v.to_le_bytes().to_vec());
        assert!(matches!(OptionRangedUsize::<5, 100>::from_bytes(&v.to_le_bytes()), Ok(y) if y == x));
        assert_eq!(
            RangedUsize::<5, 100>::compare(&v.to_le_bytes(), &(50 as usize).to_le_bytes()),
            Ok(v.cmp(&50))
        );
        assert_eq!(
            OptionRangedUsize::<5, 100>::compare(&v.to_le_bytes(), &usize::MIN.to_le_bytes()),
            Ok(Ordering::Greater)
        );
    }
    assert_eq!(OptionRangedUsize::<5, 100>::none().as_bytes(), usize::MIN.to_le_bytes().to_vec());
    assert!(matches!(OptionRangedUsize::<5, 100>::from_bytes(&usize::MIN.to_le_bytes()), Ok(y) if y.is_none()));
    assert_eq!(RangedUsize::<5, 100>::from_bytes(&usize::MAX.to_le_bytes()).err(), Some(StoredBytesError::Range));
    assert_eq!(OptionRangedUsize::<5, 100>::from_bytes(&usize::MAX.to_le_bytes()).err(), Some(StoredBytesError::Range));
    assert_eq!(RangedUsize::<5, 100>::from_bytes(&[]).err(), Some(StoredBytesError::Width));
    assert_eq!(OptionRangedUsize::<5, 100>::from_bytes(&[0; 17]).err(), Some(StoredBytesError::Width));
    assert_eq!(
        RangedUsize::<5, 100>::compare(&usize::MAX.to_le_bytes(), &[]),
        Err(StoredBytesError::Range)
    );
    assert_eq!(
        RangedUsize::<5, 100>::compare(&(50 as usize).to_le_bytes(), &[]),
        Err(StoredBytesError::Width)
    );
    assert_eq!(
        OptionRangedUsize::<5, 100>::compare(&(50 as usize).to_le_bytes(), &[]),
        Err(StoredBytesError::Width)
    );
}

#[test]
fn stored_bytes_i8() {
    assert_eq!(RangedI8::<251, 100>::fixed_width(), Some(core::mem::size_of::<i8>()));
    assert_eq!(RangedI8::<251, 100>::primitive_name(), "i8");
    assert_eq!(OptionRangedI8::<251, 100>::fixed_width(), Some(core::mem::size_of::<i8>()));
    assert_eq!(OptionRangedI8::<251, 100>::primitive_name(), "i8");
    for v in -5..=100 as i8 {
        let x = RangedI8::<251, 100>::new(v).unwrap();
        assert_eq!(x.as_bytes(), v.to_le_bytes().to_vec());
        assert!(matches!(RangedI8::<251, 100>::from_bytes(&v.to_le_bytes()), Ok(y) if y == x));
        let x = OptionRangedI8::<251, 100>::some_unchecked(v);
        assert_eq!(x.as_bytes(), v.to_le_bytes().to_vec());
        assert!(matches!(OptionRangedI8::<251, 100>::from_bytes(&v.to_le_bytes()), Ok(y) if y == x));
        assert_eq!(
            RangedI8::<251, 100>::compare(&v.to_le_bytes(), &(50 as i8).to_le_bytes()),
            Ok(v.cmp(&50))
        );
        assert_eq!(
            OptionRangedI8::<251, 100>::compare(&v.to_le_bytes(), &i8::MIN.to_le_bytes()),
            Ok(Ordering::Greater)
        );
    }
    assert_eq!(OptionRangedI8::<251, 100>::none().as_bytes(), i8::MIN.to_le_bytes().to_vec());
    assert!(matches!(OptionRangedI8::<251, 100>::from_bytes(&i8::MIN.to_le_bytes()), Ok(y) if y.is_none()));
    assert_eq!(RangedI8::<251, 100>::from_bytes(&i8::MAX.to_le_bytes()).err(), Some(StoredBytesError::Range));
    assert_eq!(OptionRangedI8::<251, 100>::from_bytes(&i8::MAX.to_le_bytes()).err(), Some(StoredBytesError::Range));
    assert_eq!(RangedI8::<251, 100>::from_bytes(&[]).err(), Some(StoredBytesError::Width));
    assert_eq!(OptionRangedI8::<251, 100>::from_bytes(&[0; 17]).err(), Some(StoredBytesError::Width));
    assert_eq!(
        RangedI8::<251, 100>::compare(&i8::MAX.to_le_bytes(), &[]),
        Err(StoredBytesError::Range)
    );
    assert_eq!(
        RangedI8::<251, 100>::compare(&(50 as i8).to_le_bytes(), &[]),
        Err(StoredBytesError::Width)
    );
    assert_eq!(
        OptionRangedI8::<251, 100>::compare(&(50 as i8).to_le_bytes(), &[]),
        Err(StoredBytesError::Width)
    );
}

#[test]
fn stored_bytes_i16() {
    assert_eq!(RangedI16::<65531, 100>::fixed_width(), Some(core::mem::size_of::<i16>()));
    assert_eq!(RangedI16::<65531, 100>::primitive_name(), "i16");
    assert_eq!(OptionRangedI16::<65531, 100>::fixed_width(), Some(core::mem::size_of::<i16>()));
    assert_eq!(OptionRangedI16::<65531, 100>::primitive_name(), "i16");
    for v in -5..=100 as i16 {
        let x = RangedI16::<65531, 100>::new(v).unwrap();
        assert_eq!(x.as_bytes(), v.to_le_bytes().to_vec());
        assert!(matches!(RangedI16::<65531, 100>::from_bytes(&v.to_le_bytes()), Ok(y) if y == x));
        let x = OptionRangedI16::<65531, 100>::some_unchecked(v);
        assert_eq!(x.as_bytes(), v.to_le_bytes().to_vec());
        assert!(matches!(OptionRangedI16::<65531, 100>::from_bytes(&v.to_le_bytes()), Ok(y) if y == x));
        assert_eq!(
            RangedI16::<65531, 100>::compare(&v.to_le_bytes(), &(50 as i16).to_le_bytes()),
            Ok(v.cmp(&50))
        );
        assert_eq!(
            OptionRangedI16::<65531, 100>::compare(&v.to_le_bytes(), &i16::MIN.to_le_bytes()),
            Ok(Ordering::Greater)
        );
    }
    assert_eq!(OptionRangedI16::<65531, 100>::none().as_bytes(), i16::MIN.to_le_bytes().to_vec());
    assert!(matches!(OptionRangedI16::<65531, 100>::from_bytes(&i16::MIN.to_le_bytes()), Ok(y) if y.is_none()));
    assert_eq!(RangedI16::<65531, 100>::from_bytes(&i16::MAX.to_le_bytes()).err(), Some(StoredBytesError::Range));
    assert_eq!(OptionRangedI16::<65531, 100>::from_bytes(&i16::MAX.to_le_bytes()).err(), Some(StoredBytesError::Range));
    assert_eq!(RangedI16::<65531, 100>::from_bytes(&[]).err(), Some(StoredBytesError::Width));
    assert_eq!(OptionRangedI16::<65531, 100>::from_bytes(&[0; 17]).err(), Some(StoredBytesError::Width));
    assert_eq!(
        RangedI16::<65531, 100>::compare(&i16::MAX.to_le_bytes(), &[]),
        Err(StoredBytesError::Range)
    );
    assert_eq!(
        RangedI16::<65531, 100>::compare(&(50 as i16).to_le_bytes(), &[]),
        Err(StoredBytesError::Width)
    );
    assert_eq!(
        OptionRangedI16::<65531, 100>::compare(&(50 as i16).to_le_bytes(), &[]),
        Err(StoredBytesError::Width)
    );
}

#[test]
fn stored_bytes_i32() {
    assert_eq!(RangedI32::<4294967291, 100>::fixed_width(), Some(core::mem::size_of::<i32>()));
    assert_eq!(RangedI32::<4294967291, 100>::primitive_name(), "i32");
    assert_eq!(OptionRangedI32::<4294967291, 100>::fixed_width(), Some(core::mem::size_of::<i32>()));
    assert_eq!(OptionRangedI32::<4294967291, 100>::primitive_name(), "i32");
    for v in -5..=100 as i32 {
        let x = RangedI32::<4294967291, 100>::new(v).unwrap();
        assert_eq!(x.as_bytes(), v.to_le_bytes().to_vec());
        assert!(matches!(RangedI32::<4294967291, 100>::from_bytes(&v.to_le_bytes()), Ok(y) if y == x));
        let x = OptionRangedI32::<4294967291, 100>::some_unchecked(v);
        assert_eq!(x.as_bytes(), v.to_le_bytes().to_vec());
        assert!(matches!(OptionRangedI32::<4294967291, 100>::from_bytes(&v.to_le_bytes()), Ok(y) if y == x));
        assert_eq!(
            RangedI32::<4294967291, 100>::compare(&v.to_le_bytes(), &(50 as i32).to_le_bytes()),
            Ok(v.cmp(&50))
        );
        assert_eq!(
            OptionRangedI32::<4294967291, 100>::compare(&v.to_le_bytes(), &i32::MIN.to_le_bytes()),
            Ok(Ordering::Greater)
        );
    }
    assert_eq!(OptionRangedI32::<4294967291, 100>::none().as_bytes(), i32::MIN.to_le_bytes().to_vec());
    assert!(matches!(OptionRangedI32::<4294967291, 100>::from_bytes(&i32::MIN.to_le_bytes()), Ok(y) if y.is_none()));
    assert_eq!(RangedI32::<4294967291, 100>::from_bytes(&i32::MAX.to_le_bytes()).err(), Some(StoredBytesError::Range));
    assert_eq!(OptionRangedI32::<4294967291, 100>::from_bytes(&i32::MAX.to_le_bytes()).err(), Some(StoredBytesError::Range));
    assert_eq!(RangedI32::<4294967291, 100>::from_bytes(&[]).err(), Some(StoredBytesError::Width));
    assert_eq!(OptionRangedI32::<4294967291, 100>::from_bytes(&[0; 17]).err(), Some(StoredBytesError::Width));
    assert_eq!(
        RangedI32::<4294967291, 100>::compare(&i32::MAX.to_le_bytes(), &[]),
        Err(StoredBytesError::Range)
    );
    assert_eq!(
        RangedI32::<4294967291, 100>::compare(&(50 as i32).to_le_bytes(), &[]),
        Err(StoredBytesError::Width)
    );
    assert_eq!(
        OptionRangedI32::<4294967291, 100>::compare(&(50 as i32).to_le_bytes(), &[]),
        Err(StoredBytesError::Width)
    );
}

#[test]
fn stored_bytes_i64() {
    assert_eq!(RangedI64::<18446744073709551611, 100>::fixed_width(), Some(core::mem::size_of::<i64>()));
    assert_eq!(RangedI64::<18446744073709551611, 100>::primitive_name(), "i64");
    assert_eq!(OptionRangedI64::<18446744073709551611, 100>::fixed_width(), Some(core::mem::size_of::<i64>()));
    assert_eq!(OptionRangedI64::<18446744073709551611, 100>::primitive_name(), "i64");
    for v in -5..=100 as i64 {
        let x = RangedI64::<18446744073709551611, 100>::new(v).unwrap();
        assert_eq!(x.as_bytes(), v.to_le_bytes().to_vec());
        assert!(matches!(RangedI64::<18446744073709551611, 100>::from_bytes(&v.to_le_bytes()), Ok(y) if y == x));
        let x = OptionRangedI64::<18446744073709551611, 100>::some_unchecked(v);
        assert_eq!(x.as_bytes(), v.to_le_bytes().to_vec());
        assert!(matches!(OptionRangedI64::<18446744073709551611, 100>::from_bytes(&v.to_le_bytes()), Ok(y) if y == x));
        assert_eq!(
            RangedI64::<18446744073709551611, 100>::compare(&v.to_le_bytes(), &(50 as i64).to_le_bytes()),
            Ok(v.cmp(&50))
        );
        assert_eq!(
            OptionRangedI64::<18446744073709551611, 100>::compare(&v.to_le_bytes(), &i64::MIN.to_le_bytes()),
            Ok(Ordering::Greater)
        );
    }
    assert_eq!(OptionRangedI64::<18446744073709551611, 100>::none().as_bytes(), i64::MIN.to_le_bytes().to_vec());
    assert!(matches!(OptionRangedI64::<18446744073709551611, 100>::from_bytes(&i64::MIN.to_le_bytes()), Ok(y) if y.is_none()));
    assert_eq!(RangedI64::<18446744073709551611, 100>::from_bytes(&i64::MAX.to_le_bytes()).err(), Some(StoredBytesError::Range));
    assert_eq!(OptionRangedI64::<18446744073709551611, 100>::from_bytes(&i64::MAX.to_le_bytes()).err(), Some(StoredBytesError::Range));
    assert_eq!(RangedI64::<18446744073709551611, 100>::from_bytes(&[]).err(), Some(StoredBytesError::Width));
    assert_eq!(OptionRangedI64::<18446744073709551611, 100>::from_bytes(&[0; 17]).err(), Some(StoredBytesError::Width));
    assert_eq!(
        RangedI64::<18446744073709551611, 100>::compare(&i64::MAX.to_le_bytes(), &[]),
        Err(StoredBytesError::Range)
    );
    assert_eq!(
        RangedI64::<18446744073709551611, 100>::compare(&(50 as i64).to_le_bytes(), &[]),
        Err(StoredBytesError::Width)
    );
    assert_eq!(
        OptionRangedI64::<18446744073709551611, 100>::compare(&(50 as i64).to_le_bytes(), &[]),
        Err(StoredBytesError::Width)
    );
}

#[test]
fn stored_bytes_i128() {
    assert_eq!(RangedI128::<340282366920938463463374607431768211451, 100>::fixed_width(), Some(core::mem::size_of::<i128>()));
    assert_eq!(RangedI128::<340282366920938463463374607431768211451, 100>::primitive_name(), "i128");
    assert_eq!(OptionRangedI128::<340282366920938463463374607431768211451, 100>::fixed_width(), Some(core::mem::size_of::<i128>()));
    assert_eq!(OptionRangedI128::<340282366920938463463374607431768211451, 100>::primitive_name(), "i128");
    for v in -5..=100 as i128 {
        let x = RangedI128::<340282366920938463463374607431768211451, 100>::new(v).unwrap();
        assert_eq!(x.as_bytes(), v.to_le_bytes().to_vec());
        assert!(matches!(RangedI128::<340282366920938463463374607431768211451, 100>::from_bytes(&v.to_le_bytes()), Ok(y) if y == x));
        let x = OptionRangedI128::<340282366920938463463374607431768211451, 100>::some_unchecked(v);
        assert_eq!(x.as_bytes(), v.to_le_bytes().to_vec());
        assert!(matches!(OptionRangedI128::<340282366920938463463374607431768211451, 100>::from_bytes(&v.to_le_bytes()), Ok(y) if y == x));
        assert_eq!(
            RangedI128::<340282366920938463463374607431768211451, 100>::compare(&v.to_le_bytes(), &(50 as i128).to_le_bytes()),
            Ok(v.cmp(&50))
        );
        assert_eq!(
            OptionRangedI128::<340282366920938463463374607431768211451, 100>::compare(&v.to_le_bytes(), &i128::MIN.to_le_bytes()),
            Ok(Ordering::Greater)
        );
    }
    assert_eq!(OptionRangedI128::<340282366920938463463374607431768211451, 100>::none().as_bytes(), i128::MIN.to_le_bytes().to_vec());
    assert!(matches!(OptionRangedI128::<340282366920938463463374607431768211451, 100>::from_bytes(&i128::MIN.to_le_bytes()), Ok(y) if y.is_none()));
    assert_eq!(RangedI128::<340282366920938463463374607431768211451, 100>::from_bytes(&i128::MAX.to_le_bytes()).err(), Some(StoredBytesError::Range));
    assert_eq!(OptionRangedI128::<340282366920938463463374607431768211451, 100>::from_bytes(&i128::MAX.to_le_bytes()).err(), Some(StoredBytesError::Range));
    assert_eq!(RangedI128::<340282366920938463463374607431768211451, 100>::from_bytes(&[]).err(), Some(StoredBytesError::Width));
    assert_eq!(OptionRangedI128::<340282366920938463463374607431768211451, 100>::from_bytes(&[0; 17]).err(), Some(StoredBytesError::Width));
    assert_eq!(
        RangedI128::<340282366920938463463374607431768211451, 100>::compare(&i128::MAX.to_le_bytes(), &[]),
        Err(StoredBytesError::Range)
    );
    assert_eq!(
        RangedI128::<340282366920938463463374607431768211451, 100>::compare(&(50 as i128).to_le_bytes(), &[]),
        Err(StoredBytesError::Width)
    );
    assert_eq!(
        OptionRangedI128::<340282366920938463463374607431768211451, 100>::compare(&(50 as i128).to_le_bytes(), &[]),
        Err(StoredBytesError::Width)
    );
}

#[test]
fn stored_bytes_isize() {
    assert_eq!(RangedIsize::<18446744073709551611, 100>::fixed_width(), Some(core::mem::size_of::<isize>()));
    assert_eq!(RangedIsize::<18446744073709551611, 100>::primitive_name(), "isize");
    assert_eq!(OptionRangedIsize::<18446744073709551611, 100>::fixed_width(), Some(core::mem::size_of::<isize>()));
    assert_eq!(OptionRangedIsize::<18446744073709551611, 100>::primitive_name(), "isize");
    for v in -5..=100 as isize {
        let x = RangedIsize::<18446744073709551611, 100>::new(v).unwrap();
        assert_eq!(x.as_bytes(), v.to_le_bytes().to_vec());
        assert!(matches!(RangedIsize::<18446744073709551611, 100>::from_bytes(&v.to_le_bytes()), Ok(y) if y == x));
        let x = OptionRangedIsize::<18446744073709551611, 100>::some_unchecked(v);
        assert_eq!(x.as_bytes(), v.to_le_bytes().to_vec());
        assert!(matches!(OptionRangedIsize::<18446744073709551611, 100>::from_bytes(&v.to_le_bytes()), Ok(y) if y == x));
        assert_eq!(
            RangedIsize::<18446744073709551611, 100>::compare(&v.to_le_bytes(), &(50 as isize).to_le_bytes()),
            Ok(v.cmp(&50))
        );
        assert_eq!(
            OptionRangedIsize::<18446744073709551611, 100>::compare(&v.to_le_bytes(), &isize::MIN.to_le_bytes()),
            Ok(Ordering::Greater)
        );
    }
    assert_eq!(OptionRangedIsize::<18446744073709551611, 100>::none().as_bytes(), isize::MIN.to_le_bytes().to_vec());
    assert!(matches!(OptionRangedIsize::<18446744073709551611, 100>::from_bytes(&isize::MIN.to_le_bytes()), Ok(y) if y.is_none()));
    assert_eq!(RangedIsize::<18446744073709551611, 100>::from_bytes(&isize::MAX.to_le_bytes()).err(), Some(StoredBytesError::Range));
    assert_eq!(OptionRangedIsize::<18446744073709551611, 100>::from_bytes(&isize::MAX.to_le_bytes()).err(), Some(StoredBytesError::Range));
    assert_eq!(RangedIsize::<18446744073709551611, 100>::from_bytes(&[]).err(), Some(StoredBytesError::Width));
    assert_eq!(OptionRangedIsize::<18446744073709551611, 100>::from_bytes(&[0; 17]).err(), Some(StoredBytesError::Width));
    assert_eq!(
        RangedIsize::<18446744073709551611, 100>::compare(&isize::MAX.to_le_bytes(), &[]),
        Err(StoredBytesError::Range)
    );
    assert_eq!(
        RangedIsize::<18446744073709551611, 100>::compare(&(50 as isize).to_le_bytes(), &[]),
        Err(StoredBytesError::Width)
    );
    assert_eq!(
        OptionRangedIsize::<18446744073709551611, 100>::compare(&(50 as isize).to_le_bytes(), &[]),
        Err(StoredBytesError::Width)
    );
}

#[test]
fn database_integer_u8() {
    assert!(RangedU8::<5, 100>::fits_sql_storage());
    assert_eq!(RangedU8::<0, 255>::fits_sql_storage(), true);
    assert_eq!(RangedU8::<5, 100>::new(100).unwrap().to_sql(), 100i16);
    assert_eq!(RangedU8::<5, 100>::new(5).unwrap().to_sql(), 5i16);
    for v in 5..=100i16 {
        assert!(matches!(RangedU8::<5, 100>::from_sql(v), Ok(x) if x.to_sql() == v));
    }
    assert_eq!(RangedU8::<5, 100>::from_sql(5 - 1).err(), Some(TryFromIntError));
    assert_eq!(RangedU8::<5, 100>::from_sql(101).err(), Some(TryFromIntError));
    assert_eq!(RangedU8::<5, 100>::from_sql(i16::MIN).err(), Some(TryFromIntError));
    assert_eq!(RangedU8::<5, 100>::from_sql(i16::MAX).err(), Some(TryFromIntError));
}

#[test]
fn database_integer_u16() {
    assert!(RangedU16::<5, 100>::fits_sql_storage());
    assert_eq!(RangedU16::<0, 65535>::fits_sql_storage(), false);
    assert_eq!(RangedU16::<5, 100>::new(100).unwrap().to_sql(), 100i16);
    assert_eq!(RangedU16::<5, 100>::new(5).unwrap().to_sql(), 5i16);
    for v in 5..=100i16 {
        assert!(matches!(RangedU16::<5, 100>::from_sql(v), Ok(x) if x.to_sql() == v));
    }
    assert_eq!(RangedU16::<5, 100>::from_sql(5 - 1).err(), Some(TryFromIntError));
    assert_eq!(RangedU16::<5, 100>::from_sql(101).err(), Some(TryFromIntError));
    assert_eq!(RangedU16::<5, 100>::from_sql(i16::MIN).err(), Some(TryFromIntError));
    assert_eq!(RangedU16::<5, 100>::from_sql(i16::MAX).err(), Some(TryFromIntError));
}

#[test]
fn database_integer_u32() {
    assert!(RangedU32::<5, 100>::fits_sql_storage());
    assert_eq!(RangedU32::<0, 4294967295>::fits_sql_storage(), false);
    assert_eq!(RangedU32::<5, 100>::new(100).unwrap().to_sql(), 100i32);
    assert_eq!(RangedU32::<5, 100>::new(5).unwrap().to_sql(), 5i32);
    for v in 5..=100i32 {
        assert!(matches!(RangedU32::<5, 100>::from_sql(v), Ok(x) if x.to_sql() == v));
    }
    assert_eq!(RangedU32::<5, 100>::from_sql(5 - 1).err(), Some(TryFromIntError));
    assert_eq!(RangedU32::<5, 100>::from_sql(101).err(), Some(TryFromIntError));
    assert_eq!(RangedU32::<5, 100>::from_sql(i32::MIN).err(), Some(TryFromIntError));
    assert_eq!(RangedU32::<5, 100>::from_sql(i32::MAX).err(), Some(TryFromIntError));
}

#[test]
fn database_integer_u64() {
    assert!(RangedU64::<5, 100>::fits_sql_storage());
    assert_eq!(RangedU64::<0, 18446744073709551615>::fits_sql_storage(), false);
    assert_eq!(RangedU64::<5, 100>::new(100).unwrap().to_sql(), 100i64);
    assert_eq!(RangedU64::<5, 100>::new(5).unwrap().to_sql(), 5i64);
    for v in 5..=100i64 {
        assert!(matches!(RangedU64::<5, 100>::from_sql(v), Ok(x) if x.to_sql() == v));
    }
    assert_eq!(RangedU64::<5, 100>::from_sql(5 - 1).err(), Some(TryFromIntError));
    assert_eq!(RangedU64::<5, 100>::from_sql(101).err(), Some(TryFromIntError));
    assert_eq!(RangedU64::<5, 100>::from_sql(i64::MIN).err(), Some(TryFromIntError));
    assert_eq!(RangedU64::<5, 100>::from_sql(i64::MAX).err(), Some(TryFromIntError));
}

#[test]
fn database_integer_i8() {
    assert!(RangedI8::<251, 100>::fits_sql_storage());
    assert_eq!(RangedI8::<0, 127>::fits_sql_storage(), true);
    assert_eq!(RangedI8::<251, 100>::new(100).unwrap().to_sql(), 100i16);
    assert_eq!(RangedI8::<251, 100>::new(-5).unwrap().to_sql(), -5i16);
    for v in -5..=100i16 {
        assert!(matches!(RangedI8::<251, 100>::from_sql(v), Ok(x) if x.to_sql() == v));
    }
    assert_eq!(RangedI8::<251, 100>::from_sql(-5 - 1).err(), Some(TryFromIntError));
    assert_eq!(RangedI8::<251, 100>::from_sql(101).err(), Some(TryFromIntError));
    assert_eq!(RangedI8::<251, 100>::from_sql(i16::MIN).err(), Some(TryFromIntError));
    assert_eq!(RangedI8::<251, 100>::from_sql(i16::MAX).err(), Some(TryFromIntError));
}

#[test]
fn database_integer_i16() {
    assert!(RangedI16::<65531, 100>::fits_sql_storage());
    assert_eq!(RangedI16::<0, 32767>::fits_sql_storage(), true);
    assert_eq!(RangedI16::<65531, 100>::new(100).unwrap().to_sql(), 100i16);
    assert_eq!(RangedI16::<65531, 100>::new(-5).unwrap().to_sql(), -5i16);
    for v in -5..=100i16 {
        assert!(matches!(RangedI16::<65531, 100>::from_sql(v), Ok(x) if x.to_sql() == v));
    }
    assert_eq!(RangedI16::<65531, 100>::from_sql(-5 - 1).err(), Some(TryFromIntError));
    assert_eq!(RangedI16::<65531, 100>::from_sql(101).err(), Some(TryFromIntError));
    assert_eq!(RangedI16::<65531, 100>::from_sql(i16::MIN).err(), Some(TryFromIntError));
    assert_eq!(RangedI16::<65531, 100>::from_sql(i16::MAX).err(), Some(TryFromIntError));
}

#[test]
fn database_integer_i32() {
    assert!(RangedI32::<4294967291, 100>::fits_sql_storage());
    assert_eq!(RangedI32::<0, 2147483647>::fits_sql_storage(), true);
    assert_eq!(RangedI32::<4294967291, 100>::new(100).unwrap().to_sql(), 100i32);
    assert_eq!(RangedI32::<4294967291, 100>::new(-5).unwrap().to_sql(), -5i32);
    for v in -5..=100i32 {
        assert!(matches!(RangedI32::<4294967291, 100>::from_sql(v), Ok(x) if x.to_sql() == v));
    }
    assert_eq!(RangedI32::<4294967291, 100>::from_sql(-5 - 1).err(), Some(TryFromIntError));
    assert_eq!(RangedI32::<4294967291, 100>::from_sql(101).err(), Some(TryFromIntError));
    assert_eq!(RangedI32::<4294967291, 100>::from_sql(i32::MIN).err(), Some(TryFromIntError));
    assert_eq!(RangedI32::<4294967291, 100>::from_sql(i32::MAX).err(), Some(TryFromIntError));
}

#[test]
fn database_integer_i64() {
    assert!(RangedI64::<18446744073709551611, 100>::fits_sql_storage());
    assert_eq!(RangedI64::<0, 9223372036854775807>::fits_sql_storage(), true);
    assert_eq!(RangedI64::<18446744073709551611, 100>::new(100).unwrap().to_sql(), 100i64);
    assert_eq!(RangedI64::<18446744073709551611, 100>::new(-5).unwrap().to_sql(), -5i64);
    for v in -5..=100i64 {
        assert!(matches!(RangedI64::<18446744073709551611, 100>::from_sql(v), Ok(x) if x.to_sql() == v));
    }
    assert_eq!(RangedI64::<18446744073709551611, 100>::from_sql(-5 - 1).err(), Some(TryFromIntError));
    assert_eq!(RangedI64::<18446744073709551611, 100>::from_sql(101).err(), Some(TryFromIntError));
    assert_eq!(RangedI64::<18446744073709551611, 100>::from_sql(i64::MIN).err(), Some(TryFromIntError));
    assert_eq!(RangedI64::<18446744073709551611, 100>::from_sql(i64::MAX).err(), Some(TryFromIntError));
}

#[test]
fn database_decimal() {
    let read = |text: &str| {
        let (unscaled, scale) = parts(text);
        RangedU128::<5, 340282366920938463463374607431768211455>::from_decimal(&unscaled, scale)
            .map(|x| x.get())
    };
    assert_eq!(read("5"), Ok(5));
    assert_eq!(read("5.000"), Ok(5));
    assert_eq!(read("12e2"), Ok(1200));
    assert_eq!(read("1200e-2"), Ok(12));
    assert_eq!(read("340282366920938463463374607431768211455"), Ok(u128::MAX));
    assert_eq!(read("340282366920938463463374607431768211456"), Err(TryFromIntError));
    assert_eq!(read("5.5"), Err(TryFromIntError));
    assert_eq!(read("4"), Err(TryFromIntError));
    assert_eq!(read("0"), Err(TryFromIntError));
    assert_eq!(read("-7"), Err(TryFromIntError));
    assert_eq!(read("1e300"), Err(TryFromIntError));
}

#[test]
fn database_decimal_of_a_value() {
    for v in [0, 1, 127, 128, 255, 256, u64::MAX as u128, u128::MAX / 2, u128::MAX] {
        let x = RangedU128::<0, 340282366920938463463374607431768211455>::new(v).unwrap();
        let (unscaled, scale) = x.to_decimal();
        assert_eq!(scale, 0);
        assert_eq!(
            BigDecimal::new(BigInt::from_signed_bytes_le(&unscaled), scale),
            BigDecimal::from(v)
        );
        let y = RangedU128::<0, 340282366920938463463374607431768211455>::from_decimal(
            &unscaled, scale,
        );
        assert!(matches!(y, Ok(y) if y == x));
    }
    assert!(matches!(RangedU128::<0, 9>::from_decimal(&[], 3), Ok(x) if x.get() == 0));
}

#[test]
fn database_decimal_of_another_range() {
    let (unscaled, scale) = RangedU128::<0, 300>::new(200).unwrap().to_decimal();
    assert!(matches!(
        RangedU128::<100, 250>::from_decimal(&unscaled, scale),
        Ok(x) if x.get() == 200
    ));
    assert_eq!(
        RangedU128::<0, 100>::from_decimal(&unscaled, scale).err(),
        Some(TryFromIntError)
    );
}

#[test]
fn database_decimal_of_extreme_scale() {
    for scale in [i64::MIN, -1_000_000, -39, -38, 0, 2, 3, 6, 1_000_000, i64::MAX] {
        assert!(matches!(RangedU128::<0, 9>::from_decimal(&[0, 0], scale), Ok(x) if x.get() == 0));
        assert_eq!(
            RangedU128::<1, 9>::from_decimal(&[0, 0], scale).err(),
            Some(TryFromIntError)
        );
    }
    for scale in [i64::MIN, -1_000_000, -39, 1, 5, 6, 1_000_000, i64::MAX] {
        let read =
            RangedU128::<0, 340282366920938463463374607431768211455>::from_decimal(&[1], scale);
        assert_eq!(read.err(), Some(TryFromIntError));
        let read =
            RangedU128::<0, 340282366920938463463374607431768211455>::from_decimal(&[255], scale);
        assert_eq!(read.err(), Some(TryFromIntError));
    }
    let read = RangedU128::<0, 340282366920938463463374607431768211455>::from_decimal(&[1], -38);
    assert!(matches!(read, Ok(x) if x.get() == 10u128.pow(38)));
    assert!(matches!(RangedU128::<0, 9>::from_decimal(&[232, 3], 3), Ok(x) if x.get() == 1));
}
