//! Reading ranged integers from text.

use core::str::FromStr;
use deranged::{
    assert_error_kind, failed_with, parse_int_error_from_kind, IntErrorKind, RangedI128, RangedI16,
    RangedI32, RangedI64, RangedI8, RangedIsize, RangedU128, RangedU16, RangedU32, RangedU64,
    RangedU8, RangedUsize,
};

/// The kind of a standard library error, in the library's own type.
fn kind_of(error: core::num::ParseIntError) -> IntErrorKind {
    match error.kind() {
        core::num::IntErrorKind::Empty => IntErrorKind::Empty,
        core::num::IntErrorKind::InvalidDigit => IntErrorKind::InvalidDigit,
        core::num::IntErrorKind::PosOverflow => IntErrorKind::PosOverflow,
        core::num::IntErrorKind::NegOverflow => IntErrorKind::NegOverflow,
        _ => IntErrorKind::Zero,
    }
}

const TEXTS: [&str; 46] = [
    "", "+", "-", "0", "-0", "+0", "00", "007", "7", "+7", "-7", "--7", "+-7", "-+7", "++7", " 7",
    "7 ", "7_0", "z", "Z", "-z", "ff", "FF", "fF", "100", "127", "128", "255", "256", "-127",
    "-128", "-129", "32768", "65536", "99999999999999999999", "-99999999999999999999",
    "999999999999999999999999999999999999999999", "-999999999999999999999999999999999999999999",
    "256x", "x256", "9999999999x", "-9999999999x", "\u{e9}", "1\u{e9}", ":>", "1.5",
];

#[test]
fn hexadecimal_digit_is_read_as_u8() {
    assert!(
        RangedU8::<5, 10>::from_str_radix("A", 16) == Ok(RangedU8::<5, 10>::new_static::<10>())
    );
}

#[test]
fn hexadecimal_digit_is_read_as_u16() {
    assert!(
        RangedU16::<5, 10>::from_str_radix("A", 16) == Ok(RangedU16::<5, 10>::new_static::<10>())
    );
}

#[test]
fn hexadecimal_digit_is_read_as_u32() {
    assert!(
        RangedU32::<5, 10>::from_str_radix("A", 16) == Ok(RangedU32::<5, 10>::new_static::<10>())
    );
}

#[test]
fn hexadecimal_digit_is_read_as_u64() {
    assert!(
        RangedU64::<5, 10>::from_str_radix("A", 16) == Ok(RangedU64::<5, 10>::new_static::<10>())
    );
}

#[test]
fn hexadecimal_digit_is_read_as_u128() {
    assert!(
        RangedU128::<5, 10>::from_str_radix("A", 16) == Ok(RangedU128::<5, 10>::new_static::<10>())
    );
}

#[test]
fn hexadecimal_digit_is_read_as_usize() {
    assert!(
        RangedUsize::<5, 10>::from_str_radix("A", 16) == Ok(RangedUsize::<5, 10>::new_static::<10>())
    );
}

#[test]
fn hexadecimal_digit_is_read_as_i8() {
    assert!(
        RangedI8::<5, 10>::from_str_radix("A", 16) == Ok(RangedI8::<5, 10>::new_static::<10>())
    );
}

#[test]
fn hexadecimal_digit_is_read_as_i16() {
    assert!(
        RangedI16::<5, 10>::from_str_radix("A", 16) == Ok(RangedI16::<5, 10>::new_static::<10>())
    );
}

#[test]
fn hexadecimal_digit_is_read_as_i32() {
    assert!(
        RangedI32::<5, 10>::from_str_radix("A", 16) == Ok(RangedI32::<5, 10>::new_static::<10>())
    );
}

#[test]
fn hexadecimal_digit_is_read_as_i64() {
    assert!(
        RangedI64::<5, 10>::from_str_radix("A", 16) == Ok(RangedI64::<5, 10>::new_static::<10>())
    );
}

#[test]
fn hexadecimal_digit_is_read_as_i128() {
    assert!(
        RangedI128::<5, 10>::from_str_radix("A", 16) == Ok(RangedI128::<5, 10>::new_static::<10>())
    );
}

#[test]
fn hexadecimal_digit_is_read_as_isize() {
    assert!(
        RangedIsize::<5, 10>::from_str_radix("A", 16) == Ok(RangedIsize::<5, 10>::new_static::<10>())
    );
}

#[test]
fn whole_word_reads_as_the_primitive_does_u8() {
    for text in TEXTS {
        for radix in [2, 8, 10, 16, 36] {
            let ours = RangedU8::<0, 255>::from_str_radix(text, radix);
            match u8::from_str_radix(text, radix) {
                Ok(value) => assert!(matches!(ours, Ok(x) if x.get() == value)),
                Err(error) => {
                    assert!(matches!(ours, Err(e) if *e.kind() == kind_of(error.clone())))
                }
            }
        }
    }
}

#[test]
fn whole_word_reads_as_the_primitive_does_u16() {
    for text in TEXTS {
        for radix in [2, 8, 10, 16, 36] {
            let ours = RangedU16::<0, 65535>::from_str_radix(text, radix);
            match u16::from_str_radix(text, radix) {
                Ok(value) => assert!(matches!(ours, Ok(x) if x.get() == value)),
                Err(error) => {
                    assert!(matches!(ours, Err(e) if *e.kind() == kind_of(error.clone())))
                }
            }
        }
    }
}

#[test]
fn whole_word_reads_as_the_primitive_does_u32() {
    for text in TEXTS {
        for radix in [2, 8, 10, 16, 36] {
            let ours = RangedU32::<0, 4294967295>::from_str_radix(text, radix);
            match u32::from_str_radix(text, radix) {
                Ok(value) => assert!(matches!(ours, Ok(x) if x.get() == value)),
                Err(error) => {
                    assert!(matches!(ours, Err(e) if *e.kind() == kind_of(error.clone())))
                }
            }
        }
    }
}

#[test]
fn whole_word_reads_as_the_primitive_does_u64() {
    for text in TEXTS {
        for radix in [2, 8, 10, 16, 36] {
            let ours = RangedU64::<0, 18446744073709551615>::from_str_radix(text, radix);
            match u64::from_str_radix(text, radix) {
                Ok(value) => assert!(matches!(ours, Ok(x) if x.get() == value)),
                Err(error) => {
                    assert!(matches!(ours, Err(e) if *e.kind() == kind_of(error.clone())))
                }
            }
        }
    }
}

#[test]
fn whole_word_reads_as_the_primitive_does_u128() {
    for text in TEXTS {
        for radix in [2, 8, 10, 16, 36] {
            let ours = RangedU128::<0, 340282366920938463463374607431768211455>::from_str_radix(text, radix);
            match u128::from_str_radix(text, radix) {
                Ok(value) => assert!(matches!(ours, Ok(x) if x.get() == value)),
                Err(error) => {
                    assert!(matches!(ours, Err(e) if *e.kind() == kind_of(error.clone())))
                }
            }
        }
    }
}

#[test]
fn whole_word_reads_as_the_primitive_does_usize() {
    for text in TEXTS {
        for radix in [2, 8, 10, 16, 36] {
            let ours = RangedUsize::<0, 18446744073709551615>::from_str_radix(text, radix);
            match usize::from_str_radix(text, radix) {
                Ok(value) => assert!(matches!(ours, Ok(x) if x.get() == value)),
                Err(error) => {
                    assert!(matches!(ours, Err(e) if *e.kind() == kind_of(error.clone())))
                }
            }
        }
    }
}

#[test]
fn whole_word_reads_as_the_primitive_does_i8() {
    for text in TEXTS {
        for radix in [2, 8, 10, 16, 36] {
            let ours = RangedI8::<128, 127>::from_str_radix(text, radix);
            match i8::from_str_radix(text, radix) {
                Ok(value) => assert!(matches!(ours, Ok(x) if x.get() == value)),
                Err(error) => {
                    assert!(matches!(ours, Err(e) if *e.kind() == kind_of(error.clone())))
                }
            }
        }
    }
}

#[test]
fn whole_word_reads_as_the_primitive_does_i16() {
    for text in TEXTS {
        for radix in [2, 8, 10, 16, 36] {
            let ours = RangedI16::<32768, 32767>::from_str_radix(text, radix);
            match i16::from_str_radix(text, radix) {
                Ok(value) => assert!(matches!(ours, Ok(x) if x.get() == value)),
                Err(error) => {
                    assert!(matches!(ours, Err(e) if *e.kind() == kind_of(error.clone())))
                }
            }
        }
    }
}

#[test]
fn whole_word_reads_as_the_primitive_does_i32() {
    for text in TEXTS {
        for radix in [2, 8, 10, 16, 36] {
            let ours = RangedI32::<2147483648, 2147483647>::from_str_radix(text, radix);
            match i32::from_str_radix(text, radix) {
                Ok(value) => assert!(matches!(ours, Ok(x) if x.get() == value)),
                Err(error) => {
                    assert!(matches!(ours, Err(e) if *e.kind() == kind_of(error.clone())))
                }
            }
        }
    }
}

#[test]
fn whole_word_reads_as_the_primitive_does_i64() {
    for text in TEXTS {
        for radix in [2, 8, 10, 16, 36] {
            let ours = RangedI64::<9223372036854775808, 9223372036854775807>::from_str_radix(text, radix);
            match i64::from_str_radix(text, radix) {
                Ok(value) => assert!(matches!(ours, Ok(x) if x.get() == value)),
                Err(error) => {
                    assert!(matches!(ours, Err(e) if *e.kind() == kind_of(error.clone())))
                }
            }
        }
    }
}

#[test]
fn whole_word_reads_as_the_primitive_does_i128() {
    for text in TEXTS {
        for radix in [2, 8, 10, 16, 36] {
            let ours = RangedI128::<170141183460469231731687303715884105728, 170141183460469231731687303715884105727>::from_str_radix(text, radix);
            match i128::from_str_radix(text, radix) {
                Ok(value) => assert!(matches!(ours, Ok(x) if x.get() == value)),
                Err(error) => {
                    assert!(matches!(ours, Err(e) if *e.kind() == kind_of(error.clone())))
                }
            }
        }
    }
}

#[test]
fn whole_word_reads_as_the_primitive_does_isize() {
    for text in TEXTS {
        for radix in [2, 8, 10, 16, 36] {
            let ours = RangedIsize::<9223372036854775808, 9223372036854775807>::from_str_radix(text, radix);
            match isize::from_str_radix(text, radix) {
                Ok(value) => assert!(matches!(ours, Ok(x) if x.get() == value)),
                Err(error) => {
                    assert!(matches!(ours, Err(e) if *e.kind() == kind_of(error.clone())))
                }
            }
        }
    }
}

#[test]
fn parse_error_kinds() {
    assert!(failed_with(RangedU8::<0, 255>::from_str_radix("", 10), IntErrorKind::Empty));
    assert!(failed_with(
        RangedI32::<2147483648, 2147483647>::from_str_radix(":>", 10),
        IntErrorKind::InvalidDigit
    ));
    assert!(failed_with(
        RangedU8::<0, 255>::from_str_radix("256", 10),
        IntErrorKind::PosOverflow
    ));
    assert!(failed_with(
        RangedI8::<128, 127>::from_str_radix("-129", 10),
        IntErrorKind::NegOverflow
    ));
    assert!(!failed_with(
        RangedI8::<128, 127>::from_str_radix("-129", 10),
        IntErrorKind::PosOverflow
    ));
    assert!(!failed_with(
        RangedI8::<128, 127>::from_str_radix("-128", 10),
        IntErrorKind::NegOverflow
    ));
}

#[test]
fn asserted_parse_error_kinds() {
    assert_error_kind(RangedU8::<0, 255>::from_str_radix("", 10), IntErrorKind::Empty);
    assert_error_kind(
        RangedI32::<2147483648, 2147483647>::from_str_radix(":>", 10),
        IntErrorKind::InvalidDigit,
    );
    assert_error_kind(RangedU8::<0, 255>::from_str_radix("256", 10), IntErrorKind::PosOverflow);
    assert_error_kind(RangedI8::<128, 127>::from_str_radix("-129", 10), IntErrorKind::NegOverflow);
}

#[test]
fn parse_error_is_the_one_of_its_kind() {
    for text in ["", "x", "256"] {
        let error = RangedU8::<0, 255>::from_str_radix(text, 10).err().unwrap();
        assert_eq!(parse_int_error_from_kind(*error.kind()), error);
    }
    assert!(!failed_with(
        RangedU8::<0, 255>::from_str_radix("256", 10),
        IntErrorKind::NegOverflow
    ));
    assert!(!failed_with(
        RangedU8::<0, 255>::from_str_radix("255", 10),
        IntErrorKind::PosOverflow
    ));
}

#[test]
fn parse_error_keeps_its_kind() {
    for kind in [
        IntErrorKind::Empty,
        IntErrorKind::InvalidDigit,
        IntErrorKind::PosOverflow,
        IntErrorKind::NegOverflow,
        IntErrorKind::Zero,
    ] {
        assert_eq!(*parse_int_error_from_kind(kind).kind(), kind);
    }
}

#[test]
fn value_beside_the_range_overflows() {
    assert!(failed_with(
        RangedU8::<5, 10>::from_str_radix("11", 10),
        IntErrorKind::PosOverflow
    ));
    assert!(failed_with(
        RangedU8::<5, 10>::from_str_radix("4", 10),
        IntErrorKind::NegOverflow
    ));
    assert!(failed_with(
        RangedI8::<251, 5>::from_str_radix("-6", 10),
        IntErrorKind::NegOverflow
    ));
    assert!(failed_with(
        RangedI8::<251, 5>::from_str_radix("6", 10),
        IntErrorKind::PosOverflow
    ));
    assert!(matches!(RangedI8::<251, 5>::from_str_radix("-5", 10), Ok(x) if x.get() == -5));
}

#[test]
fn negative_text_is_no_unsigned_integer() {
    assert!(failed_with(
        RangedU16::<0, 10>::from_str_radix("-1", 10),
        IntErrorKind::InvalidDigit
    ));
    assert!(failed_with(
        RangedU16::<0, 10>::from_str_radix("-", 10),
        IntErrorKind::InvalidDigit
    ));
}

#[test]
fn from_str_reads_decimal() {
    assert!(matches!(RangedI16::<0, 300>::from_str("299"), Ok(x) if x.get() == 299));
    assert!(matches!("+7".parse::<RangedU64<0, 9>>(), Ok(x) if x.get() == 7));
    assert!(matches!("a".parse::<RangedU64<0, 9>>(), Err(e) if *e.kind() == IntErrorKind::InvalidDigit));
    assert!(matches!(
        "-170141183460469231731687303715884105728"
            .parse::<RangedI128<170141183460469231731687303715884105728, 0>>(),
        Ok(x) if x.get() == i128::MIN
    ));
}
