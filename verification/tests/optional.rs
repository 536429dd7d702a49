//! Optional ranged integers.

use core::cmp::Ordering;

use deranged::{
    OptionRangedI128, OptionRangedI16, OptionRangedI32, OptionRangedI64, OptionRangedI8,
    OptionRangedIsize, OptionRangedU128, OptionRangedU16, OptionRangedU32, OptionRangedU64,
    OptionRangedU8, OptionRangedUsize, Option_ru8, RangedI128, RangedI16, RangedI32, RangedI64,
    RangedI8, RangedIsize, RangedU128, RangedU16, RangedU32, RangedU64, RangedU8, RangedUsize,
};

#[test]
fn optional_values_u8() {
    let none = OptionRangedU8::<5, 10>::none();
    let seven = OptionRangedU8::<5, 10>::some(RangedU8::<5, 10>::new(7).unwrap());
    assert!(none.is_none() && !none.is_some());
    assert!(seven.is_some() && !seven.is_none());
    assert!(none.get().is_none());
    assert!(matches!(seven.get(), Some(x) if x.get() == 7));
    assert_eq!(none.get_primitive(), None);
    assert_eq!(seven.get_primitive(), Some(7));
    assert_eq!(none.get_primitive_without_hint(), None);
    assert_eq!(seven.get_primitive_without_hint(), Some(7));
    assert_eq!(OptionRangedU8::<5, 10>::some_unchecked(9).get_primitive(), Some(9));
    assert_eq!(none.inner(), u8::MIN);
    assert_eq!(OptionRangedU8::<0, 10>::none().inner(), u8::MAX);
    assert_eq!(seven.inner(), 7);
    assert!(OptionRangedU8::<5, 10>::default() == none);
    assert!(OptionRangedU8::<5, 10>::from(RangedU8::<5, 10>::new(7).unwrap()) == seven);
    assert!(OptionRangedU8::<5, 10>::from(RangedU8::<5, 10>::new(7)) == seven);
    assert!(OptionRangedU8::<5, 10>::from(RangedU8::<5, 10>::new(11)) == none);
    assert!(Option::<RangedU8<5, 10>>::from(seven) == RangedU8::<5, 10>::new(7));
    assert!(Option::<RangedU8<5, 10>>::from(none).is_none());
    assert!(matches!(OptionRangedU8::<5, 10>::from_inner(u8::MIN), Some(x) if x.is_none()));
    assert!(matches!(OptionRangedU8::<5, 10>::from_inner(7), Some(x) if x == seven));
    assert!(OptionRangedU8::<5, 10>::from_inner(11).is_none());
    assert!(OptionRangedU8::<5, 10>::from_inner(5 - 1).is_none());
    let eight = OptionRangedU8::<5, 10>::some_unchecked(8);
    assert_eq!(none.cmp(&none), Ordering::Equal);
    assert_eq!(none.cmp(&seven), Ordering::Less);
    assert_eq!(seven.cmp(&none), Ordering::Greater);
    assert_eq!(seven.cmp(&eight), Ordering::Less);
    assert_eq!(eight.cmp(&seven), Ordering::Greater);
    assert_eq!(seven.cmp(&seven), Ordering::Equal);
    assert_eq!(none.partial_cmp(&none), Some(Ordering::Equal));
    assert_eq!(none.partial_cmp(&seven), Some(Ordering::Less));
    assert_eq!(seven.partial_cmp(&none), Some(Ordering::Greater));
    assert_eq!(eight.partial_cmp(&seven), Some(Ordering::Greater));
    assert!(seven != eight && none != seven);
    assert_eq!(core::mem::size_of::<OptionRangedU8::<5, 10>>(), core::mem::size_of::<u8>());
}

#[test]
fn optional_values_u16() {
    let none = OptionRangedU16::<5, 10>::none();
    let seven = OptionRangedU16::<5, 10>::some(RangedU16::<5, 10>::new(7).unwrap());
    assert!(none.is_none() && !none.is_some());
    assert!(seven.is_some() && !seven.is_none());
    assert!(none.get().is_none());
    assert!(matches!(seven.get(), Some(x) if x.get() == 7));
    assert_eq!(none.get_primitive(), None);
    assert_eq!(seven.get_primitive(), Some(7));
    assert_eq!(none.get_primitive_without_hint(), None);
    assert_eq!(seven.get_primitive_without_hint(), Some(7));
    assert_eq!(OptionRangedU16::<5, 10>::some_unchecked(9).get_primitive(), Some(9));
    assert_eq!(none.inner(), u16::MIN);
    assert_eq!(OptionRangedU16::<0, 10>::none().inner(), u16::MAX);
    assert_eq!(seven.inner(), 7);
    assert!(OptionRangedU16::<5, 10>::default() == none);
    assert!(OptionRangedU16::<5, 10>::from(RangedU16::<5, 10>::new(7).unwrap()) == seven);
    assert!(OptionRangedU16::<5, 10>::from(RangedU16::<5, 10>::new(7)) == seven);
    assert!(OptionRangedU16::<5, 10>::from(RangedU16::<5, 10>::new(11)) == none);
    assert!(Option::<RangedU16<5, 10>>::from(seven) == RangedU16::<5, 10>::new(7));
    assert!(Option::<RangedU16<5, 10>>::from(none).is_none());
    assert!(matches!(OptionRangedU16::<5, 10>::from_inner(u16::MIN), Some(x) if x.is_none()));
    assert!(matches!(OptionRangedU16::<5, 10>::from_inner(7), Some(x) if x == seven));
    assert!(OptionRangedU16::<5, 10>::from_inner(11).is_none());
    assert!(OptionRangedU16::<5, 10>::from_inner(5 - 1).is_none());
    let eight = OptionRangedU16::<5, 10>::some_unchecked(8);
    assert_eq!(none.cmp(&none), Ordering::Equal);
    assert_eq!(none.cmp(&seven), Ordering::Less);
    assert_eq!(seven.cmp(&none), Ordering::Greater);
    assert_eq!(seven.cmp(&eight), Ordering::Less);
    assert_eq!(eight.cmp(&seven), Ordering::Greater);
    assert_eq!(seven.cmp(&seven), Ordering::Equal);
    assert_eq!(none.partial_cmp(&none), Some(Ordering::Equal));
    assert_eq!(none.partial_cmp(&seven), Some(Ordering::Less));
    assert_eq!(seven.partial_cmp(&none), Some(Ordering::Greater));
    assert_eq!(eight.partial_cmp(&seven), Some(Ordering::Greater));
    assert!(seven != eight && none != seven);
    assert_eq!(core::mem::size_of::<OptionRangedU16::<5, 10>>(), core::mem::size_of::<u16>());
}

#[test]
fn optional_values_u32() {
    let none = OptionRangedU32::<5, 10>::none();
    let seven = OptionRangedU32::<5, 10>::some(RangedU32::<5, 10>::new(7).unwrap());
    assert!(none.is_none() && !none.is_some());
    assert!(seven.is_some() && !seven.is_none());
    assert!(none.get().is_none());
    assert!(matches!(seven.get(), Some(x) if x.get() == 7));
    assert_eq!(none.get_primitive(), None);
    assert_eq!(seven.get_primitive(), Some(7));
    assert_eq!(none.get_primitive_without_hint(), None);
    assert_eq!(seven.get_primitive_without_hint(), Some(7));
    assert_eq!(OptionRangedU32::<5, 10>::some_unchecked(9).get_primitive(), Some(9));
    assert_eq!(none.inner(), u32::MIN);
    assert_eq!(OptionRangedU32::<0, 10>::none().inner(), u32::MAX);
    assert_eq!(seven.inner(), 7);
    assert!(OptionRangedU32::<5, 10>::default() == none);
    assert!(OptionRangedU32::<5, 10>::from(RangedU32::<5, 10>::new(7).unwrap()) == seven);
    assert!(OptionRangedU32::<5, 10>::from(RangedU32::<5, 10>::new(7)) == seven);
    assert!(OptionRangedU32::<5, 10>::from(RangedU32::<5, 10>::new(11)) == none);
    assert!(Option::<RangedU32<5, 10>>::from(seven) == RangedU32::<5, 10>::new(7));
    assert!(Option::<RangedU32<5, 10>>::from(none).is_none());
    assert!(matches!(OptionRangedU32::<5, 10>::from_inner(u32::MIN), Some(x) if x.is_none()));
    assert!(matches!(OptionRangedU32::<5, 10>::from_inner(7), Some(x) if x == seven));
    assert!(OptionRangedU32::<5, 10>::from_inner(11).is_none());
    assert!(OptionRangedU32::<5, 10>::from_inner(5 - 1).is_none());
    let eight = OptionRangedU32::<5, 10>::some_unchecked(8);
    assert_eq!(none.cmp(&none), Ordering::Equal);
    assert_eq!(none.cmp(&seven), Ordering::Less);
    assert_eq!(seven.cmp(&none), Ordering::Greater);
    assert_eq!(seven.cmp(&eight), Ordering::Less);
    assert_eq!(eight.cmp(&seven), Ordering::Greater);
    assert_eq!(seven.cmp(&seven), Ordering::Equal);
    assert_eq!(none.partial_cmp(&none), Some(Ordering::Equal));
    assert_eq!(none.partial_cmp(&seven), Some(Ordering::Less));
    assert_eq!(seven.partial_cmp(&none), Some(Ordering::Greater));
    assert_eq!(eight.partial_cmp(&seven), Some(Ordering::Greater));
    assert!(seven != eight && none != seven);
    assert_eq!(core::mem::size_of::<OptionRangedU32::<5, 10>>(), core::mem::size_of::<u32>());
}

#[test]
fn optional_values_u64() {
    let none = OptionRangedU64::<5, 10>::none();
    let seven = OptionRangedU64::<5, 10>::some(RangedU64::<5, 10>::new(7).unwrap());
    assert!(none.is_none() && !none.is_some());
    assert!(seven.is_some() && !seven.is_none());
    assert!(none.get().is_none());
    assert!(matches!(seven.get(), Some(x) if x.get() == 7));
    assert_eq!(none.get_primitive(), None);
    assert_eq!(seven.get_primitive(), Some(7));
    assert_eq!(none.get_primitive_without_hint(), None);
    assert_eq!(seven.get_primitive_without_hint(), Some(7));
    assert_eq!(OptionRangedU64::<5, 10>::some_unchecked(9).get_primitive(), Some(9));
    assert_eq!(none.inner(), u64::MIN);
    assert_eq!(OptionRangedU64::<0, 10>::none().inner(), u64::MAX);
    assert_eq!(seven.inner(), 7);
    assert!(OptionRangedU64::<5, 10>::default() == none);
    assert!(OptionRangedU64::<5, 10>::from(RangedU64::<5, 10>::new(7).unwrap()) == seven);
    assert!(OptionRangedU64::<5, 10>::from(RangedU64::<5, 10>::new(7)) == seven);
    assert!(OptionRangedU64::<5, 10>::from(RangedU64::<5, 10>::new(11)) == none);
    assert!(Option::<RangedU64<5, 10>>::from(seven) == RangedU64::<5, 10>::new(7));
    assert!(Option::<RangedU64<5, 10>>::from(none).is_none());
    assert!(matches!(OptionRangedU64::<5, 10>::from_inner(u64::MIN), Some(x) if x.is_none()));
    assert!(matches!(OptionRangedU64::<5, 10>::from_inner(7), Some(x) if x == seven));
    assert!(OptionRangedU64::<5, 10>::from_inner(11).is_none());
    assert!(OptionRangedU64::<5, 10>::from_inner(5 - 1).is_none());
    let eight = OptionRangedU64::<5, 10>::some_unchecked(8);
    assert_eq!(none.cmp(&none), Ordering::Equal);
    assert_eq!(none.cmp(&seven), Ordering::Less);
    assert_eq!(seven.cmp(&none), Ordering::Greater);
    assert_eq!(seven.cmp(&eight), Ordering::Less);
    assert_eq!(eight.cmp(&seven), Ordering::Greater);
    assert_eq!(seven.cmp(&seven), Ordering::Equal);
    assert_eq!(none.partial_cmp(&none), Some(Ordering::Equal));
    assert_eq!(none.partial_cmp(&seven), Some(Ordering::Less));
    assert_eq!(seven.partial_cmp(&none), Some(Ordering::Greater));
    assert_eq!(eight.partial_cmp(&seven), Some(Ordering::Greater));
    assert!(seven != eight && none != seven);
    assert_eq!(core::mem::size_of::<OptionRangedU64::<5, 10>>(), core::mem::size_of::<u64>());
}

#[test]
fn optional_values_u128() {
    let none = OptionRangedU128::<5, 10>::none();
    let seven = OptionRangedU128::<5, 10>::some(RangedU128::<5, 10>::new(7).unwrap());
    assert!(none.is_none() && !none.is_some());
    assert!(seven.is_some() && !seven.is_none());
    assert!(none.get().is_none());
    assert!(matches!(seven.get(), Some(x) if x.get() == 7));
    assert_eq!(none.get_primitive(), None);
    assert_eq!(seven.get_primitive(), Some(7));
    assert_eq!(none.get_primitive_without_hint(), None);
    assert_eq!(seven.get_primitive_without_hint(), Some(7));
    assert_eq!(OptionRangedU128::<5, 10>::some_unchecked(9).get_primitive(), Some(9));
    assert_eq!(none.inner(), u128::MIN);
    assert_eq!(OptionRangedU128::<0, 10>::none().inner(), u128::MAX);
    assert_eq!(seven.inner(), 7);
    assert!(OptionRangedU128::<5, 10>::default() == none);
    assert!(OptionRangedU128::<5, 10>::from(RangedU128::<5, 10>::new(7).unwrap()) == seven);
    assert!(OptionRangedU128::<5, 10>::from(RangedU128::<5, 10>::new(7)) == seven);
    assert!(OptionRangedU128::<5, 10>::from(RangedU128::<5, 10>::new(11)) == none);
    assert!(Option::<RangedU128<5, 10>>::from(seven) == RangedU128::<5, 10>::new(7));
    assert!(Option::<RangedU128<5, 10>>::from(none).is_none());
    assert!(matches!(OptionRangedU128::<5, 10>::from_inner(u128::MIN), Some(x) if x.is_none()));
    assert!(matches!(OptionRangedU128::<5, 10>::from_inner(7), Some(x) if x == seven));
    assert!(OptionRangedU128::<5, 10>::from_inner(11).is_none());
    assert!(OptionRangedU128::<5, 10>::from_inner(5 - 1).is_none());
    let eight = OptionRangedU128::<5, 10>::some_unchecked(8);
    assert_eq!(none.cmp(&none), Ordering::Equal);
    assert_eq!(none.cmp(&seven), Ordering::Less);
    assert_eq!(seven.cmp(&none), Ordering::Greater);
    assert_eq!(seven.cmp(&eight), Ordering::Less);
    assert_eq!(eight.cmp(&seven), Ordering::Greater);
    assert_eq!(seven.cmp(&seven), Ordering::Equal);
    assert_eq!(none.partial_cmp(&none), Some(Ordering::Equal));
    assert_eq!(none.partial_cmp(&seven), Some(Ordering::Less));
    assert_eq!(seven.partial_cmp(&none), Some(Ordering::Greater));
    assert_eq!(eight.partial_cmp(&seven), Some(Ordering::Greater));
    assert!(seven != eight && none != seven);
    assert_eq!(core::mem::size_of::<OptionRangedU128::<5, 10>>(), core::mem::size_of::<u128>());
}

#[test]
fn optional_values_usize() {
    let none = OptionRangedUsize::<5, 10>::none();
    let seven = OptionRangedUsize::<5, 10>::some(RangedUsize::<5, 10>::new(7).unwrap());
    assert!(none.is_none() && !none.is_some());
    assert!(seven.is_some() && !seven.is_none());
    assert!(none.get().is_none());
    assert!(matches!(seven.get(), Some(x) if x.get() == 7));
    assert_eq!(none.get_primitive(), None);
    assert_eq!(seven.get_primitive(), Some(7));
    assert_eq!(none.get_primitive_without_hint(), None);
    assert_eq!(seven.get_primitive_without_hint(), Some(7));
    assert_eq!(OptionRangedUsize::<5, 10>::some_unchecked(9).get_primitive(), Some(9));
    assert_eq!(none.inner(), usize::MIN);
    assert_eq!(OptionRangedUsize::<0, 10>::none().inner(), usize::MAX);
    assert_eq!(seven.inner(), 7);
    assert!(OptionRangedUsize::<5, 10>::default() == none);
    assert!(OptionRangedUsize::<5, 10>::from(RangedUsize::<5, 10>::new(7).unwrap()) == seven);
    assert!(OptionRangedUsize::<5, 10>::from(RangedUsize::<5, 10>::new(7)) == seven);
    assert!(OptionRangedUsize::<5, 10>::from(RangedUsize::<5, 10>::new(11)) == none);
    assert!(Option::<RangedUsize<5, 10>>::from(seven) == RangedUsize::<5, 10>::new(7));
    assert!(Option::<RangedUsize<5, 10>>::from(none).is_none());
    assert!(matches!(OptionRangedUsize::<5, 10>::from_inner(usize::MIN), Some(x) if x.is_none()));
    assert!(matches!(OptionRangedUsize::<5, 10>::from_inner(7), Some(x) if x == seven));
    assert!(OptionRangedUsize::<5, 10>::from_inner(11).is_none());
    assert!(OptionRangedUsize::<5, 10>::from_inner(5 - 1).is_none());
    let eight = OptionRangedUsize::<5, 10>::some_unchecked(8);
    assert_eq!(none.cmp(&none), Ordering::Equal);
    assert_eq!(none.cmp(&seven), Ordering::Less);
    assert_eq!(seven.cmp(&none), Ordering::Greater);
    assert_eq!(seven.cmp(&eight), Ordering::Less);
    assert_eq!(eight.cmp(&seven), Ordering::Greater);
    assert_eq!(seven.cmp(&seven), Ordering::Equal);
    assert_eq!(none.partial_cmp(&none), Some(Ordering::Equal));
    assert_eq!(none.partial_cmp(&seven), Some(Ordering::Less));
    assert_eq!(seven.partial_cmp(&none), Some(Ordering::Greater));
    assert_eq!(eight.partial_cmp(&seven), Some(Ordering::Greater));
    assert!(seven != eight && none != seven);
    assert_eq!(core::mem::size_of::<OptionRangedUsize::<5, 10>>(), core::mem::size_of::<usize>());
}

#[test]
fn optional_values_i8() {
    let none = OptionRangedI8::<251, 10>::none();
    let seven = OptionRangedI8::<251, 10>::some(RangedI8::<251, 10>::new(7).unwrap());
    assert!(none.is_none() && !none.is_some());
    assert!(seven.is_some() && !seven.is_none());
    assert!(none.get().is_none());
    assert!(matches!(seven.get(), Some(x) if x.get() == 7));
    assert_eq!(none.get_primitive(), None);
    assert_eq!(seven.get_primitive(), Some(7));
    assert_eq!(none.get_primitive_without_hint(), None);
    assert_eq!(seven.get_primitive_without_hint(), Some(7));
    assert_eq!(OptionRangedI8::<251, 10>::some_unchecked(9).get_primitive(), Some(9));
    assert_eq!(none.inner(), i8::MIN);
    assert_eq!(OptionRangedI8::<128, 10>::none().inner(), i8::MAX);
    assert_eq!(seven.inner(), 7);
    assert!(OptionRangedI8::<251, 10>::default() == none);
    assert!(OptionRangedI8::<251, 10>::from(RangedI8::<251, 10>::new(7).unwrap()) == seven);
    assert!(OptionRangedI8::<251, 10>::from(RangedI8::<251, 10>::new(7)) == seven);
    assert!(OptionRangedI8::<251, 10>::from(RangedI8::<251, 10>::new(11)) == none);
    assert!(Option::<RangedI8<251, 10>>::from(seven) == RangedI8::<251, 10>::new(7));
    assert!(Option::<RangedI8<251, 10>>::from(none).is_none());
    assert!(matches!(OptionRangedI8::<251, 10>::from_inner(i8::MIN), Some(x) if x.is_none()));
    assert!(matches!(OptionRangedI8::<251, 10>::from_inner(7), Some(x) if x == seven));
    assert!(OptionRangedI8::<251, 10>::from_inner(11).is_none());
    assert!(OptionRangedI8::<251, 10>::from_inner(-5 - 1).is_none());
    let eight = OptionRangedI8::<251, 10>::some_unchecked(8);
    assert_eq!(none.cmp(&none), Ordering::Equal);
    assert_eq!(none.cmp(&seven), Ordering::Less);
    assert_eq!(seven.cmp(&none), Ordering::Greater);
    assert_eq!(seven.cmp(&eight), Ordering::Less);
    assert_eq!(eight.cmp(&seven), Ordering::Greater);
    assert_eq!(seven.cmp(&seven), Ordering::Equal);
    assert_eq!(none.partial_cmp(&none), Some(Ordering::Equal));
    assert_eq!(none.partial_cmp(&seven), Some(Ordering::Less));
    assert_eq!(seven.partial_cmp(&none), Some(Ordering::Greater));
    assert_eq!(eight.partial_cmp(&seven), Some(Ordering::Greater));
    assert!(seven != eight && none != seven);
    assert_eq!(core::mem::size_of::<OptionRangedI8::<251, 10>>(), core::mem::size_of::<i8>());
}

#[test]
fn optional_values_i16() {
    let none = OptionRangedI16::<65531, 10>::none();
    let seven = OptionRangedI16::<65531, 10>::some(RangedI16::<65531, 10>::new(7).unwrap());
    assert!(none.is_none() && !none.is_some());
    assert!(seven.is_some() && !seven.is_none());
    assert!(none.get().is_none());
    assert!(matches!(seven.get(), Some(x) if x.get() == 7));
    assert_eq!(none.get_primitive(), None);
    assert_eq!(seven.get_primitive(), Some(7));
    assert_eq!(none.get_primitive_without_hint(), None);
    assert_eq!(seven.get_primitive_without_hint(), Some(7));
    assert_eq!(OptionRangedI16::<65531, 10>::some_unchecked(9).get_primitive(), Some(9));
    assert_eq!(none.inner(), i16::MIN);
    assert_eq!(OptionRangedI16::<32768, 10>::none().inner(), i16::MAX);
    assert_eq!(seven.inner(), 7);
    assert!(OptionRangedI16::<65531, 10>::default() == none);
    assert!(OptionRangedI16::<65531, 10>::from(RangedI16::<65531, 10>::new(7).unwrap()) == seven);
    assert!(OptionRangedI16::<65531, 10>::from(RangedI16::<65531, 10>::new(7)) == seven);
    assert!(OptionRangedI16::<65531, 10>::from(RangedI16::<65531, 10>::new(11)) == none);
    assert!(Option::<RangedI16<65531, 10>>::from(seven) == RangedI16::<65531, 10>::new(7));
    assert!(Option::<RangedI16<65531, 10>>::from(none).is_none());
    assert!(matches!(OptionRangedI16::<65531, 10>::from_inner(i16::MIN), Some(x) if x.is_none()));
    assert!(matches!(OptionRangedI16::<65531, 10>::from_inner(7), Some(x) if x == seven));
    assert!(OptionRangedI16::<65531, 10>::from_inner(11).is_none());
    assert!(OptionRangedI16::<65531, 10>::from_inner(-5 - 1).is_none());
    let eight = OptionRangedI16::<65531, 10>::some_unchecked(8);
    assert_eq!(none.cmp(&none), Ordering::Equal);
    assert_eq!(none.cmp(&seven), Ordering::Less);
    assert_eq!(seven.cmp(&none), Ordering::Greater);
    assert_eq!(seven.cmp(&eight), Ordering::Less);
    assert_eq!(eight.cmp(&seven), Ordering::Greater);
    assert_eq!(seven.cmp(&seven), Ordering::Equal);
    assert_eq!(none.partial_cmp(&none), Some(Ordering::Equal));
    assert_eq!(none.partial_cmp(&seven), Some(Ordering::Less));
    assert_eq!(seven.partial_cmp(&none), Some(Ordering::Greater));
    assert_eq!(eight.partial_cmp(&seven), Some(Ordering::Greater));
    assert!(seven != eight && none != seven);
    assert_eq!(core::mem::size_of::<OptionRangedI16::<65531, 10>>(), core::mem::size_of::<i16>());
}

#[test]
fn optional_values_i32() {
    let none = OptionRangedI32::<4294967291, 10>::none();
    let seven = OptionRangedI32::<4294967291, 10>::some(RangedI32::<4294967291, 10>::new(7).unwrap());
    assert!(none.is_none() && !none.is_some());
    assert!(seven.is_some() && !seven.is_none());
    assert!(none.get().is_none());
    assert!(matches!(seven.get(), Some(x) if x.get() == 7));
    assert_eq!(none.get_primitive(), None);
    assert_eq!(seven.get_primitive(), Some(7));
    assert_eq!(none.get_primitive_without_hint(), None);
    assert_eq!(seven.get_primitive_without_hint(), Some(7));
    assert_eq!(OptionRangedI32::<4294967291, 10>::some_unchecked(9).get_primitive(), Some(9));
    assert_eq!(none.inner(), i32::MIN);
    assert_eq!(OptionRangedI32::<2147483648, 10>::none().inner(), i32::MAX);
    assert_eq!(seven.inner(), 7);
    assert!(OptionRangedI32::<4294967291, 10>::default() == none);
    assert!(OptionRangedI32::<4294967291, 10>::from(RangedI32::<4294967291, 10>::new(7).unwrap()) == seven);
    assert!(OptionRangedI32::<4294967291, 10>::from(RangedI32::<4294967291, 10>::new(7)) == seven);
    assert!(OptionRangedI32::<4294967291, 10>::from(RangedI32::<4294967291, 10>::new(11)) == none);
    assert!(Option::<RangedI32<4294967291, 10>>::from(seven) == RangedI32::<4294967291, 10>::new(7));
    assert!(Option::<RangedI32<4294967291, 10>>::from(none).is_none());
    assert!(matches!(OptionRangedI32::<4294967291, 10>::from_inner(i32::MIN), Some(x) if x.is_none()));
    assert!(matches!(OptionRangedI32::<4294967291, 10>::from_inner(7), Some(x) if x == seven));
    assert!(OptionRangedI32::<4294967291, 10>::from_inner(11).is_none());
    assert!(OptionRangedI32::<4294967291, 10>::from_inner(-5 - 1).is_none());
    let eight = OptionRangedI32::<4294967291, 10>::some_unchecked(8);
    assert_eq!(none.cmp(&none), Ordering::Equal);
    assert_eq!(none.cmp(&seven), Ordering::Less);
    assert_eq!(seven.cmp(&none), Ordering::Greater);
    assert_eq!(seven.cmp(&eight), Ordering::Less);
    assert_eq!(eight.cmp(&seven), Ordering::Greater);
    assert_eq!(seven.cmp(&seven), Ordering::Equal);
    assert_eq!(none.partial_cmp(&none), Some(Ordering::Equal));
    assert_eq!(none.partial_cmp(&seven), Some(Ordering::Less));
    assert_eq!(seven.partial_cmp(&none), Some(Ordering::Greater));
    assert_eq!(eight.partial_cmp(&seven), Some(Ordering::Greater));
    assert!(seven != eight && none != seven);
    assert_eq!(core::mem::size_of::<OptionRangedI32::<4294967291, 10>>(), core::mem::size_of::<i32>());
}

#[test]
fn optional_values_i64() {
    let none = OptionRangedI64::<18446744073709551611, 10>::none();
    let seven = OptionRangedI64::<18446744073709551611, 10>::some(RangedI64::<18446744073709551611, 10>::new(7).unwrap());
    assert!(none.is_none() && !none.is_some());
    assert!(seven.is_some() && !seven.is_none());
    assert!(none.get().is_none());
    assert!(matches!(seven.get(), Some(x) if x.get() == 7));
    assert_eq!(none.get_primitive(), None);
    assert_eq!(seven.get_primitive(), Some(7));
    assert_eq!(none.get_primitive_without_hint(), None);
    assert_eq!(seven.get_primitive_without_hint(), Some(7));
    assert_eq!(OptionRangedI64::<18446744073709551611, 10>::some_unchecked(9).get_primitive(), Some(9));
    assert_eq!(none.inner(), i64::MIN);
    assert_eq!(OptionRangedI64::<9223372036854775808, 10>::none().inner(), i64::MAX);
    assert_eq!(seven.inner(), 7);
    assert!(OptionRangedI64::<18446744073709551611, 10>::default() == none);
    assert!(OptionRangedI64::<18446744073709551611, 10>::from(RangedI64::<18446744073709551611, 10>::new(7).unwrap()) == seven);
    assert!(OptionRangedI64::<18446744073709551611, 10>::from(RangedI64::<18446744073709551611, 10>::new(7)) == seven);
    assert!(OptionRangedI64::<18446744073709551611, 10>::from(RangedI64::<18446744073709551611, 10>::new(11)) == none);
    assert!(Option::<RangedI64<18446744073709551611, 10>>::from(seven) == RangedI64::<18446744073709551611, 10>::new(7));
    assert!(Option::<RangedI64<18446744073709551611, 10>>::from(none).is_none());
    assert!(matches!(OptionRangedI64::<18446744073709551611, 10>::from_inner(i64::MIN), Some(x) if x.is_none()));
    assert!(matches!(OptionRangedI64::<18446744073709551611, 10>::from_inner(7), Some(x) if x == seven));
    assert!(OptionRangedI64::<18446744073709551611, 10>::from_inner(11).is_none());
    assert!(OptionRangedI64::<18446744073709551611, 10>::from_inner(-5 - 1).is_none());
    let eight = OptionRangedI64::<18446744073709551611, 10>::some_unchecked(8);
    assert_eq!(none.cmp(&none), Ordering::Equal);
    assert_eq!(none.cmp(&seven), Ordering::Less);
    assert_eq!(seven.cmp(&none), Ordering::Greater);
    assert_eq!(seven.cmp(&eight), Ordering::Less);
    assert_eq!(eight.cmp(&seven), Ordering::Greater);
    assert_eq!(seven.cmp(&seven), Ordering::Equal);
    assert_eq!(none.partial_cmp(&none), Some(Ordering::Equal));
    assert_eq!(none.partial_cmp(&seven), Some(Ordering::Less));
    assert_eq!(seven.partial_cmp(&none), Some(Ordering::Greater));
    assert_eq!(eight.partial_cmp(&seven), Some(Ordering::Greater));
    assert!(seven != eight && none != seven);
    assert_eq!(core::mem::size_of::<OptionRangedI64::<18446744073709551611, 10>>(), core::mem::size_of::<i64>());
}

#[test]
fn optional_values_i128() {
    let none = OptionRangedI128::<340282366920938463463374607431768211451, 10>::none();
    let seven = OptionRangedI128::<340282366920938463463374607431768211451, 10>::some(RangedI128::<340282366920938463463374607431768211451, 10>::new(7).unwrap());
    assert!(none.is_none() && !none.is_some());
    assert!(seven.is_some() && !seven.is_none());
    assert!(none.get().is_none());
    assert!(matches!(seven.get(), Some(x) if x.get() == 7));
    assert_eq!(none.get_primitive(), None);
    assert_eq!(seven.get_primitive(), Some(7));
    assert_eq!(none.get_primitive_without_hint(), None);
    assert_eq!(seven.get_primitive_without_hint(), Some(7));
    assert_eq!(OptionRangedI128::<340282366920938463463374607431768211451, 10>::some_unchecked(9).get_primitive(), Some(9));
    assert_eq!(none.inner(), i128::MIN);
    assert_eq!(OptionRangedI128::<170141183460469231731687303715884105728, 10>::none().inner(), i128::MAX);
    assert_eq!(seven.inner(), 7);
    assert!(OptionRangedI128::<340282366920938463463374607431768211451, 10>::default() == none);
    assert!(OptionRangedI128::<340282366920938463463374607431768211451, 10>::from(RangedI128::<340282366920938463463374607431768211451, 10>::new(7).unwrap()) == seven);
    assert!(OptionRangedI128::<340282366920938463463374607431768211451, 10>::from(RangedI128::<340282366920938463463374607431768211451, 10>::new(7)) == seven);
    assert!(OptionRangedI128::<340282366920938463463374607431768211451, 10>::from(RangedI128::<340282366920938463463374607431768211451, 10>::new(11)) == none);
    assert!(Option::<RangedI128<340282366920938463463374607431768211451, 10>>::from(seven) == RangedI128::<340282366920938463463374607431768211451, 10>::new(7));
    assert!(Option::<RangedI128<340282366920938463463374607431768211451, 10>>::from(none).is_none());
    assert!(matches!(OptionRangedI128::<340282366920938463463374607431768211451, 10>::from_inner(i128::MIN), Some(x) if x.is_none()));
    assert!(matches!(OptionRangedI128::<340282366920938463463374607431768211451, 10>::from_inner(7), Some(x) if x == seven));
    assert!(OptionRangedI128::<340282366920938463463374607431768211451, 10>::from_inner(11).is_none());
    assert!(OptionRangedI128::<340282366920938463463374607431768211451, 10>::from_inner(-5 - 1).is_none());
    let eight = OptionRangedI128::<340282366920938463463374607431768211451, 10>::some_unchecked(8);
    assert_eq!(none.cmp(&none), Ordering::Equal);
    assert_eq!(none.cmp(&seven), Ordering::Less);
    assert_eq!(seven.cmp(&none), Ordering::Greater);
    assert_eq!(seven.cmp(&eight), Ordering::Less);
    assert_eq!(eight.cmp(&seven), Ordering::Greater);
    assert_eq!(seven.cmp(&seven), Ordering::Equal);
    assert_eq!(none.partial_cmp(&none), Some(Ordering::Equal));
    assert_eq!(none.partial_cmp(&seven), Some(Ordering::Less));
    assert_eq!(seven.partial_cmp(&none), Some(Ordering::Greater));
    assert_eq!(eight.partial_cmp(&seven), Some(Ordering::Greater));
    assert!(seven != eight && none != seven);
    assert_eq!(core::mem::size_of::<OptionRangedI128::<340282366920938463463374607431768211451, 10>>(), core::mem::size_of::<i128>());
}

#[test]
fn optional_values_isize() {
    let none = OptionRangedIsize::<18446744073709551611, 10>::none();
    let seven = OptionRangedIsize::<18446744073709551611, 10>::some(RangedIsize::<18446744073709551611, 10>::new(7).unwrap());
    assert!(none.is_none() && !none.is_some());
    assert!(seven.is_some() && !seven.is_none());
    assert!(none.get().is_none());
    assert!(matches!(seven.get(), Some(x) if x.get() == 7));
    assert_eq!(none.get_primitive(), None);
    assert_eq!(seven.get_primitive(), Some(7));
    assert_eq!(none.get_primitive_without_hint(), None);
    assert_eq!(seven.get_primitive_without_hint(), Some(7));
    assert_eq!(OptionRangedIsize::<18446744073709551611, 10>::some_unchecked(9).get_primitive(), Some(9));
    assert_eq!(none.inner(), isize::MIN);
    assert_eq!(OptionRangedIsize::<9223372036854775808, 10>::none().inner(), isize::MAX);
    assert_eq!(seven.inner(), 7);
    assert!(OptionRangedIsize::<18446744073709551611, 10>::default() == none);
    assert!(OptionRangedIsize::<18446744073709551611, 10>::from(RangedIsize::<18446744073709551611, 10>::new(7).unwrap()) == seven);
    assert!(OptionRangedIsize::<18446744073709551611, 10>::from(RangedIsize::<18446744073709551611, 10>::new(7)) == seven);
    assert!(OptionRangedIsize::<18446744073709551611, 10>::from(RangedIsize::<18446744073709551611, 10>::new(11)) == none);
    assert!(Option::<RangedIsize<18446744073709551611, 10>>::from(seven) == RangedIsize::<18446744073709551611, 10>::new(7));
    assert!(Option::<RangedIsize<18446744073709551611, 10>>::from(none).is_none());
    assert!(matches!(OptionRangedIsize::<18446744073709551611, 10>::from_inner(isize::MIN), Some(x) if x.is_none()));
    assert!(matches!(OptionRangedIsize::<18446744073709551611, 10>::from_inner(7), Some(x) if x == seven));
    assert!(OptionRangedIsize::<18446744073709551611, 10>::from_inner(11).is_none());
    assert!(OptionRangedIsize::<18446744073709551611, 10>::from_inner(-5 - 1).is_none());
    let eight = OptionRangedIsize::<18446744073709551611, 10>::some_unchecked(8);
    assert_eq!(none.cmp(&none), Ordering::Equal);
    assert_eq!(none.cmp(&seven), Ordering::Less);
    assert_eq!(seven.cmp(&none), Ordering::Greater);
    assert_eq!(seven.cmp(&eight), Ordering::Less);
    assert_eq!(eight.cmp(&seven), Ordering::Greater);
    assert_eq!(seven.cmp(&seven), Ordering::Equal);
    assert_eq!(none.partial_cmp(&none), Some(Ordering::Equal));
    assert_eq!(none.partial_cmp(&seven), Some(Ordering::Less));
    assert_eq!(seven.partial_cmp(&none), Some(Ordering::Greater));
    assert_eq!(eight.partial_cmp(&seven), Some(Ordering::Greater));
    assert!(seven != eight && none != seven);
    assert_eq!(core::mem::size_of::<OptionRangedIsize::<18446744073709551611, 10>>(), core::mem::size_of::<isize>());
}

#[test]
fn equality_across_ranges_is_that_of_what_is_stored() {
    let none_of_zero = OptionRangedU8::<1, 10>::none();
    let zero = OptionRangedU8::<0, 5>::some_unchecked(0);
    assert!(none_of_zero == zero);
    assert!(none_of_zero != OptionRangedU8::<0, 5>::none());
    assert_eq!(none_of_zero.partial_cmp(&zero), Some(Ordering::Less));
    assert_eq!(none_of_zero.partial_cmp(&OptionRangedU8::<0, 5>::none()), Some(Ordering::Equal));
    assert!(OptionRangedU8::<0, 5>::some_unchecked(3) == OptionRangedU8::<2, 7>::some_unchecked(3));
    assert!(OptionRangedU8::<0, 5>::some_unchecked(3) < OptionRangedU8::<2, 7>::some_unchecked(4));
}

#[test]
fn equality_in_one_range_is_that_of_the_values() {
    for a in 0..=255u8 {
        for b in 0..=255u8 {
            let x = OptionRangedU8::<4, 9>::from_inner(a);
            let y = OptionRangedU8::<4, 9>::from_inner(b);
            if let (Some(x), Some(y)) = (x, y) {
                assert_eq!(x == y, x.get_primitive() == y.get_primitive());
                assert_eq!(x == y, x.cmp(&y) == Ordering::Equal);
                assert_eq!(x.cmp(&y), x.get_primitive().cmp(&y.get_primitive()));
                assert_eq!(x.partial_cmp(&y), x.get_primitive().partial_cmp(&y.get_primitive()));
            }
        }
    }
}

#[test]
fn option_and_back() {
    for v in 0..=255u8 {
        let value = RangedU8::<4, 9>::new(v);
        let packed = OptionRangedU8::<4, 9>::from(value);
        assert!(Option::<RangedU8<4, 9>>::from(packed) == value);
    }
}

#[test]
fn alias_of_an_optional_type() {
    let x: Option_ru8<0, 9> = OptionRangedU8::<0, 9>::none();
    assert!(x.is_none());
}
