//! Making ranged integers, moving them between ranges, and comparing them.

use core::borrow::Borrow;
use core::cmp::Ordering;
use std::collections::hash_map::DefaultHasher;
use std::hash::{Hash, Hasher};

use deranged::{
    NonZeroU128, NonZeroU16, NonZeroU32, NonZeroU64, NonZeroU8, NonZeroUsize, RangedFrom,
    RangedI128, RangedI16, RangedI32, RangedI64, RangedI8, RangedIsize, RangedU128, RangedU16,
    RangedU32, RangedU64, RangedU8, RangedUsize, TryFromIntError, ri8, ru16,
};

fn hash_of<T: Hash>(value: &T) -> u64 {
    let mut hasher = DefaultHasher::new();
    value.hash(&mut hasher);
    hasher.finish()
}

#[test]
fn values_of_a_range_u8() {
    assert!(RangedU8::<5, 10>::new(5 - 1).is_none());
    assert!(matches!(RangedU8::<5, 10>::new(5), Some(x) if x.get() == 5));
    assert!(matches!(RangedU8::<5, 10>::new(10), Some(x) if x.get() == 10));
    assert!(RangedU8::<5, 10>::new(11).is_none());
    assert!(RangedU8::<5, 10>::new(u8::MAX).is_none());
    assert!(RangedU8::<5, 10>::new(u8::MIN).is_none());
    assert_eq!(RangedU8::<5, 10>::range(), 5..=10);
    assert_eq!(RangedU8::<5, 10>::min_value().get(), 5);
    assert_eq!(RangedU8::<5, 10>::max_value().get(), 10);
    assert_eq!(RangedU8::<5, 10>::new_saturating(u8::MIN).get(), 5);
    assert_eq!(RangedU8::<5, 10>::new_saturating(u8::MAX).get(), 10);
    assert_eq!(RangedU8::<5, 10>::new_saturating(7).get(), 7);
    assert_eq!(RangedU8::<5, 10>::new_static::<5>().get(), 5);
    assert_eq!(RangedU8::<5, 10>::new_unchecked(9).get(), 9);
    assert_eq!(RangedU8::<5, 10>::new_unchecked(9).get_without_hint(), 9);
    assert_eq!(*RangedU8::<5, 10>::new_unchecked(9).get_ref(), 9);
    assert_eq!(RangedU8::<0, 0>::exact::<5>().get(), 5);
    let x = RangedU8::<5, 10>::new_unchecked(8);
    x.emit_range_hint();
    assert_eq!(*x.as_ref(), 8);
    assert_eq!(*<RangedU8<5, 10> as Borrow<u8>>::borrow(&x), 8);
    assert_eq!(u8::from(x), 8);
    assert!(matches!(RangedU8::<5, 10>::try_from(8), Ok(y) if y == x));
    assert_eq!(RangedU8::<5, 10>::try_from(11).err(), Some(TryFromIntError));
    assert_eq!(x.expand::<0, 11>().get(), 8);
    assert!(matches!(x.narrow::<7, 9>(), Some(y) if y.get() == 8));
    assert!(x.narrow::<9, 10>().is_none());
    assert_eq!(x.narrow_unchecked::<8, 8>().get(), 8);
    assert!(x == RangedU8::<8, 8>::new_unchecked(8));
    assert!(x != RangedU8::<0, 9>::new_unchecked(7));
    assert!(x > RangedU8::<0, 9>::new_unchecked(7));
    assert_eq!(x.partial_cmp(&RangedU8::<0, 9>::new_unchecked(9)), Some(Ordering::Less));
    assert_eq!(x.cmp(&RangedU8::<5, 10>::new_unchecked(8)), Ordering::Equal);
    assert_eq!(hash_of(&x), hash_of(&(8 as u8)));
}

#[test]
fn values_of_a_range_u16() {
    assert!(RangedU16::<5, 10>::new(5 - 1).is_none());
    assert!(matches!(RangedU16::<5, 10>::new(5), Some(x) if x.get() == 5));
    assert!(matches!(RangedU16::<5, 10>::new(10), Some(x) if x.get() == 10));
    assert!(RangedU16::<5, 10>::new(11).is_none());
    assert!(RangedU16::<5, 10>::new(u16::MAX).is_none());
    assert!(RangedU16::<5, 10>::new(u16::MIN).is_none());
    assert_eq!(RangedU16::<5, 10>::range(), 5..=10);
    assert_eq!(RangedU16::<5, 10>::min_value().get(), 5);
    assert_eq!(RangedU16::<5, 10>::max_value().get(), 10);
    assert_eq!(RangedU16::<5, 10>::new_saturating(u16::MIN).get(), 5);
    assert_eq!(RangedU16::<5, 10>::new_saturating(u16::MAX).get(), 10);
    assert_eq!(RangedU16::<5, 10>::new_saturating(7).get(), 7);
    assert_eq!(RangedU16::<5, 10>::new_static::<5>().get(), 5);
    assert_eq!(RangedU16::<5, 10>::new_unchecked(9).get(), 9);
    assert_eq!(RangedU16::<5, 10>::new_unchecked(9).get_without_hint(), 9);
    assert_eq!(*RangedU16::<5, 10>::new_unchecked(9).get_ref(), 9);
    assert_eq!(RangedU16::<0, 0>::exact::<5>().get(), 5);
    let x = RangedU16::<5, 10>::new_unchecked(8);
    x.emit_range_hint();
    assert_eq!(*x.as_ref(), 8);
    assert_eq!(*<RangedU16<5, 10> as Borrow<u16>>::borrow(&x), 8);
    assert_eq!(u16::from(x), 8);
    assert!(matches!(RangedU16::<5, 10>::try_from(8), Ok(y) if y == x));
    assert_eq!(RangedU16::<5, 10>::try_from(11).err(), Some(TryFromIntError));
    assert_eq!(x.expand::<0, 11>().get(), 8);
    assert!(matches!(x.narrow::<7, 9>(), Some(y) if y.get() == 8));
    assert!(x.narrow::<9, 10>().is_none());
    assert_eq!(x.narrow_unchecked::<8, 8>().get(), 8);
    assert!(x == RangedU16::<8, 8>::new_unchecked(8));
    assert!(x != RangedU16::<0, 9>::new_unchecked(7));
    assert!(x > RangedU16::<0, 9>::new_unchecked(7));
    assert_eq!(x.partial_cmp(&RangedU16::<0, 9>::new_unchecked(9)), Some(Ordering::Less));
    assert_eq!(x.cmp(&RangedU16::<5, 10>::new_unchecked(8)), Ordering::Equal);
    assert_eq!(hash_of(&x), hash_of(&(8 as u16)));
}

#[test]
fn values_of_a_range_u32() {
    assert!(RangedU32::<5, 10>::new(5 - 1).is_none());
    assert!(matches!(RangedU32::<5, 10>::new(5), Some(x) if x.get() == 5));
    assert!(matches!(RangedU32::<5, 10>::new(10), Some(x) if x.get() == 10));
    assert!(RangedU32::<5, 10>::new(11).is_none());
    assert!(RangedU32::<5, 10>::new(u32::MAX).is_none());
    assert!(RangedU32::<5, 10>::new(u32::MIN).is_none());
    assert_eq!(RangedU32::<5, 10>::range(), 5..=10);
    assert_eq!(RangedU32::<5, 10>::min_value().get(), 5);
    assert_eq!(RangedU32::<5, 10>::max_value().get(), 10);
    assert_eq!(RangedU32::<5, 10>::new_saturating(u32::MIN).get(), 5);
    assert_eq!(RangedU32::<5, 10>::new_saturating(u32::MAX).get(), 10);
    assert_eq!(RangedU32::<5, 10>::new_saturating(7).get(), 7);
    assert_eq!(RangedU32::<5, 10>::new_static::<5>().get(), 5);
    assert_eq!(RangedU32::<5, 10>::new_unchecked(9).get(), 9);
    assert_eq!(RangedU32::<5, 10>::new_unchecked(9).get_without_hint(), 9);
    assert_eq!(*RangedU32::<5, 10>::new_unchecked(9).get_ref(), 9);
    assert_eq!(RangedU32::<0, 0>::exact::<5>().get(), 5);
    let x = RangedU32::<5, 10>::new_unchecked(8);
    x.emit_range_hint();
    assert_eq!(*x.as_ref(), 8);
    assert_eq!(*<RangedU32<5, 10> as Borrow<u32>>::borrow(&x), 8);
    assert_eq!(u32::from(x), 8);
    assert!(matches!(RangedU32::<5, 10>::try_from(8), Ok(y) if y == x));
    assert_eq!(RangedU32::<5, 10>::try_from(11).err(), Some(TryFromIntError));
    assert_eq!(x.expand::<0, 11>().get(), 8);
    assert!(matches!(x.narrow::<7, 9>(), Some(y) if y.get() == 8));
    assert!(x.narrow::<9, 10>().is_none());
    assert_eq!(x.narrow_unchecked::<8, 8>().get(), 8);
    assert!(x == RangedU32::<8, 8>::new_unchecked(8));
    assert!(x != RangedU32::<0, 9>::new_unchecked(7));
    assert!(x > RangedU32::<0, 9>::new_unchecked(7));
    assert_eq!(x.partial_cmp(&RangedU32::<0, 9>::new_unchecked(9)), Some(Ordering::Less));
    assert_eq!(x.cmp(&RangedU32::<5, 10>::new_unchecked(8)), Ordering::Equal);
    assert_eq!(hash_of(&x), hash_of(&(8 as u32)));
}

#[test]
fn values_of_a_range_u64() {
    assert!(RangedU64::<5, 10>::new(5 - 1).is_none());
    assert!(matches!(RangedU64::<5, 10>::new(5), Some(x) if x.get() == 5));
    assert!(matches!(RangedU64::<5, 10>::new(10), Some(x) if x.get() == 10));
    assert!(RangedU64::<5, 10>::new(11).is_none());
    assert!(RangedU64::<5, 10>::new(u64::MAX).is_none());
    assert!(RangedU64::<5, 10>::new(u64::MIN).is_none());
    assert_eq!(RangedU64::<5, 10>::range(), 5..=10);
    assert_eq!(RangedU64::<5, 10>::min_value().get(), 5);
    assert_eq!(RangedU64::<5, 10>::max_value().get(), 10);
    assert_eq!(RangedU64::<5, 10>::new_saturating(u64::MIN).get(), 5);
    assert_eq!(RangedU64::<5, 10>::new_saturating(u64::MAX).get(), 10);
    assert_eq!(RangedU64::<5, 10>::new_saturating(7).get(), 7);
    assert_eq!(RangedU64::<5, 10>::new_static::<5>().get(), 5);
    assert_eq!(RangedU64::<5, 10>::new_unchecked(9).get(), 9);
    assert_eq!(RangedU64::<5, 10>::new_unchecked(9).get_without_hint(), 9);
    assert_eq!(*RangedU64::<5, 10>::new_unchecked(9).get_ref(), 9);
    assert_eq!(RangedU64::<0, 0>::exact::<5>().get(), 5);
    let x = RangedU64::<5, 10>::new_unchecked(8);
    x.emit_range_hint();
    assert_eq!(*x.as_ref(), 8);
    assert_eq!(*<RangedU64<5, 10> as Borrow<u64>>::borrow(&x), 8);
    assert_eq!(u64::from(x), 8);
    assert!(matches!(RangedU64::<5, 10>::try_from(8), Ok(y) if y == x));
    assert_eq!(RangedU64::<5, 10>::try_from(11).err(), Some(TryFromIntError));
    assert_eq!(x.expand::<0, 11>().get(), 8);
    assert!(matches!(x.narrow::<7, 9>(), Some(y) if y.get() == 8));
    assert!(x.narrow::<9, 10>().is_none());
    assert_eq!(x.narrow_unchecked::<8, 8>().get(), 8);
    assert!(x == RangedU64::<8, 8>::new_unchecked(8));
    assert!(x != RangedU64::<0, 9>::new_unchecked(7));
    assert!(x > RangedU64::<0, 9>::new_unchecked(7));
    assert_eq!(x.partial_cmp(&RangedU64::<0, 9>::new_unchecked(9)), Some(Ordering::Less));
    assert_eq!(x.cmp(&RangedU64::<5, 10>::new_unchecked(8)), Ordering::Equal);
    assert_eq!(hash_of(&x), hash_of(&(8 as u64)));
}

#[test]
fn values_of_a_range_u128() {
    assert!(RangedU128::<5, 10>::new(5 - 1).is_none());
    assert!(matches!(RangedU128::<5, 10>::new(5), Some(x) if x.get() == 5));
    assert!(matches!(RangedU128::<5, 10>::new(10), Some(x) if x.get() == 10));
    assert!(RangedU128::<5, 10>::new(11).is_none());
    assert!(RangedU128::<5, 10>::new(u128::MAX).is_none());
    assert!(RangedU128::<5, 10>::new(u128::MIN).is_none());
    assert_eq!(RangedU128::<5, 10>::range(), 5..=10);
    assert_eq!(RangedU128::<5, 10>::min_value().get(), 5);
    assert_eq!(RangedU128::<5, 10>::max_value().get(), 10);
    assert_eq!(RangedU128::<5, 10>::new_saturating(u128::MIN).get(), 5);
    assert_eq!(RangedU128::<5, 10>::new_saturating(u128::MAX).get(), 10);
    assert_eq!(RangedU128::<5, 10>::new_saturating(7).get(), 7);
    assert_eq!(RangedU128::<5, 10>::new_static::<5>().get(), 5);
    assert_eq!(RangedU128::<5, 10>::new_unchecked(9).get(), 9);
    assert_eq!(RangedU128::<5, 10>::new_unchecked(9).get_without_hint(), 9);
    assert_eq!(*RangedU128::<5, 10>::new_unchecked(9).get_ref(), 9);
    assert_eq!(RangedU128::<0, 0>::exact::<5>().get(), 5);
    let x = RangedU128::<5, 10>::new_unchecked(8);
    x.emit_range_hint();
    assert_eq!(*x.as_ref(), 8);
    assert_eq!(*<RangedU128<5, 10> as Borrow<u128>>::borrow(&x), 8);
    assert_eq!(u128::from(x), 8);
    assert!(matches!(RangedU128::<5, 10>::try_from(8), Ok(y) if y == x));
    assert_eq!(RangedU128::<5, 10>::try_from(11).err(), Some(TryFromIntError));
    assert_eq!(x.expand::<0, 11>().get(), 8);
    assert!(matches!(x.narrow::<7, 9>(), Some(y) if y.get() == 8));
    assert!(x.narrow::<9, 10>().is_none());
    assert_eq!(x.narrow_unchecked::<8, 8>().get(), 8);
    assert!(x == RangedU128::<8, 8>::new_unchecked(8));
    assert!(x != RangedU128::<0, 9>::new_unchecked(7));
    assert!(x > RangedU128::<0, 9>::new_unchecked(7));
    assert_eq!(x.partial_cmp(&RangedU128::<0, 9>::new_unchecked(9)), Some(Ordering::Less));
    assert_eq!(x.cmp(&RangedU128::<5, 10>::new_unchecked(8)), Ordering::Equal);
    assert_eq!(hash_of(&x), hash_of(&(8 as u128)));
}

#[test]
fn values_of_a_range_usize() {
    assert!(RangedUsize::<5, 10>::new(5 - 1).is_none());
    assert!(matches!(RangedUsize::<5, 10>::new(5), Some(x) if x.get() == 5));
    assert!(matches!(RangedUsize::<5, 10>::new(10), Some(x) if x.get() == 10));
    assert!(RangedUsize::<5, 10>::new(11).is_none());
    assert!(RangedUsize::<5, 10>::new(usize::MAX).is_none());
    assert!(RangedUsize::<5, 10>::new(usize::MIN).is_none());
    assert_eq!(RangedUsize::<5, 10>::range(), 5..=10);
    assert_eq!(RangedUsize::<5, 10>::min_value().get(), 5);
    assert_eq!(RangedUsize::<5, 10>::max_value().get(), 10);
    assert_eq!(RangedUsize::<5, 10>::new_saturating(usize::MIN).get(), 5);
    assert_eq!(RangedUsize::<5, 10>::new_saturating(usize::MAX).get(), 10);
    assert_eq!(RangedUsize::<5, 10>::new_saturating(7).get(), 7);
    assert_eq!(RangedUsize::<5, 10>::new_static::<5>().get(), 5);
    assert_eq!(RangedUsize::<5, 10>::new_unchecked(9).get(), 9);
    assert_eq!(RangedUsize::<5, 10>::new_unchecked(9).get_without_hint(), 9);
    assert_eq!(*RangedUsize::<5, 10>::new_unchecked(9).get_ref(), 9);
    assert_eq!(RangedUsize::<0, 0>::exact::<5>().get(), 5);
    let x = RangedUsize::<5, 10>::new_unchecked(8);
    x.emit_range_hint();
    assert_eq!(*x.as_ref(), 8);
    assert_eq!(*<RangedUsize<5, 10> as Borrow<usize>>::borrow(&x), 8);
    assert_eq!(usize::from(x), 8);
    assert!(matches!(RangedUsize::<5, 10>::try_from(8), Ok(y) if y == x));
    assert_eq!(RangedUsize::<5, 10>::try_from(11).err(), Some(TryFromIntError));
    assert_eq!(x.expand::<0, 11>().get(), 8);
    assert!(matches!(x.narrow::<7, 9>(), Some(y) if y.get() == 8));
    assert!(x.narrow::<9, 10>().is_none());
    assert_eq!(x.narrow_unchecked::<8, 8>().get(), 8);
    assert!(x == RangedUsize::<8, 8>::new_unchecked(8));
    assert!(x != RangedUsize::<0, 9>::new_unchecked(7));
    assert!(x > RangedUsize::<0, 9>::new_unchecked(7));
    assert_eq!(x.partial_cmp(&RangedUsize::<0, 9>::new_unchecked(9)), Some(Ordering::Less));
    assert_eq!(x.cmp(&RangedUsize::<5, 10>::new_unchecked(8)), Ordering::Equal);
    assert_eq!(hash_of(&x), hash_of(&(8 as usize)));
}

#[test]
fn values_of_a_range_i8() {
    assert!(RangedI8::<251, 10>::new(-5 - 1).is_none());
    assert!(matches!(RangedI8::<251, 10>::new(-5), Some(x) if x.get() == -5));
    assert!(matches!(RangedI8::<251, 10>::new(10), Some(x) if x.get() == 10));
    assert!(RangedI8::<251, 10>::new(11).is_none());
    assert!(RangedI8::<251, 10>::new(i8::MAX).is_none());
    assert!(RangedI8::<251, 10>::new(i8::MIN).is_none());
    assert_eq!(RangedI8::<251, 10>::range(), -5..=10);
    assert_eq!(RangedI8::<251, 10>::min_value().get(), -5);
    assert_eq!(RangedI8::<251, 10>::max_value().get(), 10);
    assert_eq!(RangedI8::<251, 10>::new_saturating(i8::MIN).get(), -5);
    assert_eq!(RangedI8::<251, 10>::new_saturating(i8::MAX).get(), 10);
    assert_eq!(RangedI8::<251, 10>::new_saturating(7).get(), 7);
    assert_eq!(RangedI8::<251, 10>::new_static::<251>().get(), -5);
    assert_eq!(RangedI8::<251, 10>::new_unchecked(9).get(), 9);
    assert_eq!(RangedI8::<251, 10>::new_unchecked(9).get_without_hint(), 9);
    assert_eq!(*RangedI8::<251, 10>::new_unchecked(9).get_ref(), 9);
    assert_eq!(RangedI8::<0, 0>::exact::<251>().get(), -5);
    let x = RangedI8::<251, 10>::new_unchecked(8);
    x.emit_range_hint();
    assert_eq!(*x.as_ref(), 8);
    assert_eq!(*<RangedI8<251, 10> as Borrow<i8>>::borrow(&x), 8);
    assert_eq!(i8::from(x), 8);
    assert!(matches!(RangedI8::<251, 10>::try_from(8), Ok(y) if y == x));
    assert_eq!(RangedI8::<251, 10>::try_from(11).err(), Some(TryFromIntError));
    assert_eq!(x.expand::<250, 11>().get(), 8);
    assert!(matches!(x.narrow::<7, 9>(), Some(y) if y.get() == 8));
    assert!(x.narrow::<9, 10>().is_none());
    assert_eq!(x.narrow_unchecked::<8, 8>().get(), 8);
    assert!(x == RangedI8::<8, 8>::new_unchecked(8));
    assert!(x != RangedI8::<0, 9>::new_unchecked(7));
    assert!(x > RangedI8::<0, 9>::new_unchecked(7));
    assert_eq!(x.partial_cmp(&RangedI8::<0, 9>::new_unchecked(9)), Some(Ordering::Less));
    assert_eq!(x.cmp(&RangedI8::<251, 10>::new_unchecked(8)), Ordering::Equal);
    assert_eq!(hash_of(&x), hash_of(&(8 as i8)));
}

#[test]
fn values_of_a_range_i16() {
    assert!(RangedI16::<65531, 10>::new(-5 - 1).is_none());
    assert!(matches!(RangedI16::<65531, 10>::new(-5), Some(x) if x.get() == -5));
    assert!(matches!(RangedI16::<65531, 10>::new(10), Some(x) if x.get() == 10));
    assert!(RangedI16::<65531, 10>::new(11).is_none());
    assert!(RangedI16::<65531, 10>::new(i16::MAX).is_none());
    assert!(RangedI16::<65531, 10>::new(i16::MIN).is_none());
    assert_eq!(RangedI16::<65531, 10>::range(), -5..=10);
    assert_eq!(RangedI16::<65531, 10>::min_value().get(), -5);
    assert_eq!(RangedI16::<65531, 10>::max_value().get(), 10);
    assert_eq!(RangedI16::<65531, 10>::new_saturating(i16::MIN).get(), -5);
    assert_eq!(RangedI16::<65531, 10>::new_saturating(i16::MAX).get(), 10);
    assert_eq!(RangedI16::<65531, 10>::new_saturating(7).get(), 7);
    assert_eq!(RangedI16::<65531, 10>::new_static::<65531>().get(), -5);
    assert_eq!(RangedI16::<65531, 10>::new_unchecked(9).get(), 9);
    assert_eq!(RangedI16::<65531, 10>::new_unchecked(9).get_without_hint(), 9);
    assert_eq!(*RangedI16::<65531, 10>::new_unchecked(9).get_ref(), 9);
    assert_eq!(RangedI16::<0, 0>::exact::<65531>().get(), -5);
    let x = RangedI16::<65531, 10>::new_unchecked(8);
    x.emit_range_hint();
    assert_eq!(*x.as_ref(), 8);
    assert_eq!(*<RangedI16<65531, 10> as Borrow<i16>>::borrow(&x), 8);
    assert_eq!(i16::from(x), 8);
    assert!(matches!(RangedI16::<65531, 10>::try_from(8), Ok(y) if y == x));
    assert_eq!(RangedI16::<65531, 10>::try_from(11).err(), Some(TryFromIntError));
    assert_eq!(x.expand::<65530, 11>().get(), 8);
    assert!(matches!(x.narrow::<7, 9>(), Some(y) if y.get() == 8));
    assert!(x.narrow::<9, 10>().is_none());
    assert_eq!(x.narrow_unchecked::<8, 8>().get(), 8);
    assert!(x == RangedI16::<8, 8>::new_unchecked(8));
    assert!(x != RangedI16::<0, 9>::new_unchecked(7));
    assert!(x > RangedI16::<0, 9>::new_unchecked(7));
    assert_eq!(x.partial_cmp(&RangedI16::<0, 9>::new_unchecked(9)), Some(Ordering::Less));
    assert_eq!(x.cmp(&RangedI16::<65531, 10>::new_unchecked(8)), Ordering::Equal);
    assert_eq!(hash_of(&x), hash_of(&(8 as i16)));
}

#[test]
fn values_of_a_range_i32() {
    assert!(RangedI32::<4294967291, 10>::new(-5 - 1).is_none());
    assert!(matches!(RangedI32::<4294967291, 10>::new(-5), Some(x) if x.get() == -5));
    assert!(matches!(RangedI32::<4294967291, 10>::new(10), Some(x) if x.get() == 10));
    assert!(RangedI32::<4294967291, 10>::new(11).is_none());
    assert!(RangedI32::<4294967291, 10>::new(i32::MAX).is_none());
    assert!(RangedI32::<4294967291, 10>::new(i32::MIN).is_none());
    assert_eq!(RangedI32::<4294967291, 10>::range(), -5..=10);
    assert_eq!(RangedI32::<4294967291, 10>::min_value().get(), -5);
    assert_eq!(RangedI32::<4294967291, 10>::max_value().get(), 10);
    assert_eq!(RangedI32::<4294967291, 10>::new_saturating(i32::MIN).get(), -5);
    assert_eq!(RangedI32::<4294967291, 10>::new_saturating(i32::MAX).get(), 10);
    assert_eq!(RangedI32::<4294967291, 10>::new_saturating(7).get(), 7);
    assert_eq!(RangedI32::<4294967291, 10>::new_static::<4294967291>().get(), -5);
    assert_eq!(RangedI32::<4294967291, 10>::new_unchecked(9).get(), 9);
    assert_eq!(RangedI32::<4294967291, 10>::new_unchecked(9).get_without_hint(), 9);
    assert_eq!(*RangedI32::<4294967291, 10>::new_unchecked(9).get_ref(), 9);
    assert_eq!(RangedI32::<0, 0>::exact::<4294967291>().get(), -5);
    let x = RangedI32::<4294967291, 10>::new_unchecked(8);
    x.emit_range_hint();
    assert_eq!(*x.as_ref(), 8);
    assert_eq!(*<RangedI32<4294967291, 10> as Borrow<i32>>::borrow(&x), 8);
    assert_eq!(i32::from(x), 8);
    assert!(matches!(RangedI32::<4294967291, 10>::try_from(8), Ok(y) if y == x));
    assert_eq!(RangedI32::<4294967291, 10>::try_from(11).err(), Some(TryFromIntError));
    assert_eq!(x.expand::<4294967290, 11>().get(), 8);
    assert!(matches!(x.narrow::<7, 9>(), Some(y) if y.get() == 8));
    assert!(x.narrow::<9, 10>().is_none());
    assert_eq!(x.narrow_unchecked::<8, 8>().get(), 8);
    assert!(x == RangedI32::<8, 8>::new_unchecked(8));
    assert!(x != RangedI32::<0, 9>::new_unchecked(7));
    assert!(x > RangedI32::<0, 9>::new_unchecked(7));
    assert_eq!(x.partial_cmp(&RangedI32::<0, 9>::new_unchecked(9)), Some(Ordering::Less));
    assert_eq!(x.cmp(&RangedI32::<4294967291, 10>::new_unchecked(8)), Ordering::Equal);
    assert_eq!(hash_of(&x), hash_of(&(8 as i32)));
}

#[test]
fn values_of_a_range_i64() {
    assert!(RangedI64::<18446744073709551611, 10>::new(-5 - 1).is_none());
    assert!(matches!(RangedI64::<18446744073709551611, 10>::new(-5), Some(x) if x.get() == -5));
    assert!(matches!(RangedI64::<18446744073709551611, 10>::new(10), Some(x) if x.get() == 10));
    assert!(RangedI64::<18446744073709551611, 10>::new(11).is_none());
    assert!(RangedI64::<18446744073709551611, 10>::new(i64::MAX).is_none());
    assert!(RangedI64::<18446744073709551611, 10>::new(i64::MIN).is_none());
    assert_eq!(RangedI64::<18446744073709551611, 10>::range(), -5..=10);
    assert_eq!(RangedI64::<18446744073709551611, 10>::min_value().get(), -5);
    assert_eq!(RangedI64::<18446744073709551611, 10>::max_value().get(), 10);
    assert_eq!(RangedI64::<18446744073709551611, 10>::new_saturating(i64::MIN).get(), -5);
    assert_eq!(RangedI64::<18446744073709551611, 10>::new_saturating(i64::MAX).get(), 10);
    assert_eq!(RangedI64::<18446744073709551611, 10>::new_saturating(7).get(), 7);
    assert_eq!(RangedI64::<18446744073709551611, 10>::new_static::<18446744073709551611>().get(), -5);
    assert_eq!(RangedI64::<18446744073709551611, 10>::new_unchecked(9).get(), 9);
    assert_eq!(RangedI64::<18446744073709551611, 10>::new_unchecked(9).get_without_hint(), 9);
    assert_eq!(*RangedI64::<18446744073709551611, 10>::new_unchecked(9).get_ref(), 9);
    assert_eq!(RangedI64::<0, 0>::exact::<18446744073709551611>().get(), -5);
    let x = RangedI64::<18446744073709551611, 10>::new_unchecked(8);
    x.emit_range_hint();
    assert_eq!(*x.as_ref(), 8);
    assert_eq!(*<RangedI64<18446744073709551611, 10> as Borrow<i64>>::borrow(&x), 8);
    assert_eq!(i64::from(x), 8);
    assert!(matches!(RangedI64::<18446744073709551611, 10>::try_from(8), Ok(y) if y == x));
    assert_eq!(RangedI64::<18446744073709551611, 10>::try_from(11).err(), Some(TryFromIntError));
    assert_eq!(x.expand::<18446744073709551610, 11>().get(), 8);
    assert!(matches!(x.narrow::<7, 9>(), Some(y) if y.get() == 8));
    assert!(x.narrow::<9, 10>().is_none());
    assert_eq!(x.narrow_unchecked::<8, 8>().get(), 8);
    assert!(x == RangedI64::<8, 8>::new_unchecked(8));
    assert!(x != RangedI64::<0, 9>::new_unchecked(7));
    assert!(x > RangedI64::<0, 9>::new_unchecked(7));
    assert_eq!(x.partial_cmp(&RangedI64::<0, 9>::new_unchecked(9)), Some(Ordering::Less));
    assert_eq!(x.cmp(&RangedI64::<18446744073709551611, 10>::new_unchecked(8)), Ordering::Equal);
    assert_eq!(hash_of(&x), hash_of(&(8 as i64)));
}

#[test]
fn values_of_a_range_i128() {
    assert!(RangedI128::<340282366920938463463374607431768211451, 10>::new(-5 - 1).is_none());
    assert!(matches!(RangedI128::<340282366920938463463374607431768211451, 10>::new(-5), Some(x) if x.get() == -5));
    assert!(matches!(RangedI128::<340282366920938463463374607431768211451, 10>::new(10), Some(x) if x.get() == 10));
    assert!(RangedI128::<340282366920938463463374607431768211451, 10>::new(11).is_none());
    assert!(RangedI128::<340282366920938463463374607431768211451, 10>::new(i128::MAX).is_none());
    assert!(RangedI128::<340282366920938463463374607431768211451, 10>::new(i128::MIN).is_none());
    assert_eq!(RangedI128::<340282366920938463463374607431768211451, 10>::range(), -5..=10);
    assert_eq!(RangedI128::<340282366920938463463374607431768211451, 10>::min_value().get(), -5);
    assert_eq!(RangedI128::<340282366920938463463374607431768211451, 10>::max_value().get(), 10);
    assert_eq!(RangedI128::<340282366920938463463374607431768211451, 10>::new_saturating(i128::MIN).get(), -5);
    assert_eq!(RangedI128::<340282366920938463463374607431768211451, 10>::new_saturating(i128::MAX).get(), 10);
    assert_eq!(RangedI128::<340282366920938463463374607431768211451, 10>::new_saturating(7).get(), 7);
    assert_eq!(RangedI128::<340282366920938463463374607431768211451, 10>::new_static::<340282366920938463463374607431768211451>().get(), -5);
    assert_eq!(RangedI128::<340282366920938463463374607431768211451, 10>::new_unchecked(9).get(), 9);
    assert_eq!(RangedI128::<340282366920938463463374607431768211451, 10>::new_unchecked(9).get_without_hint(), 9);
    assert_eq!(*RangedI128::<340282366920938463463374607431768211451, 10>::new_unchecked(9).get_ref(), 9);
    assert_eq!(RangedI128::<0, 0>::exact::<340282366920938463463374607431768211451>().get(), -5);
    let x = RangedI128::<340282366920938463463374607431768211451, 10>::new_unchecked(8);
    x.emit_range_hint();
    assert_eq!(*x.as_ref(), 8);
    assert_eq!(*<RangedI128<340282366920938463463374607431768211451, 10> as Borrow<i128>>::borrow(&x), 8);
    assert_eq!(i128::from(x), 8);
    assert!(matches!(RangedI128::<340282366920938463463374607431768211451, 10>::try_from(8), Ok(y) if y == x));
    assert_eq!(RangedI128::<340282366920938463463374607431768211451, 10>::try_from(11).err(), Some(TryFromIntError));
    assert_eq!(x.expand::<340282366920938463463374607431768211450, 11>().get(), 8);
    assert!(matches!(x.narrow::<7, 9>(), Some(y) if y.get() == 8));
    assert!(x.narrow::<9, 10>().is_none());
    assert_eq!(x.narrow_unchecked::<8, 8>().get(), 8);
    assert!(x == RangedI128::<8, 8>::new_unchecked(8));
    assert!(x != RangedI128::<0, 9>::new_unchecked(7));
    assert!(x > RangedI128::<0, 9>::new_unchecked(7));
    assert_eq!(x.partial_cmp(&RangedI128::<0, 9>::new_unchecked(9)), Some(Ordering::Less));
    assert_eq!(x.cmp(&RangedI128::<340282366920938463463374607431768211451, 10>::new_unchecked(8)), Ordering::Equal);
    assert_eq!(hash_of(&x), hash_of(&(8 as i128)));
}

#[test]
fn values_of_a_range_isize() {
    assert!(RangedIsize::<18446744073709551611, 10>::new(-5 - 1).is_none());
    assert!(matches!(RangedIsize::<18446744073709551611, 10>::new(-5), Some(x) if x.get() == -5));
    assert!(matches!(RangedIsize::<18446744073709551611, 10>::new(10), Some(x) if x.get() == 10));
    assert!(RangedIsize::<18446744073709551611, 10>::new(11).is_none());
    assert!(RangedIsize::<18446744073709551611, 10>::new(isize::MAX).is_none());
    assert!(RangedIsize::<18446744073709551611, 10>::new(isize::MIN).is_none());
    assert_eq!(RangedIsize::<18446744073709551611, 10>::range(), -5..=10);
    assert_eq!(RangedIsize::<18446744073709551611, 10>::min_value().get(), -5);
    assert_eq!(RangedIsize::<18446744073709551611, 10>::max_value().get(), 10);
    assert_eq!(RangedIsize::<18446744073709551611, 10>::new_saturating(isize::MIN).get(), -5);
    assert_eq!(RangedIsize::<18446744073709551611, 10>::new_saturating(isize::MAX).get(), 10);
    assert_eq!(RangedIsize::<18446744073709551611, 10>::new_saturating(7).get(), 7);
    assert_eq!(RangedIsize::<18446744073709551611, 10>::new_static::<18446744073709551611>().get(), -5);
    assert_eq!(RangedIsize::<18446744073709551611, 10>::new_unchecked(9).get(), 9);
    assert_eq!(RangedIsize::<18446744073709551611, 10>::new_unchecked(9).get_without_hint(), 9);
    assert_eq!(*RangedIsize::<18446744073709551611, 10>::new_unchecked(9).get_ref(), 9);
    assert_eq!(RangedIsize::<0, 0>::exact::<18446744073709551611>().get(), -5);
    let x = RangedIsize::<18446744073709551611, 10>::new_unchecked(8);
    x.emit_range_hint();
    assert_eq!(*x.as_ref(), 8);
    assert_eq!(*<RangedIsize<18446744073709551611, 10> as Borrow<isize>>::borrow(&x), 8);
    assert_eq!(isize::from(x), 8);
    assert!(matches!(RangedIsize::<18446744073709551611, 10>::try_from(8), Ok(y) if y == x));
    assert_eq!(RangedIsize::<18446744073709551611, 10>::try_from(11).err(), Some(TryFromIntError));
    assert_eq!(x.expand::<18446744073709551610, 11>().get(), 8);
    assert!(matches!(x.narrow::<7, 9>(), Some(y) if y.get() == 8));
    assert!(x.narrow::<9, 10>().is_none());
    assert_eq!(x.narrow_unchecked::<8, 8>().get(), 8);
    assert!(x == RangedIsize::<8, 8>::new_unchecked(8));
    assert!(x != RangedIsize::<0, 9>::new_unchecked(7));
    assert!(x > RangedIsize::<0, 9>::new_unchecked(7));
    assert_eq!(x.partial_cmp(&RangedIsize::<0, 9>::new_unchecked(9)), Some(Ordering::Less));
    assert_eq!(x.cmp(&RangedIsize::<18446744073709551611, 10>::new_unchecked(8)), Ordering::Equal);
    assert_eq!(hash_of(&x), hash_of(&(8 as isize)));
}

#[test]
fn non_zero_values_u8() {
    assert!(NonZeroU8::new(0).is_none());
    let seven = NonZeroU8::new(7).unwrap();
    assert_eq!(seven.get(), 7);
    let x = RangedU8::<1, 255>::from_nonzero(seven);
    assert_eq!(x.get(), 7);
    assert!(x.to_nonzero() == seven);
    assert_eq!(RangedU8::<1, 255>::from(seven).get(), 7);
    assert!(NonZeroU8::from(x) == seven);
}

#[test]
fn non_zero_values_u16() {
    assert!(NonZeroU16::new(0).is_none());
    let seven = NonZeroU16::new(7).unwrap();
    assert_eq!(seven.get(), 7);
    let x = RangedU16::<1, 65535>::from_nonzero(seven);
    assert_eq!(x.get(), 7);
    assert!(x.to_nonzero() == seven);
    assert_eq!(RangedU16::<1, 65535>::from(seven).get(), 7);
    assert!(NonZeroU16::from(x) == seven);
}

#[test]
fn non_zero_values_u32() {
    assert!(NonZeroU32::new(0).is_none());
    let seven = NonZeroU32::new(7).unwrap();
    assert_eq!(seven.get(), 7);
    let x = RangedU32::<1, 4294967295>::from_nonzero(seven);
    assert_eq!(x.get(), 7);
    assert!(x.to_nonzero() == seven);
    assert_eq!(RangedU32::<1, 4294967295>::from(seven).get(), 7);
    assert!(NonZeroU32::from(x) == seven);
}

#[test]
fn non_zero_values_u64() {
    assert!(NonZeroU64::new(0).is_none());
    let seven = NonZeroU64::new(7).unwrap();
    assert_eq!(seven.get(), 7);
    let x = RangedU64::<1, 18446744073709551615>::from_nonzero(seven);
    assert_eq!(x.get(), 7);
    assert!(x.to_nonzero() == seven);
    assert_eq!(RangedU64::<1, 18446744073709551615>::from(seven).get(), 7);
    assert!(NonZeroU64::from(x) == seven);
}

#[test]
fn non_zero_values_u128() {
    assert!(NonZeroU128::new(0).is_none());
    let seven = NonZeroU128::new(7).unwrap();
    assert_eq!(seven.get(), 7);
    let x = RangedU128::<1, 340282366920938463463374607431768211455>::from_nonzero(seven);
    assert_eq!(x.get(), 7);
    assert!(x.to_nonzero() == seven);
    assert_eq!(RangedU128::<1, 340282366920938463463374607431768211455>::from(seven).get(), 7);
    assert!(NonZeroU128::from(x) == seven);
}

#[test]
fn non_zero_values_usize() {
    assert!(NonZeroUsize::new(0).is_none());
    let seven = NonZeroUsize::new(7).unwrap();
    assert_eq!(seven.get(), 7);
    let x = RangedUsize::<1, 18446744073709551615>::from_nonzero(seven);
    assert_eq!(x.get(), 7);
    assert!(x.to_nonzero() == seven);
    assert!(NonZeroUsize::from(x) == seven);
}

#[test]
fn ranges_of_one_type_convert_to_others() {
    let x = RangedU8::<3, 90>::new(42).unwrap();
    assert_eq!(RangedU16::<0, 100>::ranged_from(x).get(), 42);
    assert_eq!(RangedU32::<0, 100>::ranged_from(x).get(), 42);
    assert_eq!(RangedU64::<0, 100>::ranged_from(x).get(), 42);
    assert_eq!(RangedU128::<0, 100>::ranged_from(x).get(), 42);
    assert_eq!(RangedUsize::<0, 100>::ranged_from(x).get(), 42);
    assert_eq!(RangedI8::<0, 100>::ranged_from(x).get(), 42);
    assert_eq!(RangedI16::<0, 100>::ranged_from(x).get(), 42);
    assert_eq!(RangedI32::<0, 100>::ranged_from(x).get(), 42);
    assert_eq!(RangedI64::<0, 100>::ranged_from(x).get(), 42);
    assert_eq!(RangedI128::<0, 100>::ranged_from(x).get(), 42);
    assert_eq!(RangedIsize::<0, 100>::ranged_from(x).get(), 42);
    let x = RangedU16::<3, 90>::new(42).unwrap();
    assert_eq!(RangedU8::<0, 100>::ranged_from(x).get(), 42);
    assert_eq!(RangedU32::<0, 100>::ranged_from(x).get(), 42);
    assert_eq!(RangedU64::<0, 100>::ranged_from(x).get(), 42);
    assert_eq!(RangedU128::<0, 100>::ranged_from(x).get(), 42);
    assert_eq!(RangedUsize::<0, 100>::ranged_from(x).get(), 42);
    assert_eq!(RangedI8::<0, 100>::ranged_from(x).get(), 42);
    assert_eq!(RangedI16::<0, 100>::ranged_from(x).get(), 42);
    assert_eq!(RangedI32::<0, 100>::ranged_from(x).get(), 42);
    assert_eq!(RangedI64::<0, 100>::ranged_from(x).get(), 42);
    assert_eq!(RangedI128::<0, 100>::ranged_from(x).get(), 42);
    assert_eq!(RangedIsize::<0, 100>::ranged_from(x).get(), 42);
    let x = RangedU32::<3, 90>::new(42).unwrap();
    assert_eq!(RangedU8::<0, 100>::ranged_from(x).get(), 42);
    assert_eq!(RangedU16::<0, 100>::ranged_from(x).get(), 42);
    assert_eq!(RangedU64::<0, 100>::ranged_from(x).get(), 42);
    assert_eq!(RangedU128::<0, 100>::ranged_from(x).get(), 42);
    assert_eq!(RangedUsize::<0, 100>::ranged_from(x).get(), 42);
    assert_eq!(RangedI8::<0, 100>::ranged_from(x).get(), 42);
    assert_eq!(RangedI16::<0, 100>::ranged_from(x).get(), 42);
    assert_eq!(RangedI32::<0, 100>::ranged_from(x).get(), 42);
    assert_eq!(RangedI64::<0, 100>::ranged_from(x).get(), 42);
    assert_eq!(RangedI128::<0, 100>::ranged_from(x).get(), 42);
    assert_eq!(RangedIsize::<0, 100>::ranged_from(x).get(), 42);
    let x = RangedU64::<3, 90>::new(42).unwrap();
    assert_eq!(RangedU8::<0, 100>::ranged_from(x).get(), 42);
    assert_eq!(RangedU16::<0, 100>::ranged_from(x).get(), 42);
    assert_eq!(RangedU32::<0, 100>::ranged_from(x).get(), 42);
    assert_eq!(RangedU128::<0, 100>::ranged_from(x).get(), 42);
    assert_eq!(RangedUsize::<0, 100>::ranged_from(x).get(), 42);
    assert_eq!(RangedI8::<0, 100>::ranged_from(x).get(), 42);
    assert_eq!(RangedI16::<0, 100>::ranged_from(x).get(), 42);
    assert_eq!(RangedI32::<0, 100>::ranged_from(x).get(), 42);
    assert_eq!(RangedI64::<0, 100>::ranged_from(x).get(), 42);
    assert_eq!(RangedI128::<0, 100>::ranged_from(x).get(), 42);
    assert_eq!(RangedIsize::<0, 100>::ranged_from(x).get(), 42);
    let x = RangedU128::<3, 90>::new(42).unwrap();
    assert_eq!(RangedU8::<0, 100>::ranged_from(x).get(), 42);
    assert_eq!(RangedU16::<0, 100>::ranged_from(x).get(), 42);
    assert_eq!(RangedU32::<0, 100>::ranged_from(x).get(), 42);
    assert_eq!(RangedU64::<0, 100>::ranged_from(x).get(), 42);
    assert_eq!(RangedUsize::<0, 100>::ranged_from(x).get(), 42);
    assert_eq!(RangedI8::<0, 100>::ranged_from(x).get(), 42);
    assert_eq!(RangedI16::<0, 100>::ranged_from(x).get(), 42);
    assert_eq!(RangedI32::<0, 100>::ranged_from(x).get(), 42);
    assert_eq!(RangedI64::<0, 100>::ranged_from(x).get(), 42);
    assert_eq!(RangedI128::<0, 100>::ranged_from(x).get(), 42);
    assert_eq!(RangedIsize::<0, 100>::ranged_from(x).get(), 42);
    let x = RangedUsize::<3, 90>::new(42).unwrap();
    assert_eq!(RangedU8::<0, 100>::ranged_from(x).get(), 42);
    assert_eq!(RangedU16::<0, 100>::ranged_from(x).get(), 42);
    assert_eq!(RangedU32::<0, 100>::ranged_from(x).get(), 42);
    assert_eq!(RangedU64::<0, 100>::ranged_from(x).get(), 42);
    assert_eq!(RangedU128::<0, 100>::ranged_from(x).get(), 42);
    assert_eq!(RangedI8::<0, 100>::ranged_from(x).get(), 42);
    assert_eq!(RangedI16::<0, 100>::ranged_from(x).get(), 42);
    assert_eq!(RangedI32::<0, 100>::ranged_from(x).get(), 42);
    assert_eq!(RangedI64::<0, 100>::ranged_from(x).get(), 42);
    assert_eq!(RangedI128::<0, 100>::ranged_from(x).get(), 42);
    assert_eq!(RangedIsize::<0, 100>::ranged_from(x).get(), 42);
    let x = RangedI8::<3, 90>::new(42).unwrap();
    assert_eq!(RangedU8::<0, 100>::ranged_from(x).get(), 42);
    assert_eq!(RangedU16::<0, 100>::ranged_from(x).get(), 42);
    assert_eq!(RangedU32::<0, 100>::ranged_from(x).get(), 42);
    assert_eq!(RangedU64::<0, 100>::ranged_from(x).get(), 42);
    assert_eq!(RangedU128::<0, 100>::ranged_from(x).get(), 42);
    assert_eq!(RangedUsize::<0, 100>::ranged_from(x).get(), 42);
    assert_eq!(RangedI16::<0, 100>::ranged_from(x).get(), 42);
    assert_eq!(RangedI32::<0, 100>::ranged_from(x).get(), 42);
    assert_eq!(RangedI64::<0, 100>::ranged_from(x).get(), 42);
    assert_eq!(RangedI128::<0, 100>::ranged_from(x).get(), 42);
    assert_eq!(RangedIsize::<0, 100>::ranged_from(x).get(), 42);
    let x = RangedI16::<3, 90>::new(42).unwrap();
    assert_eq!(RangedU8::<0, 100>::ranged_from(x).get(), 42);
    assert_eq!(RangedU16::<0, 100>::ranged_from(x).get(), 42);
    assert_eq!(RangedU32::<0, 100>::ranged_from(x).get(), 42);
    assert_eq!(RangedU64::<0, 100>::ranged_from(x).get(), 42);
    assert_eq!(RangedU128::<0, 100>::ranged_from(x).get(), 42);
    assert_eq!(RangedUsize::<0, 100>::ranged_from(x).get(), 42);
    assert_eq!(RangedI8::<0, 100>::ranged_from(x).get(), 42);
    assert_eq!(RangedI32::<0, 100>::ranged_from(x).get(), 42);
    assert_eq!(RangedI64::<0, 100>::ranged_from(x).get(), 42);
    assert_eq!(RangedI128::<0, 100>::ranged_from(x).get(), 42);
    assert_eq!(RangedIsize::<0, 100>::ranged_from(x).get(), 42);
    let x = RangedI32::<3, 90>::new(42).unwrap();
    assert_eq!(RangedU8::<0, 100>::ranged_from(x).get(), 42);
    assert_eq!(RangedU16::<0, 100>::ranged_from(x).get(), 42);
    assert_eq!(RangedU32::<0, 100>::ranged_from(x).get(), 42);
    assert_eq!(RangedU64::<0, 100>::ranged_from(x).get(), 42);
    assert_eq!(RangedU128::<0, 100>::ranged_from(x).get(), 42);
    assert_eq!(RangedUsize::<0, 100>::ranged_from(x).get(), 42);
    assert_eq!(RangedI8::<0, 100>::ranged_from(x).get(), 42);
    assert_eq!(RangedI16::<0, 100>::ranged_from(x).get(), 42);
    assert_eq!(RangedI64::<0, 100>::ranged_from(x).get(), 42);
    assert_eq!(RangedI128::<0, 100>::ranged_from(x).get(), 42);
    assert_eq!(RangedIsize::<0, 100>::ranged_from(x).get(), 42);
    let x = RangedI64::<3, 90>::new(42).unwrap();
    assert_eq!(RangedU8::<0, 100>::ranged_from(x).get(), 42);
    assert_eq!(RangedU16::<0, 100>::ranged_from(x).get(), 42);
    assert_eq!(RangedU32::<0, 100>::ranged_from(x).get(), 42);
    assert_eq!(RangedU64::<0, 100>::ranged_from(x).get(), 42);
    assert_eq!(RangedU128::<0, 100>::ranged_from(x).get(), 42);
    assert_eq!(RangedUsize::<0, 100>::ranged_from(x).get(), 42);
    assert_eq!(RangedI8::<0, 100>::ranged_from(x).get(), 42);
    assert_eq!(RangedI16::<0, 100>::ranged_from(x).get(), 42);
    assert_eq!(RangedI32::<0, 100>::ranged_from(x).get(), 42);
    assert_eq!(RangedI128::<0, 100>::ranged_from(x).get(), 42);
    assert_eq!(RangedIsize::<0, 100>::ranged_from(x).get(), 42);
    let x = RangedI128::<3, 90>::new(42).unwrap();
    assert_eq!(RangedU8::<0, 100>::ranged_from(x).get(), 42);
    assert_eq!(RangedU16::<0, 100>::ranged_from(x).get(), 42);
    assert_eq!(RangedU32::<0, 100>::ranged_from(x).get(), 42);
    assert_eq!(RangedU64::<0, 100>::ranged_from(x).get(), 42);
    assert_eq!(RangedU128::<0, 100>::ranged_from(x).get(), 42);
    assert_eq!(RangedUsize::<0, 100>::ranged_from(x).get(), 42);
    assert_eq!(RangedI8::<0, 100>::ranged_from(x).get(), 42);
    assert_eq!(RangedI16::<0, 100>::ranged_from(x).get(), 42);
    assert_eq!(RangedI32::<0, 100>::ranged_from(x).get(), 42);
    assert_eq!(RangedI64::<0, 100>::ranged_from(x).get(), 42);
    assert_eq!(RangedIsize::<0, 100>::ranged_from(x).get(), 42);
    let x = RangedIsize::<3, 90>::new(42).unwrap();
    assert_eq!(RangedU8::<0, 100>::ranged_from(x).get(), 42);
    assert_eq!(RangedU16::<0, 100>::ranged_from(x).get(), 42);
    assert_eq!(RangedU32::<0, 100>::ranged_from(x).get(), 42);
    assert_eq!(RangedU64::<0, 100>::ranged_from(x).get(), 42);
    assert_eq!(RangedU128::<0, 100>::ranged_from(x).get(), 42);
    assert_eq!(RangedUsize::<0, 100>::ranged_from(x).get(), 42);
    assert_eq!(RangedI8::<0, 100>::ranged_from(x).get(), 42);
    assert_eq!(RangedI16::<0, 100>::ranged_from(x).get(), 42);
    assert_eq!(RangedI32::<0, 100>::ranged_from(x).get(), 42);
    assert_eq!(RangedI64::<0, 100>::ranged_from(x).get(), 42);
    assert_eq!(RangedI128::<0, 100>::ranged_from(x).get(), 42);
}

#[test]
fn negative_ranges_convert_to_wider_types() {
    let x = RangedI8::<247, 9>::new(-7).unwrap();
    assert_eq!(RangedI16::<65527, 9>::ranged_from(x).get(), -7);
    assert_eq!(RangedI32::<4294967287, 9>::ranged_from(x).get(), -7);
    assert_eq!(RangedI64::<18446744073709551607, 9>::ranged_from(x).get(), -7);
    assert_eq!(RangedI128::<340282366920938463463374607431768211447, 9>::ranged_from(x).get(), -7);
    assert_eq!(RangedIsize::<18446744073709551607, 9>::ranged_from(x).get(), -7);
    let x = RangedI16::<65527, 9>::new(-7).unwrap();
    assert_eq!(RangedI8::<247, 9>::ranged_from(x).get(), -7);
    assert_eq!(RangedI32::<4294967287, 9>::ranged_from(x).get(), -7);
    assert_eq!(RangedI64::<18446744073709551607, 9>::ranged_from(x).get(), -7);
    assert_eq!(RangedI128::<340282366920938463463374607431768211447, 9>::ranged_from(x).get(), -7);
    assert_eq!(RangedIsize::<18446744073709551607, 9>::ranged_from(x).get(), -7);
    let x = RangedI32::<4294967287, 9>::new(-7).unwrap();
    assert_eq!(RangedI8::<247, 9>::ranged_from(x).get(), -7);
    assert_eq!(RangedI16::<65527, 9>::ranged_from(x).get(), -7);
    assert_eq!(RangedI64::<18446744073709551607, 9>::ranged_from(x).get(), -7);
    assert_eq!(RangedI128::<340282366920938463463374607431768211447, 9>::ranged_from(x).get(), -7);
    assert_eq!(RangedIsize::<18446744073709551607, 9>::ranged_from(x).get(), -7);
    let x = RangedI64::<18446744073709551607, 9>::new(-7).unwrap();
    assert_eq!(RangedI8::<247, 9>::ranged_from(x).get(), -7);
    assert_eq!(RangedI16::<65527, 9>::ranged_from(x).get(), -7);
    assert_eq!(RangedI32::<4294967287, 9>::ranged_from(x).get(), -7);
    assert_eq!(RangedI128::<340282366920938463463374607431768211447, 9>::ranged_from(x).get(), -7);
    assert_eq!(RangedIsize::<18446744073709551607, 9>::ranged_from(x).get(), -7);
    let x = RangedI128::<340282366920938463463374607431768211447, 9>::new(-7).unwrap();
    assert_eq!(RangedI8::<247, 9>::ranged_from(x).get(), -7);
    assert_eq!(RangedI16::<65527, 9>::ranged_from(x).get(), -7);
    assert_eq!(RangedI32::<4294967287, 9>::ranged_from(x).get(), -7);
    assert_eq!(RangedI64::<18446744073709551607, 9>::ranged_from(x).get(), -7);
    assert_eq!(RangedIsize::<18446744073709551607, 9>::ranged_from(x).get(), -7);
    let x = RangedIsize::<18446744073709551607, 9>::new(-7).unwrap();
    assert_eq!(RangedI8::<247, 9>::ranged_from(x).get(), -7);
    assert_eq!(RangedI16::<65527, 9>::ranged_from(x).get(), -7);
    assert_eq!(RangedI32::<4294967287, 9>::ranged_from(x).get(), -7);
    assert_eq!(RangedI64::<18446744073709551607, 9>::ranged_from(x).get(), -7);
    assert_eq!(RangedI128::<340282366920938463463374607431768211447, 9>::ranged_from(x).get(), -7);
}

#[test]
fn aliases_name_the_types() {
    let x: ru16<0, 300> = RangedU16::<0, 300>::new(299).unwrap();
    assert_eq!(x.get(), 299);
    let y: ri8<251, 5> = RangedI8::<251, 5>::new(-5).unwrap();
    assert_eq!(y.get(), -5);
}

#[test]
fn conversion_error_says_what_happened() {
    assert_eq!(TryFromIntError.message(), "out of range integral type conversion attempted");
}
