//! Generated ranged integers: from unstructured bytes, and random ones.

use arbitrary::{Arbitrary, Unstructured};
use quickcheck::Gen;

use deranged::{
    OptionRangedI128, OptionRangedI16, OptionRangedI32, OptionRangedI64, OptionRangedI8,
    OptionRangedIsize, OptionRangedU128, OptionRangedU16, OptionRangedU32, OptionRangedU64,
    OptionRangedU8, OptionRangedUsize, RangedI128, RangedI16, RangedI32, RangedI64, RangedI8,
    RangedIsize, RangedU128, RangedU16, RangedU32, RangedU64, RangedU8, RangedUsize,
};

const BYTES: [u8; 40] = [
    1, 200, 3, 44, 255, 16, 7, 99, 128, 250, 11, 0, 13, 14, 215, 161, 17, 18, 19, 120, 22, 2, 240,
    4, 5, 6, 70, 8, 9, 100, 101, 2, 30, 4, 50, 6, 170, 8, 90, 10,
];

#[test]
fn from_unstructured_bytes_u8() {
    for start in 0..=40 {
        let mut ours = Unstructured::new(&BYTES[start..]);
        let mut theirs = Unstructured::new(&BYTES[start..]);
        for _ in 0..4 {
            let x = RangedU8::<5, 100>::arbitrary(&mut ours).unwrap();
            let value: u8 = theirs.int_in_range(5..=100).unwrap();
            assert_eq!(x.get(), value);
            assert_eq!(ours.len(), theirs.len());
            let x = OptionRangedU8::<5, 100>::arbitrary(&mut ours).unwrap();
            let value: Option<u8> = if bool::arbitrary(&mut theirs).unwrap() {
                Some(theirs.int_in_range(5..=100).unwrap())
            } else {
                None
            };
            assert_eq!(x.get_primitive(), value);
            assert_eq!(ours.len(), theirs.len());
        }
    }
    assert_eq!(RangedU8::<5, 100>::arbitrary(&mut Unstructured::new(&[])).unwrap().get(), 5);
    assert!(OptionRangedU8::<5, 100>::arbitrary(&mut Unstructured::new(&[])).unwrap().is_none());
    assert_eq!(RangedU8::<5, 100>::arbitrary_size_hint(), <u8 as Arbitrary>::size_hint(0));
    assert_eq!(OptionRangedU8::<5, 100>::arbitrary_size_hint(), <Option<u8> as Arbitrary>::size_hint(0));
}

#[test]
fn random_values_u8() {
    let mut gen = Gen::new(100);
    for _ in 0..200 {
        let x = RangedU8::<5, 100>::arbitrary_from_gen(&mut gen).get();
        assert!(5 <= x && x <= 100);
        let y = OptionRangedU8::<5, 100>::arbitrary_from_gen(&mut gen);
        if let Some(v) = y.get_primitive() {
            assert!(5 <= v && v <= 100);
        }
    }
    for v in [0, 1, 7, 100, 101, u8::MIN, u8::MAX] {
        let x = RangedU8::<5, 100>::from_arbitrary_int(v);
        assert_eq!(x.get(), v.rem_euclid(100 - 5 + 1) + 5);
        assert_eq!(OptionRangedU8::<5, 100>::from_arbitrary_parts(false, v).get_primitive(), Some(x.get()));
        assert!(OptionRangedU8::<5, 100>::from_arbitrary_parts(true, v).is_none());
    }
    assert!(matches!(OptionRangedU8::<5, 100>::decided_by_choice(true), Some(x) if x.is_none()));
    assert!(OptionRangedU8::<5, 100>::decided_by_choice(false).is_none());
}

#[test]
fn smaller_values_u8() {
    for v in 5..=100 as u8 {
        let want: Vec<u8> =
            quickcheck::Arbitrary::shrink(&v).filter(|c| (5..=100).contains(c)).collect();
        let x = RangedU8::<5, 100>::new(v).unwrap();
        let got: Vec<u8> = x.shrink().iter().map(|y| y.get()).collect();
        assert_eq!(got, want);
        let mut optional: Vec<Option<u8>> = vec![None];
        optional.extend(want.into_iter().map(Some));
        let got: Vec<Option<u8>> =
            OptionRangedU8::<5, 100>::some(x).shrink().iter().map(|y| y.get_primitive()).collect();
        assert_eq!(got, optional);
    }
    assert!(OptionRangedU8::<5, 100>::none().shrink().is_empty());
    let candidates: Vec<u8> = vec![3, 7, 200 as u8 as u8, 100, 101];
    let kept: Vec<u8> = RangedU8::<5, 100>::keep_in_range(&candidates).iter().map(|y| y.get()).collect();
    let want: Vec<u8> =
        candidates.iter().copied().filter(|c| (5..=100).contains(c)).collect();
    assert_eq!(kept, want);
}

#[test]
fn from_unstructured_bytes_u16() {
    for start in 0..=40 {
        let mut ours = Unstructured::new(&BYTES[start..]);
        let mut theirs = Unstructured::new(&BYTES[start..]);
        for _ in 0..4 {
            let x = RangedU16::<5, 100>::arbitrary(&mut ours).unwrap();
            let value: u16 = theirs.int_in_range(5..=100).unwrap();
            assert_eq!(x.get(), value);
            assert_eq!(ours.len(), theirs.len());
            let x = OptionRangedU16::<5, 100>::arbitrary(&mut ours).unwrap();
            let value: Option<u16> = if bool::arbitrary(&mut theirs).unwrap() {
                Some(theirs.int_in_range(5..=100).unwrap())
            } else {
                None
            };
            assert_eq!(x.get_primitive(), value);
            assert_eq!(ours.len(), theirs.len());
        }
    }
    assert_eq!(RangedU16::<5, 100>::arbitrary(&mut Unstructured::new(&[])).unwrap().get(), 5);
    assert!(OptionRangedU16::<5, 100>::arbitrary(&mut Unstructured::new(&[])).unwrap().is_none());
    assert_eq!(RangedU16::<5, 100>::arbitrary_size_hint(), <u16 as Arbitrary>::size_hint(0));
    assert_eq!(OptionRangedU16::<5, 100>::arbitrary_size_hint(), <Option<u16> as Arbitrary>::size_hint(0));
}

#[test]
fn random_values_u16() {
    let mut gen = Gen::new(100);
    for _ in 0..200 {
        let x = RangedU16::<5, 100>::arbitrary_from_gen(&mut gen).get();
        assert!(5 <= x && x <= 100);
        let y = OptionRangedU16::<5, 100>::arbitrary_from_gen(&mut gen);
        if let Some(v) = y.get_primitive() {
            assert!(5 <= v && v <= 100);
        }
    }
    for v in [0, 1, 7, 100, 101, u16::MIN, u16::MAX] {
        let x = RangedU16::<5, 100>::from_arbitrary_int(v);
        assert_eq!(x.get(), v.rem_euclid(100 - 5 + 1) + 5);
        assert_eq!(OptionRangedU16::<5, 100>::from_arbitrary_parts(false, v).get_primitive(), Some(x.get()));
        assert!(OptionRangedU16::<5, 100>::from_arbitrary_parts(true, v).is_none());
    }
    assert!(matches!(OptionRangedU16::<5, 100>::decided_by_choice(true), Some(x) if x.is_none()));
    assert!(OptionRangedU16::<5, 100>::decided_by_choice(false).is_none());
}

#[test]
fn smaller_values_u16() {
    for v in 5..=100 as u16 {
        let want: Vec<u16> =
            quickcheck::Arbitrary::shrink(&v).filter(|c| (5..=100).contains(c)).collect();
        let x = RangedU16::<5, 100>::new(v).unwrap();
        let got: Vec<u16> = x.shrink().iter().map(|y| y.get()).collect();
        assert_eq!(got, want);
        let mut optional: Vec<Option<u16>> = vec![None];
        optional.extend(want.into_iter().map(Some));
        let got: Vec<Option<u16>> =
            OptionRangedU16::<5, 100>::some(x).shrink().iter().map(|y| y.get_primitive()).collect();
        assert_eq!(got, optional);
    }
    assert!(OptionRangedU16::<5, 100>::none().shrink().is_empty());
    let candidates: Vec<u16> = vec![3, 7, 200 as u8 as u16, 100, 101];
    let kept: Vec<u16> = RangedU16::<5, 100>::keep_in_range(&candidates).iter().map(|y| y.get()).collect();
    let want: Vec<u16> =
        candidates.iter().copied().filter(|c| (5..=100).contains(c)).collect();
    assert_eq!(kept, want);
}

#[test]
fn from_unstructured_bytes_u32() {
    for start in 0..=40 {
        let mut ours = Unstructured::new(&BYTES[start..]);
        let mut theirs = Unstructured::new(&BYTES[start..]);
        for _ in 0..4 {
            let x = RangedU32::<5, 100>::arbitrary(&mut ours).unwrap();
            let value: u32 = theirs.int_in_range(5..=100).unwrap();
            assert_eq!(x.get(), value);
            assert_eq!(ours.len(), theirs.len());
            let x = OptionRangedU32::<5, 100>::arbitrary(&mut ours).unwrap();
            let value: Option<u32> = if bool::arbitrary(&mut theirs).unwrap() {
                Some(theirs.int_in_range(5..=100).unwrap())
            } else {
                None
            };
            assert_eq!(x.get_primitive(), value);
            assert_eq!(ours.len(), theirs.len());
        }
    }
    assert_eq!(RangedU32::<5, 100>::arbitrary(&mut Unstructured::new(&[])).unwrap().get(), 5);
    assert!(OptionRangedU32::<5, 100>::arbitrary(&mut Unstructured::new(&[])).unwrap().is_none());
    assert_eq!(RangedU32::<5, 100>::arbitrary_size_hint(), <u32 as Arbitrary>::size_hint(0));
    assert_eq!(OptionRangedU32::<5, 100>::arbitrary_size_hint(), <Option<u32> as Arbitrary>::size_hint(0));
}

#[test]
fn random_values_u32() {
    let mut gen = Gen::new(100);
    for _ in 0..200 {
        let x = RangedU32::<5, 100>::arbitrary_from_gen(&mut gen).get();
        assert!(5 <= x && x <= 100);
        let y = OptionRangedU32::<5, 100>::arbitrary_from_gen(&mut gen);
        if let Some(v) = y.get_primitive() {
            assert!(5 <= v && v <= 100);
        }
    }
    for v in [0, 1, 7, 100, 101, u32::MIN, u32::MAX] {
        let x = RangedU32::<5, 100>::from_arbitrary_int(v);
        assert_eq!(x.get(), v.rem_euclid(100 - 5 + 1) + 5);
        assert_eq!(OptionRangedU32::<5, 100>::from_arbitrary_parts(false, v).get_primitive(), Some(x.get()));
        assert!(OptionRangedU32::<5, 100>::from_arbitrary_parts(true, v).is_none());
    }
    assert!(matches!(OptionRangedU32::<5, 100>::decided_by_choice(true), Some(x) if x.is_none()));
    assert!(OptionRangedU32::<5, 100>::decided_by_choice(false).is_none());
}

#[test]
fn smaller_values_u32() {
    for v in 5..=100 as u32 {
        let want: Vec<u32> =
            quickcheck::Arbitrary::shrink(&v).filter(|c| (5..=100).contains(c)).collect();
        let x = RangedU32::<5, 100>::new(v).unwrap();
        let got: Vec<u32> = x.shrink().iter().map(|y| y.get()).collect();
        assert_eq!(got, want);
        let mut optional: Vec<Option<u32>> = vec![None];
        optional.extend(want.into_iter().map(Some));
        let got: Vec<Option<u32>> =
            OptionRangedU32::<5, 100>::some(x).shrink().iter().map(|y| y.get_primitive()).collect();
        assert_eq!(got, optional);
    }
    assert!(OptionRangedU32::<5, 100>::none().shrink().is_empty());
    let candidates: Vec<u32> = vec![3, 7, 200 as u8 as u32, 100, 101];
    let kept: Vec<u32> = RangedU32::<5, 100>::keep_in_range(&candidates).iter().map(|y| y.get()).collect();
    let want: Vec<u32> =
        candidates.iter().copied().filter(|c| (5..=100).contains(c)).collect();
    assert_eq!(kept, want);
}

#[test]
fn from_unstructured_bytes_u64() {
    for start in 0..=40 {
        let mut ours = Unstructured::new(&BYTES[start..]);
        let mut theirs = Unstructured::new(&BYTES[start..]);
        for _ in 0..4 {
            let x = RangedU64::<5, 100>::arbitrary(&mut ours).unwrap();
            let value: u64 = theirs.int_in_range(5..=100).unwrap();
            assert_eq!(x.get(), value);
            assert_eq!(ours.len(), theirs.len());
            let x = OptionRangedU64::<5, 100>::arbitrary(&mut ours).unwrap();
            let value: Option<u64> = if bool::arbitrary(&mut theirs).unwrap() {
                Some(theirs.int_in_range(5..=100).unwrap())
            } else {
                None
            };
            assert_eq!(x.get_primitive(), value);
            assert_eq!(ours.len(), theirs.len());
        }
    }
    assert_eq!(RangedU64::<5, 100>::arbitrary(&mut Unstructured::new(&[])).unwrap().get(), 5);
    assert!(OptionRangedU64::<5, 100>::arbitrary(&mut Unstructured::new(&[])).unwrap().is_none());
    assert_eq!(RangedU64::<5, 100>::arbitrary_size_hint(), <u64 as Arbitrary>::size_hint(0));
    assert_eq!(OptionRangedU64::<5, 100>::arbitrary_size_hint(), <Option<u64> as Arbitrary>::size_hint(0));
}

#[test]
fn random_values_u64() {
    let mut gen = Gen::new(100);
    for _ in 0..200 {
        let x = RangedU64::<5, 100>::arbitrary_from_gen(&mut gen).get();
        assert!(5 <= x && x <= 100);
        let y = OptionRangedU64::<5, 100>::arbitrary_from_gen(&mut gen);
        if let Some(v) = y.get_primitive() {
            assert!(5 <= v && v <= 100);
        }
    }
    for v in [0, 1, 7, 100, 101, u64::MIN, u64::MAX] {
        let x = RangedU64::<5, 100>::from_arbitrary_int(v);
        assert_eq!(x.get(), v.rem_euclid(100 - 5 + 1) + 5);
        assert_eq!(OptionRangedU64::<5, 100>::from_arbitrary_parts(false, v).get_primitive(), Some(x.get()));
        assert!(OptionRangedU64::<5, 100>::from_arbitrary_parts(true, v).is_none());
    }
    assert!(matches!(OptionRangedU64::<5, 100>::decided_by_choice(true), Some(x) if x.is_none()));
    assert!(OptionRangedU64::<5, 100>::decided_by_choice(false).is_none());
}

#[test]
fn smaller_values_u64() {
    for v in 5..=100 as u64 {
        let want: Vec<u64> =
            quickcheck::Arbitrary::shrink(&v).filter(|c| (5..=100).contains(c)).collect();
        let x = RangedU64::<5, 100>::new(v).unwrap();
        let got: Vec<u64> = x.shrink().iter().map(|y| y.get()).collect();
        assert_eq!(got, want);
        let mut optional: Vec<Option<u64>> = vec![None];
        optional.extend(want.into_iter().map(Some));
        let got: Vec<Option<u64>> =
            OptionRangedU64::<5, 100>::some(x).shrink().iter().map(|y| y.get_primitive()).collect();
        assert_eq!(got, optional);
    }
    assert!(OptionRangedU64::<5, 100>::none().shrink().is_empty());
    let candidates: Vec<u64> = vec![3, 7, 200 as u8 as u64, 100, 101];
    let kept: Vec<u64> = RangedU64::<5, 100>::keep_in_range(&candidates).iter().map(|y| y.get()).collect();
    let want: Vec<u64> =
        candidates.iter().copied().filter(|c| (5..=100).contains(c)).collect();
    assert_eq!(kept, want);
}

#[test]
fn from_unstructured_bytes_u128() {
    for start in 0..=40 {
        let mut ours = Unstructured::new(&BYTES[start..]);
        let mut theirs = Unstructured::new(&BYTES[start..]);
        for _ in 0..4 {
            let x = RangedU128::<5, 100>::arbitrary(&mut ours).unwrap();
            let value: u128 = theirs.int_in_range(5..=100).unwrap();
            assert_eq!(x.get(), value);
            assert_eq!(ours.len(), theirs.len());
            let x = OptionRangedU128::<5, 100>::arbitrary(&mut ours).unwrap();
            let value: Option<u128> = if bool::arbitrary(&mut theirs).unwrap() {
                Some(theirs.int_in_range(5..=100).unwrap())
            } else {
                None
            };
            assert_eq!(x.get_primitive(), value);
            assert_eq!(ours.len(), theirs.len());
        }
    }
    assert_eq!(RangedU128::<5, 100>::arbitrary(&mut Unstructured::new(&[])).unwrap().get(), 5);
    assert!(OptionRangedU128::<5, 100>::arbitrary(&mut Unstructured::new(&[])).unwrap().is_none());
    assert_eq!(RangedU128::<5, 100>::arbitrary_size_hint(), <u128 as Arbitrary>::size_hint(0));
    assert_eq!(OptionRangedU128::<5, 100>::arbitrary_size_hint(), <Option<u128> as Arbitrary>::size_hint(0));
}

#[test]
fn random_values_u128() {
    let mut gen = Gen::new(100);
    for _ in 0..200 {
        let x = RangedU128::<5, 100>::arbitrary_from_gen(&mut gen).get();
        assert!(5 <= x && x <= 100);
        let y = OptionRangedU128::<5, 100>::arbitrary_from_gen(&mut gen);
        if let Some(v) = y.get_primitive() {
            assert!(5 <= v && v <= 100);
        }
    }
    for v in [0, 1, 7, 100, 101, u128::MIN, u128::MAX] {
        let x = RangedU128::<5, 100>::from_arbitrary_int(v);
        assert_eq!(x.get(), v.rem_euclid(100 - 5 + 1) + 5);
        assert_eq!(OptionRangedU128::<5, 100>::from_arbitrary_parts(false, v).get_primitive(), Some(x.get()));
        assert!(OptionRangedU128::<5, 100>::from_arbitrary_parts(true, v).is_none());
    }
    assert!(matches!(OptionRangedU128::<5, 100>::decided_by_choice(true), Some(x) if x.is_none()));
    assert!(OptionRangedU128::<5, 100>::decided_by_choice(false).is_none());
}

#[test]
fn smaller_values_u128() {
    for v in 5..=100 as u128 {
        let want: Vec<u128> =
            quickcheck::Arbitrary::shrink(&v).filter(|c| (5..=100).contains(c)).collect();
        let x = RangedU128::<5, 100>::new(v).unwrap();
        let got: Vec<u128> = x.shrink().iter().map(|y| y.get()).collect();
        assert_eq!(got, want);
        let mut optional: Vec<Option<u128>> = vec![None];
        optional.extend(want.into_iter().map(Some));
        let got: Vec<Option<u128>> =
            OptionRangedU128::<5, 100>::some(x).shrink().iter().map(|y| y.get_primitive()).collect();
        assert_eq!(got, optional);
    }
    assert!(OptionRangedU128::<5, 100>::none().shrink().is_empty());
    let candidates: Vec<u128> = vec![3, 7, 200 as u8 as u128, 100, 101];
    let kept: Vec<u128> = RangedU128::<5, 100>::keep_in_range(&candidates).iter().map(|y| y.get()).collect();
    let want: Vec<u128> =
        candidates.iter().copied().filter(|c| (5..=100).contains(c)).collect();
    assert_eq!(kept, want);
}

#[test]
fn from_unstructured_bytes_usize() {
    for start in 0..=40 {
        let mut ours = Unstructured::new(&BYTES[start..]);
        let mut theirs = Unstructured::new(&BYTES[start..]);
        for _ in 0..4 {
            let x = RangedUsize::<5, 100>::arbitrary(&mut ours).unwrap();
            let value: usize = theirs.int_in_range(5..=100).unwrap();
            assert_eq!(x.get(), value);
            assert_eq!(ours.len(), theirs.len());
            let x = OptionRangedUsize::<5, 100>::arbitrary(&mut ours).unwrap();
            let value: Option<usize> = if bool::arbitrary(&mut theirs).unwrap() {
                Some(theirs.int_in_range(5..=100).unwrap())
            } else {
                None
            };
            assert_eq!(x.get_primitive(), value);
            assert_eq!(ours.len(), theirs.len());
        }
    }
    assert_eq!(RangedUsize::<5, 100>::arbitrary(&mut Unstructured::new(&[])).unwrap().get(), 5);
    assert!(OptionRangedUsize::<5, 100>::arbitrary(&mut Unstructured::new(&[])).unwrap().is_none());
    assert_eq!(RangedUsize::<5, 100>::arbitrary_size_hint(), <usize as Arbitrary>::size_hint(0));
    assert_eq!(OptionRangedUsize::<5, 100>::arbitrary_size_hint(), <Option<usize> as Arbitrary>::size_hint(0));
}

#[test]
fn random_values_usize() {
    let mut gen = Gen::new(100);
    for _ in 0..200 {
        let x = RangedUsize::<5, 100>::arbitrary_from_gen(&mut gen).get();
        assert!(5 <= x && x <= 100);
        let y = OptionRangedUsize::<5, 100>::arbitrary_from_gen(&mut gen);
        if let Some(v) = y.get_primitive() {
            assert!(5 <= v && v <= 100);
        }
    }
    for v in [0, 1, 7, 100, 101, usize::MIN, usize::MAX] {
        let x = RangedUsize::<5, 100>::from_arbitrary_int(v);
        assert_eq!(x.get(), v.rem_euclid(100 - 5 + 1) + 5);
        assert_eq!(OptionRangedUsize::<5, 100>::from_arbitrary_parts(false, v).get_primitive(), Some(x.get()));
        assert!(OptionRangedUsize::<5, 100>::from_arbitrary_parts(true, v).is_none());
    }
    assert!(matches!(OptionRangedUsize::<5, 100>::decided_by_choice(true), Some(x) if x.is_none()));
    assert!(OptionRangedUsize::<5, 100>::decided_by_choice(false).is_none());
}

#[test]
fn smaller_values_usize() {
    for v in 5..=100 as usize {
        let want: Vec<usize> =
            quickcheck::Arbitrary::shrink(&v).filter(|c| (5..=100).contains(c)).collect();
        let x = RangedUsize::<5, 100>::new(v).unwrap();
        let got: Vec<usize> = x.shrink().iter().map(|y| y.get()).collect();
        assert_eq!(got, want);
        let mut optional: Vec<Option<usize>> = vec![None];
        optional.extend(want.into_iter().map(Some));
        let got: Vec<Option<usize>> =
            OptionRangedUsize::<5, 100>::some(x).shrink().iter().map(|y| y.get_primitive()).collect();
        assert_eq!(got, optional);
    }
    assert!(OptionRangedUsize::<5, 100>::none().shrink().is_empty());
    let candidates: Vec<usize> = vec![3, 7, 200 as u8 as usize, 100, 101];
    let kept: Vec<usize> = RangedUsize::<5, 100>::keep_in_range(&candidates).iter().map(|y| y.get()).collect();
    let want: Vec<usize> =
        candidates.iter().copied().filter(|c| (5..=100).contains(c)).collect();
    assert_eq!(kept, want);
}

#[test]
fn from_unstructured_bytes_i8() {
    for start in 0..=40 {
        let mut ours = Unstructured::new(&BYTES[start..]);
        let mut theirs = Unstructured::new(&BYTES[start..]);
        for _ in 0..4 {
            let x = RangedI8::<251, 100>::arbitrary(&mut ours).unwrap();
            let value: i8 = theirs.int_in_range(-5..=100).unwrap();
            assert_eq!(x.get(), value);
            assert_eq!(ours.len(), theirs.len());
            let x = OptionRangedI8::<251, 100>::arbitrary(&mut ours).unwrap();
            let value: Option<i8> = if bool::arbitrary(&mut theirs).unwrap() {
                Some(theirs.int_in_range(-5..=100).unwrap())
            } else {
                None
            };
            assert_eq!(x.get_primitive(), value);
            assert_eq!(ours.len(), theirs.len());
        }
    }
    assert_eq!(RangedI8::<251, 100>::arbitrary(&mut Unstructured::new(&[])).unwrap().get(), -5);
    assert!(OptionRangedI8::<251, 100>::arbitrary(&mut Unstructured::new(&[])).unwrap().is_none());
    assert_eq!(RangedI8::<251, 100>::arbitrary_size_hint(), <i8 as Arbitrary>::size_hint(0));
    assert_eq!(OptionRangedI8::<251, 100>::arbitrary_size_hint(), <Option<i8> as Arbitrary>::size_hint(0));
}

#[test]
fn random_values_i8() {
    let mut gen = Gen::new(100);
    for _ in 0..200 {
        let x = RangedI8::<251, 100>::arbitrary_from_gen(&mut gen).get();
        assert!(-5 <= x && x <= 100);
        let y = OptionRangedI8::<251, 100>::arbitrary_from_gen(&mut gen);
        if let Some(v) = y.get_primitive() {
            assert!(-5 <= v && v <= 100);
        }
    }
    for v in [0, 1, 7, 100, 101, i8::MIN, i8::MAX] {
        let x = RangedI8::<251, 100>::from_arbitrary_int(v);
        assert_eq!(x.get(), v.rem_euclid(100 - -5 + 1) + -5);
        assert_eq!(OptionRangedI8::<251, 100>::from_arbitrary_parts(false, v).get_primitive(), Some(x.get()));
        assert!(OptionRangedI8::<251, 100>::from_arbitrary_parts(true, v).is_none());
    }
    assert!(matches!(OptionRangedI8::<251, 100>::decided_by_choice(true), Some(x) if x.is_none()));
    assert!(OptionRangedI8::<251, 100>::decided_by_choice(false).is_none());
}

#[test]
fn smaller_values_i8() {
    for v in -5..=100 as i8 {
        let want: Vec<i8> =
            quickcheck::Arbitrary::shrink(&v).filter(|c| (-5..=100).contains(c)).collect();
        let x = RangedI8::<251, 100>::new(v).unwrap();
        let got: Vec<i8> = x.shrink().iter().map(|y| y.get()).collect();
        assert_eq!(got, want);
        let mut optional: Vec<Option<i8>> = vec![None];
        optional.extend(want.into_iter().map(Some));
        let got: Vec<Option<i8>> =
            OptionRangedI8::<251, 100>::some(x).shrink().iter().map(|y| y.get_primitive()).collect();
        assert_eq!(got, optional);
    }
    assert!(OptionRangedI8::<251, 100>::none().shrink().is_empty());
    let candidates: Vec<i8> = vec![3, 7, 200 as u8 as i8, 100, 101];
    let kept: Vec<i8> = RangedI8::<251, 100>::keep_in_range(&candidates).iter().map(|y| y.get()).collect();
    let want: Vec<i8> =
        candidates.iter().copied().filter(|c| (-5..=100).contains(c)).collect();
    assert_eq!(kept, want);
}

#[test]
fn from_unstructured_bytes_i16() {
    for start in 0..=40 {
        let mut ours = Unstructured::new(&BYTES[start..]);
        let mut theirs = Unstructured::new(&BYTES[start..]);
        for _ in 0..4 {
            let x = RangedI16::<65531, 100>::arbitrary(&mut ours).unwrap();
            let value: i16 = theirs.int_in_range(-5..=100).unwrap();
            assert_eq!(x.get(), value);
            assert_eq!(ours.len(), theirs.len());
            let x = OptionRangedI16::<65531, 100>::arbitrary(&mut ours).unwrap();
            let value: Option<i16> = if bool::arbitrary(&mut theirs).unwrap() {
                Some(theirs.int_in_range(-5..=100).unwrap())
            } else {
                None
            };
            assert_eq!(x.get_primitive(), value);
            assert_eq!(ours.len(), theirs.len());
        }
    }
    assert_eq!(RangedI16::<65531, 100>::arbitrary(&mut Unstructured::new(&[])).unwrap().get(), -5);
    assert!(OptionRangedI16::<65531, 100>::arbitrary(&mut Unstructured::new(&[])).unwrap().is_none());
    assert_eq!(RangedI16::<65531, 100>::arbitrary_size_hint(), <i16 as Arbitrary>::size_hint(0));
    assert_eq!(OptionRangedI16::<65531, 100>::arbitrary_size_hint(), <Option<i16> as Arbitrary>::size_hint(0));
}

#[test]
fn random_values_i16() {
    let mut gen = Gen::new(100);
    for _ in 0..200 {
        let x = RangedI16::<65531, 100>::arbitrary_from_gen(&mut gen).get();
        assert!(-5 <= x && x <= 100);
        let y = OptionRangedI16::<65531, 100>::arbitrary_from_gen(&mut gen);
        if let Some(v) = y.get_primitive() {
            assert!(-5 <= v && v <= 100);
        }
    }
    for v in [0, 1, 7, 100, 101, i16::MIN, i16::MAX] {
        let x = RangedI16::<65531, 100>::from_arbitrary_int(v);
        assert_eq!(x.get(), v.rem_euclid(100 - -5 + 1) + -5);
        assert_eq!(OptionRangedI16::<65531, 100>::from_arbitrary_parts(false, v).get_primitive(), Some(x.get()));
        assert!(OptionRangedI16::<65531, 100>::from_arbitrary_parts(true, v).is_none());
    }
    assert!(matches!(OptionRangedI16::<65531, 100>::decided_by_choice(true), Some(x) if x.is_none()));
    assert!(OptionRangedI16::<65531, 100>::decided_by_choice(false).is_none());
}

#[test]
fn smaller_values_i16() {
    for v in -5..=100 as i16 {
        let want: Vec<i16> =
            quickcheck::Arbitrary::shrink(&v).filter(|c| (-5..=100).contains(c)).collect();
        let x = RangedI16::<65531, 100>::new(v).unwrap();
        let got: Vec<i16> = x.shrink().iter().map(|y| y.get()).collect();
        assert_eq!(got, want);
        let mut optional: Vec<Option<i16>> = vec![None];
        optional.extend(want.into_iter().map(Some));
        let got: Vec<Option<i16>> =
            OptionRangedI16::<65531, 100>::some(x).shrink().iter().map(|y| y.get_primitive()).collect();
        assert_eq!(got, optional);
    }
    assert!(OptionRangedI16::<65531, 100>::none().shrink().is_empty());
    let candidates: Vec<i16> = vec![3, 7, 200 as u8 as i16, 100, 101];
    let kept: Vec<i16> = RangedI16::<65531, 100>::keep_in_range(&candidates).iter().map(|y| y.get()).collect();
    let want: Vec<i16> =
        candidates.iter().copied().filter(|c| (-5..=100).contains(c)).collect();
    assert_eq!(kept, want);
}

#[test]
fn from_unstructured_bytes_i32() {
    for start in 0..=40 {
        let mut ours = Unstructured::new(&BYTES[start..]);
        let mut theirs = Unstructured::new(&BYTES[start..]);
        for _ in 0..4 {
            let x = RangedI32::<4294967291, 100>::arbitrary(&mut ours).unwrap();
            let value: i32 = theirs.int_in_range(-5..=100).unwrap();
            assert_eq!(x.get(), value);
            assert_eq!(ours.len(), theirs.len());
            let x = OptionRangedI32::<4294967291, 100>::arbitrary(&mut ours).unwrap();
            let value: Option<i32> = if bool::arbitrary(&mut theirs).unwrap() {
                Some(theirs.int_in_range(-5..=100).unwrap())
            } else {
                None
            };
            assert_eq!(x.get_primitive(), value);
            assert_eq!(ours.len(), theirs.len());
        }
    }
    assert_eq!(RangedI32::<4294967291, 100>::arbitrary(&mut Unstructured::new(&[])).unwrap().get(), -5);
    assert!(OptionRangedI32::<4294967291, 100>::arbitrary(&mut Unstructured::new(&[])).unwrap().is_none());
    assert_eq!(RangedI32::<4294967291, 100>::arbitrary_size_hint(), <i32 as Arbitrary>::size_hint(0));
    assert_eq!(OptionRangedI32::<4294967291, 100>::arbitrary_size_hint(), <Option<i32> as Arbitrary>::size_hint(0));
}

#[test]
fn random_values_i32() {
    let mut gen = Gen::new(100);
    for _ in 0..200 {
        let x = RangedI32::<4294967291, 100>::arbitrary_from_gen(&mut gen).get();
        assert!(-5 <= x && x <= 100);
        let y = OptionRangedI32::<4294967291, 100>::arbitrary_from_gen(&mut gen);
        if let Some(v) = y.get_primitive() {
            assert!(-5 <= v && v <= 100);
        }
    }
    for v in [0, 1, 7, 100, 101, i32::MIN, i32::MAX] {
        let x = RangedI32::<4294967291, 100>::from_arbitrary_int(v);
        assert_eq!(x.get(), v.rem_euclid(100 - -5 + 1) + -5);
        assert_eq!(OptionRangedI32::<4294967291, 100>::from_arbitrary_parts(false, v).get_primitive(), Some(x.get()));
        assert!(OptionRangedI32::<4294967291, 100>::from_arbitrary_parts(true, v).is_none());
    }
    assert!(matches!(OptionRangedI32::<4294967291, 100>::decided_by_choice(true), Some(x) if x.is_none()));
    assert!(OptionRangedI32::<4294967291, 100>::decided_by_choice(false).is_none());
}

#[test]
fn smaller_values_i32() {
    for v in -5..=100 as i32 {
        let want: Vec<i32> =
            quickcheck::Arbitrary::shrink(&v).filter(|c| (-5..=100).contains(c)).collect();
        let x = RangedI32::<4294967291, 100>::new(v).unwrap();
        let got: Vec<i32> = x.shrink().iter().map(|y| y.get()).collect();
        assert_eq!(got, want);
        let mut optional: Vec<Option<i32>> = vec![None];
        optional.extend(want.into_iter().map(Some));
        let got: Vec<Option<i32>> =
            OptionRangedI32::<4294967291, 100>::some(x).shrink().iter().map(|y| y.get_primitive()).collect();
        assert_eq!(got, optional);
    }
    assert!(OptionRangedI32::<4294967291, 100>::none().shrink().is_empty());
    let candidates: Vec<i32> = vec![3, 7, 200 as u8 as i32, 100, 101];
    let kept: Vec<i32> = RangedI32::<4294967291, 100>::keep_in_range(&candidates).iter().map(|y| y.get()).collect();
    let want: Vec<i32> =
        candidates.iter().copied().filter(|c| (-5..=100).contains(c)).collect();
    assert_eq!(kept, want);
}

#[test]
fn from_unstructured_bytes_i64() {
    for start in 0..=40 {
        let mut ours = Unstructured::new(&BYTES[start..]);
        let mut theirs = Unstructured::new(&BYTES[start..]);
        for _ in 0..4 {
            let x = RangedI64::<18446744073709551611, 100>::arbitrary(&mut ours).unwrap();
            let value: i64 = theirs.int_in_range(-5..=100).unwrap();
            assert_eq!(x.get(), value);
            assert_eq!(ours.len(), theirs.len());
            let x = OptionRangedI64::<18446744073709551611, 100>::arbitrary(&mut ours).unwrap();
            let value: Option<i64> = if bool::arbitrary(&mut theirs).unwrap() {
                Some(theirs.int_in_range(-5..=100).unwrap())
            } else {
                None
            };
            assert_eq!(x.get_primitive(), value);
            assert_eq!(ours.len(), theirs.len());
        }
    }
    assert_eq!(RangedI64::<18446744073709551611, 100>::arbitrary(&mut Unstructured::new(&[])).unwrap().get(), -5);
    assert!(OptionRangedI64::<18446744073709551611, 100>::arbitrary(&mut Unstructured::new(&[])).unwrap().is_none());
    assert_eq!(RangedI64::<18446744073709551611, 100>::arbitrary_size_hint(), <i64 as Arbitrary>::size_hint(0));
    assert_eq!(OptionRangedI64::<18446744073709551611, 100>::arbitrary_size_hint(), <Option<i64> as Arbitrary>::size_hint(0));
}

#[test]
fn random_values_i64() {
    let mut gen = Gen::new(100);
    for _ in 0..200 {
        let x = RangedI64::<18446744073709551611, 100>::arbitrary_from_gen(&mut gen).get();
        assert!(-5 <= x && x <= 100);
        let y = OptionRangedI64::<18446744073709551611, 100>::arbitrary_from_gen(&mut gen);
        if let Some(v) = y.get_primitive() {
            assert!(-5 <= v && v <= 100);
        }
    }
    for v in [0, 1, 7, 100, 101, i64::MIN, i64::MAX] {
        let x = RangedI64::<18446744073709551611, 100>::from_arbitrary_int(v);
        assert_eq!(x.get(), v.rem_euclid(100 - -5 + 1) + -5);
        assert_eq!(OptionRangedI64::<18446744073709551611, 100>::from_arbitrary_parts(false, v).get_primitive(), Some(x.get()));
        assert!(OptionRangedI64::<18446744073709551611, 100>::from_arbitrary_parts(true, v).is_none());
    }
    assert!(matches!(OptionRangedI64::<18446744073709551611, 100>::decided_by_choice(true), Some(x) if x.is_none()));
    assert!(OptionRangedI64::<18446744073709551611, 100>::decided_by_choice(false).is_none());
}

#[test]
fn smaller_values_i64() {
    for v in -5..=100 as i64 {
        let want: Vec<i64> =
            quickcheck::Arbitrary::shrink(&v).filter(|c| (-5..=100).contains(c)).collect();
        let x = RangedI64::<18446744073709551611, 100>::new(v).unwrap();
        let got: Vec<i64> = x.shrink().iter().map(|y| y.get()).collect();
        assert_eq!(got, want);
        let mut optional: Vec<Option<i64>> = vec![None];
        optional.extend(want.into_iter().map(Some));
        let got: Vec<Option<i64>> =
            OptionRangedI64::<18446744073709551611, 100>::some(x).shrink().iter().map(|y| y.get_primitive()).collect();
        assert_eq!(got, optional);
    }
    assert!(OptionRangedI64::<18446744073709551611, 100>::none().shrink().is_empty());
    let candidates: Vec<i64> = vec![3, 7, 200 as u8 as i64, 100, 101];
    let kept: Vec<i64> = RangedI64::<18446744073709551611, 100>::keep_in_range(&candidates).iter().map(|y| y.get()).collect();
    let want: Vec<i64> =
        candidates.iter().copied().filter(|c| (-5..=100).contains(c)).collect();
    assert_eq!(kept, want);
}

#[test]
fn from_unstructured_bytes_i128() {
    for start in 0..=40 {
        let mut ours = Unstructured::new(&BYTES[start..]);
        let mut theirs = Unstructured::new(&BYTES[start..]);
        for _ in 0..4 {
            let x = RangedI128::<340282366920938463463374607431768211451, 100>::arbitrary(&mut ours).unwrap();
            let value: i128 = theirs.int_in_range(-5..=100).unwrap();
            assert_eq!(x.get(), value);
            assert_eq!(ours.len(), theirs.len());
            let x = OptionRangedI128::<340282366920938463463374607431768211451, 100>::arbitrary(&mut ours).unwrap();
            let value: Option<i128> = if bool::arbitrary(&mut theirs).unwrap() {
                Some(theirs.int_in_range(-5..=100).unwrap())
            } else {
                None
            };
            assert_eq!(x.get_primitive(), value);
            assert_eq!(ours.len(), theirs.len());
        }
    }
    assert_eq!(RangedI128::<340282366920938463463374607431768211451, 100>::arbitrary(&mut Unstructured::new(&[])).unwrap().get(), -5);
    assert!(OptionRangedI128::<340282366920938463463374607431768211451, 100>::arbitrary(&mut Unstructured::new(&[])).unwrap().is_none());
    assert_eq!(RangedI128::<340282366920938463463374607431768211451, 100>::arbitrary_size_hint(), <i128 as Arbitrary>::size_hint(0));
    assert_eq!(OptionRangedI128::<340282366920938463463374607431768211451, 100>::arbitrary_size_hint(), <Option<i128> as Arbitrary>::size_hint(0));
}

#[test]
fn random_values_i128() {
    let mut gen = Gen::new(100);
    for _ in 0..200 {
        let x = RangedI128::<340282366920938463463374607431768211451, 100>::arbitrary_from_gen(&mut gen).get();
        assert!(-5 <= x && x <= 100);
        let y = OptionRangedI128::<340282366920938463463374607431768211451, 100>::arbitrary_from_gen(&mut gen);
        if let Some(v) = y.get_primitive() {
            assert!(-5 <= v && v <= 100);
        }
    }
    for v in [0, 1, 7, 100, 101, i128::MIN, i128::MAX] {
        let x = RangedI128::<340282366920938463463374607431768211451, 100>::from_arbitrary_int(v);
        assert_eq!(x.get(), v.rem_euclid(100 - -5 + 1) + -5);
        assert_eq!(OptionRangedI128::<340282366920938463463374607431768211451, 100>::from_arbitrary_parts(false, v).get_primitive(), Some(x.get()));
        assert!(OptionRangedI128::<340282366920938463463374607431768211451, 100>::from_arbitrary_parts(true, v).is_none());
    }
    assert!(matches!(OptionRangedI128::<340282366920938463463374607431768211451, 100>::decided_by_choice(true), Some(x) if x.is_none()));
    assert!(OptionRangedI128::<340282366920938463463374607431768211451, 100>::decided_by_choice(false).is_none());
}

#[test]
fn smaller_values_i128() {
    for v in -5..=100 as i128 {
        let want: Vec<i128> =
            quickcheck::Arbitrary::shrink(&v).filter(|c| (-5..=100).contains(c)).collect();
        let x = RangedI128::<340282366920938463463374607431768211451, 100>::new(v).unwrap();
        let got: Vec<i128> = x.shrink().iter().map(|y| y.get()).collect();
        assert_eq!(got, want);
        let mut optional: Vec<Option<i128>> = vec![None];
        optional.extend(want.into_iter().map(Some));
        let got: Vec<Option<i128>> =
            OptionRangedI128::<340282366920938463463374607431768211451, 100>::some(x).shrink().iter().map(|y| y.get_primitive()).collect();
        assert_eq!(got, optional);
    }
    assert!(OptionRangedI128::<340282366920938463463374607431768211451, 100>::none().shrink().is_empty());
    let candidates: Vec<i128> = vec![3, 7, 200 as u8 as i128, 100, 101];
    let kept: Vec<i128> = RangedI128::<340282366920938463463374607431768211451, 100>::keep_in_range(&candidates).iter().map(|y| y.get()).collect();
    let want: Vec<i128> =
        candidates.iter().copied().filter(|c| (-5..=100).contains(c)).collect();
    assert_eq!(kept, want);
}

#[test]
fn from_unstructured_bytes_isize() {
    for start in 0..=40 {
        let mut ours = Unstructured::new(&BYTES[start..]);
        let mut theirs = Unstructured::new(&BYTES[start..]);
        for _ in 0..4 {
            let x = RangedIsize::<18446744073709551611, 100>::arbitrary(&mut ours).unwrap();
            let value: isize = theirs.int_in_range(-5..=100).unwrap();
            assert_eq!(x.get(), value);
            assert_eq!(ours.len(), theirs.len());
            let x = OptionRangedIsize::<18446744073709551611, 100>::arbitrary(&mut ours).unwrap();
            let value: Option<isize> = if bool::arbitrary(&mut theirs).unwrap() {
                Some(theirs.int_in_range(-5..=100).unwrap())
            } else {
                None
            };
            assert_eq!(x.get_primitive(), value);
            assert_eq!(ours.len(), theirs.len());
        }
    }
    assert_eq!(RangedIsize::<18446744073709551611, 100>::arbitrary(&mut Unstructured::new(&[])).unwrap().get(), -5);
    assert!(OptionRangedIsize::<18446744073709551611, 100>::arbitrary(&mut Unstructured::new(&[])).unwrap().is_none());
    assert_eq!(RangedIsize::<18446744073709551611, 100>::arbitrary_size_hint(), <isize as Arbitrary>::size_hint(0));
    assert_eq!(OptionRangedIsize::<18446744073709551611, 100>::arbitrary_size_hint(), <Option<isize> as Arbitrary>::size_hint(0));
}

#[test]
fn random_values_isize() {
    let mut gen = Gen::new(100);
    for _ in 0..200 {
        let x = RangedIsize::<18446744073709551611, 100>::arbitrary_from_gen(&mut gen).get();
        assert!(-5 <= x && x <= 100);
        let y = OptionRangedIsize::<18446744073709551611, 100>::arbitrary_from_gen(&mut gen);
        if let Some(v) = y.get_primitive() {
            assert!(-5 <= v && v <= 100);
        }
    }
    for v in [0, 1, 7, 100, 101, isize::MIN, isize::MAX] {
        let x = RangedIsize::<18446744073709551611, 100>::from_arbitrary_int(v);
        assert_eq!(x.get(), v.rem_euclid(100 - -5 + 1) + -5);
        assert_eq!(OptionRangedIsize::<18446744073709551611, 100>::from_arbitrary_parts(false, v).get_primitive(), Some(x.get()));
        assert!(OptionRangedIsize::<18446744073709551611, 100>::from_arbitrary_parts(true, v).is_none());
    }
    assert!(matches!(OptionRangedIsize::<18446744073709551611, 100>::decided_by_choice(true), Some(x) if x.is_none()));
    assert!(OptionRangedIsize::<18446744073709551611, 100>::decided_by_choice(false).is_none());
}

#[test]
fn smaller_values_isize() {
    for v in -5..=100 as isize {
        let want: Vec<isize> =
            quickcheck::Arbitrary::shrink(&v).filter(|c| (-5..=100).contains(c)).collect();
        let x = RangedIsize::<18446744073709551611, 100>::new(v).unwrap();
        let got: Vec<isize> = x.shrink().iter().map(|y| y.get()).collect();
        assert_eq!(got, want);
        let mut optional: Vec<Option<isize>> = vec![None];
        optional.extend(want.into_iter().map(Some));
        let got: Vec<Option<isize>> =
            OptionRangedIsize::<18446744073709551611, 100>::some(x).shrink().iter().map(|y| y.get_primitive()).collect();
        assert_eq!(got, optional);
    }
    assert!(OptionRangedIsize::<18446744073709551611, 100>::none().shrink().is_empty());
    let candidates: Vec<isize> = vec![3, 7, 200 as u8 as isize, 100, 101];
    let kept: Vec<isize> = RangedIsize::<18446744073709551611, 100>::keep_in_range(&candidates).iter().map(|y| y.get()).collect();
    let want: Vec<isize> =
        candidates.iter().copied().filter(|c| (-5..=100).contains(c)).collect();
    assert_eq!(kept, want);
}

#[test]
fn integers_of_given_bytes() {
    let mut u = Unstructured::new(&BYTES);
    assert_eq!(RangedU16::<5, 100>::arbitrary(&mut u).unwrap().get(), 5 + 1);
    assert_eq!(u.len(), 39);
    let mut u = Unstructured::new(&BYTES);
    assert_eq!(RangedU16::<0, 1000>::arbitrary(&mut u).unwrap().get(), 456);
    assert_eq!(u.len(), 38);
    let mut u = Unstructured::new(&[200]);
    assert_eq!(RangedU16::<0, 1000>::arbitrary(&mut u).unwrap().get(), 200);
    assert_eq!(u.len(), 0);
    let mut u = Unstructured::new(&[200, 7]);
    assert_eq!(RangedI8::<251, 100>::arbitrary(&mut u).unwrap().get(), -5 + 94);
    assert_eq!(RangedI8::<251, 251>::arbitrary(&mut u).unwrap().get(), -5);
    assert_eq!(u.len(), 1);
    let mut u = Unstructured::new(&[200, 7]);
    assert_eq!(RangedU64::<0, 18446744073709551615>::arbitrary(&mut u).unwrap().get(), 200 * 256 + 7);
    let mut u = Unstructured::new(&[3, 200, 7]);
    let x = OptionRangedU8::<5, 100>::arbitrary(&mut u).unwrap();
    assert_eq!(x.get_primitive(), Some(5 + 8));
    assert_eq!(u.len(), 1);
}

#[test]
fn candidates_of_given_values() {
    let smaller = |v: u8| -> Vec<u8> {
        RangedU8::<0, 255>::new(v).unwrap().shrink().iter().map(|x| x.get()).collect()
    };
    assert_eq!(smaller(0), vec![]);
    assert_eq!(smaller(1), vec![0]);
    assert_eq!(smaller(100), vec![0, 50, 75, 88, 94, 97, 99]);
    let smaller = |v: i8| -> Vec<i8> {
        RangedI8::<128, 127>::new(v).unwrap().shrink().iter().map(|x| x.get()).collect()
    };
    assert_eq!(smaller(-1), vec![0]);
    assert_eq!(smaller(-2), vec![0, 2, -1]);
    assert_eq!(smaller(-5), vec![0, 5, -3, -4]);
    assert_eq!(smaller(5), vec![0, 3, 4]);
    assert_eq!(smaller(-128), vec![0, -64, -96, -112, -120, -124, -126, -127]);
    let kept: Vec<i8> =
        RangedI8::<253, 4>::new(-3).unwrap().shrink().iter().map(|x| x.get()).collect();
    assert_eq!(kept, vec![0, 3, -2]);
}

#[test]
fn random_numbers_of_pointer_width() {
    assert_eq!(RangedUsize::<3, 20>::random_bounds(), (3, 20));
    assert!(matches!(RangedUsize::<3, 20>::from_random(7), Some(x) if x.get() == 7));
    assert!(RangedUsize::<3, 20>::from_random(21).is_none());
    assert_eq!(RangedIsize::<18446744073709551611, 20>::random_bounds(), (-5, 20));
    assert!(matches!(
        RangedIsize::<18446744073709551611, 20>::from_random(-5),
        Some(x) if x.get() == -5
    ));
    assert!(RangedIsize::<18446744073709551611, 20>::from_random(-6).is_none());
}
