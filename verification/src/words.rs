//! Two's complement: the patterns by which the bounds of the signed types are given, and the
//! distances between signed values.

use vstd::prelude::*;

use crate::math::{bits_of, magnitude, signed_of};

verus! {

/// The `i8` whose two's complement pattern is `bits`.
pub fn i8_from_bits(bits: u8) -> (r: i8)
    ensures
        r == signed_of(bits as int, u8::MAX + 1),
{
    if bits <= i8::MAX as u8 {
        bits as i8
    } else {
        -((u8::MAX - bits) as i8) - 1
    }
}

/// The two's complement pattern of `v`.
pub fn i8_to_bits(v: i8) -> (r: u8)
    ensures
        r == bits_of(v as int, u8::MAX + 1),
{
    if v >= 0 {
        v as u8
    } else {
        u8::MAX - (-(v + 1)) as u8
    }
}

/// The absolute value of `v`.
pub(crate) fn i8_magnitude(v: i8) -> (r: u8)
    ensures
        r == magnitude(v as int),
{
    if v >= 0 {
        v as u8
    } else {
        (-(v + 1)) as u8 + 1
    }
}

/// The distance from `a` up to `b`.
pub(crate) fn i8_distance(a: i8, b: i8) -> (r: u8)
    requires
        a <= b,
    ensures
        r == b - a,
{
    if a >= 0 {
        (b - a) as u8
    } else if b >= 0 {
        b as u8 + i8_magnitude(a)
    } else {
        i8_magnitude(a) - i8_magnitude(b)
    }
}

/// The `i16` whose two's complement pattern is `bits`.
pub fn i16_from_bits(bits: u16) -> (r: i16)
    ensures
        r == signed_of(bits as int, u16::MAX + 1),
{
    if bits <= i16::MAX as u16 {
        bits as i16
    } else {
        -((u16::MAX - bits) as i16) - 1
    }
}

/// The two's complement pattern of `v`.
pub fn i16_to_bits(v: i16) -> (r: u16)
    ensures
        r == bits_of(v as int, u16::MAX + 1),
{
    if v >= 0 {
        v as u16
    } else {
        u16::MAX - (-(v + 1)) as u16
    }
}

/// The absolute value of `v`.
pub(crate) fn i16_magnitude(v: i16) -> (r: u16)
    ensures
        r == magnitude(v as int),
{
    if v >= 0 {
        v as u16
    } else {
        (-(v + 1)) as u16 + 1
    }
}

/// The distance from `a` up to `b`.
pub(crate) fn i16_distance(a: i16, b: i16) -> (r: u16)
    requires
        a <= b,
    ensures
        r == b - a,
{
    if a >= 0 {
        (b - a) as u16
    } else if b >= 0 {
        b as u16 + i16_magnitude(a)
    } else {
        i16_magnitude(a) - i16_magnitude(b)
    }
}

/// The `i32` whose two's complement pattern is `bits`.
pub fn i32_from_bits(bits: u32) -> (r: i32)
    ensures
        r == signed_of(bits as int, u32::MAX + 1),
{
    if bits <= i32::MAX as u32 {
        bits as i32
    } else {
        -((u32::MAX - bits) as i32) - 1
    }
}

/// The two's complement pattern of `v`.
pub fn i32_to_bits(v: i32) -> (r: u32)
    ensures
        r == bits_of(v as int, u32::MAX + 1),
{
    if v >= 0 {
        v as u32
    } else {
        u32::MAX - (-(v + 1)) as u32
    }
}

/// The absolute value of `v`.
pub(crate) fn i32_magnitude(v: i32) -> (r: u32)
    ensures
        r == magnitude(v as int),
{
    if v >= 0 {
        v as u32
    } else {
        (-(v + 1)) as u32 + 1
    }
}

/// The distance from `a` up to `b`.
pub(crate) fn i32_distance(a: i32, b: i32) -> (r: u32)
    requires
        a <= b,
    ensures
        r == b - a,
{
    if a >= 0 {
        (b - a) as u32
    } else if b >= 0 {
        b as u32 + i32_magnitude(a)
    } else {
        i32_magnitude(a) - i32_magnitude(b)
    }
}

/// The `i64` whose two's complement pattern is `bits`.
pub fn i64_from_bits(bits: u64) -> (r: i64)
    ensures
        r == signed_of(bits as int, u64::MAX + 1),
{
    if bits <= i64::MAX as u64 {
        bits as i64
    } else {
        -((u64::MAX - bits) as i64) - 1
    }
}

/// The two's complement pattern of `v`.
pub fn i64_to_bits(v: i64) -> (r: u64)
    ensures
        r == bits_of(v as int, u64::MAX + 1),
{
    if v >= 0 {
        v as u64
    } else {
        u64::MAX - (-(v + 1)) as u64
    }
}

/// The absolute value of `v`.
pub(crate) fn i64_magnitude(v: i64) -> (r: u64)
    ensures
        r == magnitude(v as int),
{
    if v >= 0 {
        v as u64
    } else {
        (-(v + 1)) as u64 + 1
    }
}

/// The distance from `a` up to `b`.
pub(crate) fn i64_distance(a: i64, b: i64) -> (r: u64)
    requires
        a <= b,
    ensures
        r == b - a,
{
    if a >= 0 {
        (b - a) as u64
    } else if b >= 0 {
        b as u64 + i64_magnitude(a)
    } else {
        i64_magnitude(a) - i64_magnitude(b)
    }
}

/// The `i128` whose two's complement pattern is `bits`.
pub fn i128_from_bits(bits: u128) -> (r: i128)
    ensures
        r == signed_of(bits as int, u128::MAX + 1),
{
    if bits <= i128::MAX as u128 {
        bits as i128
    } else {
        -((u128::MAX - bits) as i128) - 1
    }
}

/// The two's complement pattern of `v`.
pub fn i128_to_bits(v: i128) -> (r: u128)
    ensures
        r == bits_of(v as int, u128::MAX + 1),
{
    if v >= 0 {
        v as u128
    } else {
        u128::MAX - (-(v + 1)) as u128
    }
}

/// The absolute value of `v`.
pub(crate) fn i128_magnitude(v: i128) -> (r: u128)
    ensures
        r == magnitude(v as int),
{
    if v >= 0 {
        v as u128
    } else {
        (-(v + 1)) as u128 + 1
    }
}

/// The distance from `a` up to `b`.
pub(crate) fn i128_distance(a: i128, b: i128) -> (r: u128)
    requires
        a <= b,
    ensures
        r == b - a,
{
    if a >= 0 {
        (b - a) as u128
    } else if b >= 0 {
        b as u128 + i128_magnitude(a)
    } else {
        i128_magnitude(a) - i128_magnitude(b)
    }
}

/// The `isize` whose two's complement pattern is `bits`.
pub fn isize_from_bits(bits: usize) -> (r: isize)
    ensures
        r == signed_of(bits as int, usize::MAX + 1),
{
    if bits <= isize::MAX as usize {
        bits as isize
    } else {
        -((usize::MAX - bits) as isize) - 1
    }
}

/// The two's complement pattern of `v`.
pub fn isize_to_bits(v: isize) -> (r: usize)
    ensures
        r == bits_of(v as int, usize::MAX + 1),
{
    if v >= 0 {
        v as usize
    } else {
        usize::MAX - (-(v + 1)) as usize
    }
}

/// The absolute value of `v`.
pub(crate) fn isize_magnitude(v: isize) -> (r: usize)
    ensures
        r == magnitude(v as int),
{
    if v >= 0 {
        v as usize
    } else {
        (-(v + 1)) as usize + 1
    }
}

/// The distance from `a` up to `b`.
pub(crate) fn isize_distance(a: isize, b: isize) -> (r: usize)
    requires
        a <= b,
    ensures
        r == b - a,
{
    if a >= 0 {
        (b - a) as usize
    } else if b >= 0 {
        b as usize + isize_magnitude(a)
    } else {
        isize_magnitude(a) - isize_magnitude(b)
    }
}

} // verus!
