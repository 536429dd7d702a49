//! Integers out of unstructured bytes, by the `arbitrary` crate.

use arbitrary::{Arbitrary, Unstructured};
use vstd::arithmetic::div_mod::{
    lemma_fundamental_div_mod, lemma_mod_bound, lemma_mod_multiples_basic, lemma_small_mod,
};
use vstd::arithmetic::mul::lemma_mul_is_commutative;
use vstd::arithmetic::power::{lemma_pow_increases, pow};
use vstd::prelude::*;

use crate::bytes::le_value;

verus! {

/// The `arbitrary` crate's source of bytes.
#[verifier::external_type_specification]
#[verifier::external_body]
pub struct ExUnstructured<'a>(arbitrary::Unstructured<'a>);

/// The `arbitrary` crate's error.
#[verifier::external_type_specification]
#[verifier::external_body]
pub struct ExArbitraryError(arbitrary::Error);

/// The bytes that are left in a source of bytes, in the order in which they are taken out.
pub uninterp spec fn unread(u: Unstructured<'_>) -> Seq<u8>;

/// How many digits `n` has to the base 256; zero has none.
pub open spec fn byte_digits(n: nat) -> nat
    decreases n,
{
    if n == 0 {
        0
    } else {
        1 + byte_digits(n / 256)
    }
}

/// How many bytes an integer of `min..=max` takes: as many as `max - min` has digits to the base 256,
/// or fewer where fewer are left.
pub open spec fn bytes_taken(bytes: Seq<u8>, min: int, max: int) -> int {
    let digits = byte_digits((max - min) as nat);
    if bytes.len() < digits {
        bytes.len() as int
    } else {
        digits as int
    }
}

/// The integer of `min..=max` that bytes give: those that are taken, the highest one first, wrapped
/// into the range.
pub open spec fn int_from_bytes(bytes: Seq<u8>, min: int, max: int) -> int {
    min + (le_value(bytes.take(bytes_taken(bytes, min, max)).reverse()) as int) % (max - min + 1)
}

/// The integer is in the range; it is the least one where no bytes are left; and a range of one value
/// takes none.
pub proof fn law_int_from_bytes(bytes: Seq<u8>, min: int, max: int)
    requires
        min <= max,
    ensures
        min <= int_from_bytes(bytes, min, max) <= max,
        bytes.len() == 0 ==> int_from_bytes(bytes, min, max) == min,
        min == max ==> bytes_taken(bytes, min, max) == 0,
        0 <= bytes_taken(bytes, min, max) <= bytes.len(),
{
    let taken = bytes.take(bytes_taken(bytes, min, max)).reverse();
    lemma_mod_bound(le_value(taken) as int, max - min + 1);
    if bytes.len() == 0 {
        assert(le_value(taken) == 0);
        lemma_small_mod(0, (max - min + 1) as nat);
    }
}

/// As many bytes are taken as are left, or as few as hold every distance within the range.
pub proof fn law_bytes_taken(bytes: Seq<u8>, min: int, max: int)
    requires
        min <= max,
    ensures
        0 <= bytes_taken(bytes, min, max) <= bytes.len(),
        bytes_taken(bytes, min, max) < bytes.len() ==> max - min < pow(
            256,
            bytes_taken(bytes, min, max) as nat,
        ),
        bytes_taken(bytes, min, max) > 0 ==> pow(256, (bytes_taken(bytes, min, max) - 1) as nat)
            <= max - min,
{
    let digits = byte_digits((max - min) as nat);
    let taken = bytes_taken(bytes, min, max);
    law_byte_digits((max - min) as nat);
    if taken > 0 {
        lemma_pow_increases(256, (taken - 1) as nat, (digits - 1) as nat);
    }
}

/// So many bytes hold an integer, and fewer do not.
pub proof fn law_byte_digits(n: nat)
    ensures
        n < pow(256, byte_digits(n)),
        n > 0 ==> byte_digits(n) > 0 && pow(256, (byte_digits(n) - 1) as nat) <= n,
        n == 0 ==> byte_digits(n) == 0,
    decreases n,
{
    reveal(pow);
    if n > 0 {
        law_byte_digits(n / 256);
    }
}

/// The integer and the bytes that are taken, the highest one first, are the same but for a multiple of
/// the length of the range.
pub proof fn law_int_wraps_bytes(bytes: Seq<u8>, min: int, max: int)
    requires
        min <= max,
    ensures
        (le_value(bytes.take(bytes_taken(bytes, min, max)).reverse()) - (int_from_bytes(
            bytes,
            min,
            max,
        ) - min)) % (max - min + 1) == 0,
{
    let value = le_value(bytes.take(bytes_taken(bytes, min, max)).reverse()) as int;
    let n = max - min + 1;
    lemma_fundamental_div_mod(value, n);
    lemma_mul_is_commutative(n, value / n);
    lemma_mod_multiples_basic(value / n, n);
}

/// A boolean takes the first byte and is true if that is odd; where no byte is left it is false.
pub proof fn law_bool_from_bytes(bytes: Seq<u8>)
    ensures
        bytes.len() == 0 ==> !lowest_bit(bytes) && after_bool(bytes) == bytes,
        bytes.len() > 0 ==> (lowest_bit(bytes) <==> bytes[0] as int % 2 != 0) && bytes
            == seq![bytes[0]] + after_bool(bytes),
{
    if bytes.len() > 0 {
        assert(bytes =~= seq![bytes[0]] + after_bool(bytes));
    }
}

/// The boolean that a source of bytes gives: the lowest bit of its first byte, and `false` where no
/// byte is left.
pub open spec fn lowest_bit(bytes: Seq<u8>) -> bool {
    bytes.len() > 0 && bytes[0] % 2 == 1
}

/// What a source of bytes still holds after it gave a boolean.
pub open spec fn after_bool(bytes: Seq<u8>) -> Seq<u8> {
    if bytes.len() > 0 {
        bytes.skip(1)
    } else {
        bytes
    }
}

/// `<bool as Arbitrary>::arbitrary`: takes one byte, if one is left, and gives its lowest bit. It
/// does not fail.
#[verifier::external_body]
pub(crate) fn arbitrary_bool<'a>(u: &mut Unstructured<'a>) -> (r: Result<bool, arbitrary::Error>)
    ensures
        r is Ok,
        r->Ok_0 == lowest_bit(unread(*old(u))),
        unread(*final(u)) == after_bool(unread(*old(u))),
{
    bool::arbitrary(u)
}

/// `Unstructured::int_in_range` on `u8`: takes as many bytes as the range needs, or those that are
/// left, and gives the integer of `min..=max` that they make. It does not fail.
#[verifier::external_body]
pub(crate) fn int_in_range_u8<'a>(
    u: &mut Unstructured<'a>,
    min: u8,
    max: u8,
) -> (r: Result<u8, arbitrary::Error>)
    requires
        min <= max,
    ensures
        r is Ok,
        r->Ok_0 == int_from_bytes(unread(*old(u)), min as int, max as int),
        unread(*final(u)) == unread(*old(u)).skip(
            bytes_taken(unread(*old(u)), min as int, max as int),
        ),
{
    u.int_in_range(min..=max)
}

/// `Unstructured::int_in_range` on `u16`: takes as many bytes as the range needs, or those that are
/// left, and gives the integer of `min..=max` that they make. It does not fail.
#[verifier::external_body]
pub(crate) fn int_in_range_u16<'a>(
    u: &mut Unstructured<'a>,
    min: u16,
    max: u16,
) -> (r: Result<u16, arbitrary::Error>)
    requires
        min <= max,
    ensures
        r is Ok,
        r->Ok_0 == int_from_bytes(unread(*old(u)), min as int, max as int),
        unread(*final(u)) == unread(*old(u)).skip(
            bytes_taken(unread(*old(u)), min as int, max as int),
        ),
{
    u.int_in_range(min..=max)
}

/// `Unstructured::int_in_range` on `u32`: takes as many bytes as the range needs, or those that are
/// left, and gives the integer of `min..=max` that they make. It does not fail.
#[verifier::external_body]
pub(crate) fn int_in_range_u32<'a>(
    u: &mut Unstructured<'a>,
    min: u32,
    max: u32,
) -> (r: Result<u32, arbitrary::Error>)
    requires
        min <= max,
    ensures
        r is Ok,
        r->Ok_0 == int_from_bytes(unread(*old(u)), min as int, max as int),
        unread(*final(u)) == unread(*old(u)).skip(
            bytes_taken(unread(*old(u)), min as int, max as int),
        ),
{
    u.int_in_range(min..=max)
}

/// `Unstructured::int_in_range` on `u64`: takes as many bytes as the range needs, or those that are
/// left, and gives the integer of `min..=max` that they make. It does not fail.
#[verifier::external_body]
pub(crate) fn int_in_range_u64<'a>(
    u: &mut Unstructured<'a>,
    min: u64,
    max: u64,
) -> (r: Result<u64, arbitrary::Error>)
    requires
        min <= max,
    ensures
        r is Ok,
        r->Ok_0 == int_from_bytes(unread(*old(u)), min as int, max as int),
        unread(*final(u)) == unread(*old(u)).skip(
            bytes_taken(unread(*old(u)), min as int, max as int),
        ),
{
    u.int_in_range(min..=max)
}

/// `Unstructured::int_in_range` on `u128`: takes as many bytes as the range needs, or those that are
/// left, and gives the integer of `min..=max` that they make. It does not fail.
#[verifier::external_body]
pub(crate) fn int_in_range_u128<'a>(
    u: &mut Unstructured<'a>,
    min: u128,
    max: u128,
) -> (r: Result<u128, arbitrary::Error>)
    requires
        min <= max,
    ensures
        r is Ok,
        r->Ok_0 == int_from_bytes(unread(*old(u)), min as int, max as int),
        unread(*final(u)) == unread(*old(u)).skip(
            bytes_taken(unread(*old(u)), min as int, max as int),
        ),
{
    u.int_in_range(min..=max)
}

/// `Unstructured::int_in_range` on `usize`: takes as many bytes as the range needs, or those that are
/// left, and gives the integer of `min..=max` that they make. It does not fail.
#[verifier::external_body]
pub(crate) fn int_in_range_usize<'a>(
    u: &mut Unstructured<'a>,
    min: usize,
    max: usize,
) -> (r: Result<usize, arbitrary::Error>)
    requires
        min <= max,
    ensures
        r is Ok,
        r->Ok_0 == int_from_bytes(unread(*old(u)), min as int, max as int),
        unread(*final(u)) == unread(*old(u)).skip(
            bytes_taken(unread(*old(u)), min as int, max as int),
        ),
{
    u.int_in_range(min..=max)
}

/// `Unstructured::int_in_range` on `i8`: takes as many bytes as the range needs, or those that are
/// left, and gives the integer of `min..=max` that they make. It does not fail.
#[verifier::external_body]
pub(crate) fn int_in_range_i8<'a>(
    u: &mut Unstructured<'a>,
    min: i8,
    max: i8,
) -> (r: Result<i8, arbitrary::Error>)
    requires
        min <= max,
    ensures
        r is Ok,
        r->Ok_0 == int_from_bytes(unread(*old(u)), min as int, max as int),
        unread(*final(u)) == unread(*old(u)).skip(
            bytes_taken(unread(*old(u)), min as int, max as int),
        ),
{
    u.int_in_range(min..=max)
}

/// `Unstructured::int_in_range` on `i16`: takes as many bytes as the range needs, or those that are
/// left, and gives the integer of `min..=max` that they make. It does not fail.
#[verifier::external_body]
pub(crate) fn int_in_range_i16<'a>(
    u: &mut Unstructured<'a>,
    min: i16,
    max: i16,
) -> (r: Result<i16, arbitrary::Error>)
    requires
        min <= max,
    ensures
        r is Ok,
        r->Ok_0 == int_from_bytes(unread(*old(u)), min as int, max as int),
        unread(*final(u)) == unread(*old(u)).skip(
            bytes_taken(unread(*old(u)), min as int, max as int),
        ),
{
    u.int_in_range(min..=max)
}

/// `Unstructured::int_in_range` on `i32`: takes as many bytes as the range needs, or those that are
/// left, and gives the integer of `min..=max` that they make. It does not fail.
#[verifier::external_body]
pub(crate) fn int_in_range_i32<'a>(
    u: &mut Unstructured<'a>,
    min: i32,
    max: i32,
) -> (r: Result<i32, arbitrary::Error>)
    requires
        min <= max,
    ensures
        r is Ok,
        r->Ok_0 == int_from_bytes(unread(*old(u)), min as int, max as int),
        unread(*final(u)) == unread(*old(u)).skip(
            bytes_taken(unread(*old(u)), min as int, max as int),
        ),
{
    u.int_in_range(min..=max)
}

/// `Unstructured::int_in_range` on `i64`: takes as many bytes as the range needs, or those that are
/// left, and gives the integer of `min..=max` that they make. It does not fail.
#[verifier::external_body]
pub(crate) fn int_in_range_i64<'a>(
    u: &mut Unstructured<'a>,
    min: i64,
    max: i64,
) -> (r: Result<i64, arbitrary::Error>)
    requires
        min <= max,
    ensures
        r is Ok,
        r->Ok_0 == int_from_bytes(unread(*old(u)), min as int, max as int),
        unread(*final(u)) == unread(*old(u)).skip(
            bytes_taken(unread(*old(u)), min as int, max as int),
        ),
{
    u.int_in_range(min..=max)
}

/// `Unstructured::int_in_range` on `i128`: takes as many bytes as the range needs, or those that are
/// left, and gives the integer of `min..=max` that they make. It does not fail.
#[verifier::external_body]
pub(crate) fn int_in_range_i128<'a>(
    u: &mut Unstructured<'a>,
    min: i128,
    max: i128,
) -> (r: Result<i128, arbitrary::Error>)
    requires
        min <= max,
    ensures
        r is Ok,
        r->Ok_0 == int_from_bytes(unread(*old(u)), min as int, max as int),
        unread(*final(u)) == unread(*old(u)).skip(
            bytes_taken(unread(*old(u)), min as int, max as int),
        ),
{
    u.int_in_range(min..=max)
}

/// `Unstructured::int_in_range` on `isize`: takes as many bytes as the range needs, or those that are
/// left, and gives the integer of `min..=max` that they make. It does not fail.
#[verifier::external_body]
pub(crate) fn int_in_range_isize<'a>(
    u: &mut Unstructured<'a>,
    min: isize,
    max: isize,
) -> (r: Result<isize, arbitrary::Error>)
    requires
        min <= max,
    ensures
        r is Ok,
        r->Ok_0 == int_from_bytes(unread(*old(u)), min as int, max as int),
        unread(*final(u)) == unread(*old(u)).skip(
            bytes_taken(unread(*old(u)), min as int, max as int),
        ),
{
    u.int_in_range(min..=max)
}

} // verus!
