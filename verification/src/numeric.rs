//! Arbitrary precision decimals, by the `bigdecimal` crate, as a database stores unsigned integers
//! that are too wide for its own integer types.
//!
//! A decimal is given by its unscaled integer, as the bytes of its two's complement with the lowest
//! byte first, and by its scale: the decimal is the unscaled integer over ten to the scale.

use bigdecimal::num_bigint::BigInt;
use bigdecimal::num_traits::ToPrimitive;
use bigdecimal::BigDecimal;
use vstd::arithmetic::div_mod::{lemma_fundamental_div_mod, lemma_fundamental_div_mod_converse};
use vstd::arithmetic::mul::{lemma_mul_basics, lemma_mul_is_commutative};
use vstd::arithmetic::power::{lemma_pow0, lemma_pow_increases, lemma_pow_positive, pow};
use vstd::prelude::*;

use crate::bytes::{law_le_bytes_of_value, le_value};
use crate::math::{magnitude, signed_of};

verus! {

/// The integer whose two's complement these bytes are, the lowest byte first.
pub open spec fn signed_le_value(bytes: Seq<u8>) -> int {
    if bytes.len() == 0 {
        0
    } else {
        signed_of(le_value(bytes) as int, pow(256, bytes.len()))
    }
}

/// Whether the decimal is an integer.
pub open spec fn is_integral(unscaled: int, scale: int) -> bool {
    scale <= 0 || unscaled % pow(10, scale as nat) == 0
}

/// The integer that the decimal is.
pub open spec fn integral_value(unscaled: int, scale: int) -> int {
    if scale <= 0 {
        unscaled * pow(10, (-scale) as nat)
    } else {
        unscaled / pow(10, scale as nat)
    }
}

/// The unscaled integer is in the signed word of its bytes, and differs from the integer of the same
/// bytes in the unsigned word by nothing or by one turn of the word.
pub proof fn law_signed_le_value(bytes: Seq<u8>)
    ensures
        bytes.len() == 0 ==> signed_le_value(bytes) == 0,
        bytes.len() > 0 ==> -pow(256, bytes.len()) <= 2 * signed_le_value(bytes) < pow(
            256,
            bytes.len(),
        ),
        signed_le_value(bytes) == le_value(bytes) || signed_le_value(bytes) + pow(
            256,
            bytes.len(),
        ) == le_value(bytes),
{
    law_le_bytes_of_value(bytes);
}

/// A decimal is the integer `v` exactly if `v` and the unscaled integer are the same number once both
/// are multiplied by the power of ten that the other one lacks.
pub proof fn law_integral(unscaled: int, scale: int, v: int)
    ensures
        scale >= 0 ==> (is_integral(unscaled, scale) && integral_value(unscaled, scale) == v <==> v
            * pow(10, scale as nat) == unscaled),
        scale <= 0 ==> (is_integral(unscaled, scale) && integral_value(unscaled, scale) == v <==> v
            == unscaled * pow(10, (-scale) as nat)),
{
    lemma_pow0(10);
    lemma_mul_basics(v);
    lemma_mul_basics(unscaled);
    if scale > 0 {
        let p = pow(10, scale as nat);
        lemma_pow_positive(10, scale as nat);
        lemma_fundamental_div_mod(unscaled, p);
        lemma_mul_is_commutative(p, unscaled / p);
        if v * p == unscaled {
            lemma_fundamental_div_mod_converse(unscaled, p, v, 0);
        }
    }
}

/// Whether two integers are the same number does not change when the point moves by one place in both.
pub(crate) proof fn lemma_shift_point(unscaled: int, scale: int, v: int)
    ensures
        scale >= 0 ==> (v * pow(10, (scale + 1) as nat) == unscaled * 10 <==> v * pow(
            10,
            scale as nat,
        ) == unscaled),
        scale < 0 ==> unscaled * 10 * pow(10, (-(scale + 1)) as nat) == unscaled * pow(
            10,
            (-scale) as nat,
        ),
{
    reveal(pow);
    if scale >= 0 {
        let p = pow(10, scale as nat);
        assert(v * (10 * p) == 10 * (v * p)) by (nonlinear_arith);
    } else {
        let p = pow(10, (-(scale + 1)) as nat);
        assert(unscaled * 10 * p == unscaled * (10 * p)) by (nonlinear_arith);
    }
}

/// Whether the scale is so far from zero that a decimal other than zero is surely no integer, or no
/// integer of 128 bits. The powers of ten of other scales are not much wider than the unscaled integer
/// or an integer of 128 bits, so that they can be computed.
pub open spec fn extreme_scale(len: nat, scale: int) -> bool {
    scale < -38 || scale >= 3 * (len + 1)
}

/// Whether the scale is far from zero.
pub(crate) fn scale_is_extreme(unscaled: &[u8], scale: i64) -> (r: bool)
    ensures
        r == extreme_scale(unscaled@.len(), scale as int),
{
    scale < -38 || (scale > 0 && (scale / 3) as u64 > unscaled.len() as u64)
}

/// Whether the unscaled integer is zero.
pub(crate) fn is_zero(unscaled: &[u8]) -> (r: bool)
    ensures
        r <==> signed_le_value(unscaled@) == 0,
{
    let mut i: usize = unscaled.len();
    assert(unscaled@.skip(i as int) =~= Seq::<u8>::empty());
    while i > 0
        invariant
            i <= unscaled@.len(),
            le_value(unscaled@.skip(i as int)) == 0,
        decreases i,
    {
        proof {
            assert(unscaled@.skip(i - 1).skip(1) =~= unscaled@.skip(i as int));
        }
        i = i - 1;
        if unscaled[i] != 0 {
            proof {
                lemma_suffix_is_not_zero(unscaled@, i as int);
                lemma_zero(unscaled@);
            }
            return false;
        }
    }
    proof {
        assert(unscaled@.skip(0) =~= unscaled@);
        lemma_zero(unscaled@);
    }
    true
}

/// Bytes are not zero if those from some place on are not.
proof fn lemma_suffix_is_not_zero(bytes: Seq<u8>, i: int)
    requires
        0 <= i <= bytes.len(),
        le_value(bytes.skip(i)) != 0,
    ensures
        le_value(bytes) != 0,
    decreases i,
{
    if i > 0 {
        assert(bytes.skip(i - 1).skip(1) =~= bytes.skip(i));
        lemma_suffix_is_not_zero(bytes, i - 1);
    } else {
        assert(bytes.skip(0) =~= bytes);
    }
}

/// Two's complement has one zero, and its integers are no wider than its words.
proof fn lemma_zero(bytes: Seq<u8>)
    ensures
        signed_le_value(bytes) == 0 <==> le_value(bytes) == 0,
        magnitude(signed_le_value(bytes)) < pow(256, bytes.len()) + 1,
{
    law_le_bytes_of_value(bytes);
}

/// Three decimal digits hold more than a byte.
proof fn lemma_digits_hold_bytes(len: nat)
    ensures
        pow(10, 3 * (len + 1)) > pow(256, len),
        pow(256, len) > 0,
    decreases len,
{
    lemma_pow_positive(256, len);
    reveal_with_fuel(pow, 4);
    if len > 0 {
        lemma_digits_hold_bytes((len - 1) as nat);
        let p = pow(10, 3 * len);
        assert(3 * ((len - 1) as nat + 1) == 3 * len);
        assert(pow(10, 3 * (len + 1)) == 10 * (10 * (10 * p)));
        assert(pow(256, len) == 256 * pow(256, (len - 1) as nat));
    } else {
        assert(pow(10, 3) == 10 * (10 * (10 * pow(10, 0))));
        assert(pow(256, 0) == 1);
    }
}

/// A decimal of extreme scale is zero, or no integer of 128 bits.
pub(crate) proof fn lemma_extreme_scale(unscaled: Seq<u8>, scale: int)
    requires
        extreme_scale(unscaled.len(), scale),
    ensures
        signed_le_value(unscaled) == 0 ==> is_integral(0, scale) && integral_value(0, scale) == 0,
        signed_le_value(unscaled) != 0 ==> !(is_integral(signed_le_value(unscaled), scale) && 0
            <= integral_value(signed_le_value(unscaled), scale) <= u128::MAX),
{
    let v = signed_le_value(unscaled);
    if scale < 0 {
        let p = pow(10, (-scale) as nat);
        assert(u128::MAX < pow(10, 39)) by {
            reveal_with_fuel(pow, 40);
        }
        lemma_pow_increases(10, 39, (-scale) as nat);
        assert(0 * p == 0) by (nonlinear_arith);
        assert(v >= 1 ==> v * p >= p) by (nonlinear_arith)
            requires
                p > 0,
        ;
        assert(v <= -1 ==> v * p < 0) by (nonlinear_arith)
            requires
                p > 0,
        ;
    } else {
        let n = unscaled.len();
        let p = pow(10, scale as nat);
        lemma_zero(unscaled);
        lemma_digits_hold_bytes(n);
        lemma_pow_increases(10, 3 * (n + 1), scale as nat);
        lemma_fundamental_div_mod_converse(0, p, 0, 0);
        if v > 0 {
            lemma_fundamental_div_mod_converse(v, p, 0, v);
        } else if v < 0 {
            lemma_fundamental_div_mod_converse(v, p, -1, v + p);
        }
    }
}

/// `BigDecimal::is_integer`: whether the decimal is an integer.
#[verifier::external_body]
pub(crate) fn decimal_is_integer(unscaled: &[u8], scale: i64) -> (r: bool)
    requires
        !extreme_scale(unscaled@.len(), scale as int),
    ensures
        r == is_integral(signed_le_value(unscaled@), scale as int),
{
    BigDecimal::new(BigInt::from_signed_bytes_le(unscaled), scale).is_integer()
}

/// `<BigDecimal as ToPrimitive>::to_u128`: the integer that the decimal is, if it fits. The decimal
/// is an integer here; what the function gives for another one is not stated.
#[verifier::external_body]
pub(crate) fn decimal_to_u128(unscaled: &[u8], scale: i64) -> (r: Option<u128>)
    requires
        !extreme_scale(unscaled@.len(), scale as int),
        is_integral(signed_le_value(unscaled@), scale as int),
    ensures
        r is Some <==> 0 <= integral_value(signed_le_value(unscaled@), scale as int) <= u128::MAX,
        r matches Some(v) ==> v == integral_value(signed_le_value(unscaled@), scale as int),
{
    BigDecimal::new(BigInt::from_signed_bytes_le(unscaled), scale).to_u128()
}

/// `<BigDecimal as From<u128>>::from`: the decimal whose unscaled integer is the value, with a scale
/// of zero.
#[verifier::external_body]
pub(crate) fn decimal_from_u128(value: u128) -> (r: (Vec<u8>, i64))
    ensures
        signed_le_value(r.0@) == value,
        r.1 == 0,
{
    let (unscaled, scale) = BigDecimal::from(value).into_bigint_and_scale();
    (unscaled.to_signed_bytes_le(), scale)
}

} // verus!
