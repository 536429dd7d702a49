//! The integer model that the contracts of the ranged types are written in, and the facts about
//! it that hold for every range.

use core::cmp::Ordering;
use vstd::arithmetic::div_mod::{
    lemma_fundamental_div_mod, lemma_fundamental_div_mod_converse, lemma_mod_bound,
    lemma_mod_multiples_vanish,
};
use vstd::arithmetic::power::{lemma_pow0, lemma_pow1, lemma_pow_positive, pow};
use vstd::prelude::*;

verus! {

/// Whether `v` is one of the integers `lo..=hi`.
pub open spec fn within(lo: int, hi: int, v: int) -> bool {
    lo <= v <= hi
}

/// The integer of `lo..=hi` that is nearest to `v`.
pub open spec fn clamp(lo: int, hi: int, v: int) -> int {
    if v < lo {
        lo
    } else if v > hi {
        hi
    } else {
        v
    }
}

/// The integer of `lo..=hi` that differs from `v` by a multiple of the length of `lo..=hi`.
pub open spec fn wrap(lo: int, hi: int, v: int) -> int {
    lo + (v - lo) % (hi - lo + 1)
}

/// How `a` compares to `b`.
pub open spec fn ordering(a: int, b: int) -> Ordering {
    if a < b {
        Ordering::Less
    } else if a > b {
        Ordering::Greater
    } else {
        Ordering::Equal
    }
}

/// How two optional integers compare: none is less than any.
pub open spec fn optional_ordering(a: Option<int>, b: Option<int>) -> Ordering {
    match (a, b) {
        (None, None) => Ordering::Equal,
        (None, Some(_)) => Ordering::Less,
        (Some(_), None) => Ordering::Greater,
        (Some(x), Some(y)) => ordering(x, y),
    }
}

/// The absolute value of `v`.
pub open spec fn magnitude(v: int) -> int {
    if v < 0 {
        -v
    } else {
        v
    }
}

/// The quotient of `a` by `b`, rounded towards zero.
pub open spec fn trunc_div(a: int, b: int) -> int {
    let q = magnitude(a) / magnitude(b);
    if (a < 0) != (b < 0) {
        -q
    } else {
        q
    }
}

/// The remainder that goes with [`trunc_div`]: it has the sign of `a`.
pub open spec fn trunc_rem(a: int, b: int) -> int {
    let r = magnitude(a) % magnitude(b);
    if a < 0 {
        -r
    } else {
        r
    }
}

/// The integer whose two's complement pattern in a word of `modulus` states is `bits`.
pub open spec fn signed_of(bits: int, modulus: int) -> int {
    if 2 * bits < modulus {
        bits
    } else {
        bits - modulus
    }
}

/// The two's complement pattern of `v` in a word of `modulus` states.
pub open spec fn bits_of(v: int, modulus: int) -> int {
    if v < 0 {
        v + modulus
    } else {
        v
    }
}

/// A pattern is the pattern of the integer that it stands for.
pub proof fn law_bits_of_signed(bits: int, modulus: int)
    requires
        0 <= bits < modulus,
    ensures
        bits_of(signed_of(bits, modulus), modulus) == bits,
{
}

/// Reading back the pattern of an integer that fits the word gives the integer.
pub proof fn law_signed_of_bits(v: int, modulus: int)
    requires
        -modulus <= 2 * v < modulus,
    ensures
        signed_of(bits_of(v, modulus), modulus) == v,
{
}

/// A range holds the integers from its lower to its upper bound, and nothing else.
pub proof fn law_within(lo: int, hi: int, v: int)
    ensures
        within(lo, hi, v) <==> !(v < lo) && !(hi < v),
{
}

/// An absolute value is not negative, and is the integer or its opposite.
pub proof fn law_magnitude(v: int)
    ensures
        magnitude(v) >= 0,
        magnitude(v) == v || magnitude(v) + v == 0,
{
}

/// A pattern and the integer that it stands for differ by nothing or by one turn of the word, and the
/// integer is in the signed word.
pub proof fn law_signed_of(bits: int, modulus: int)
    requires
        0 <= bits < modulus,
    ensures
        -modulus <= 2 * signed_of(bits, modulus) < modulus,
        signed_of(bits, modulus) == bits || signed_of(bits, modulus) + modulus == bits,
{
}

/// The pattern of an integer of the signed word is in the unsigned word, and differs from the integer
/// by nothing or by one turn of the word.
pub proof fn law_bits_of(v: int, modulus: int)
    requires
        -modulus <= 2 * v < modulus,
    ensures
        0 <= bits_of(v, modulus) < modulus,
        bits_of(v, modulus) == v || bits_of(v, modulus) == v + modulus,
{
}

/// Integers compare as they follow each other on the number line, which is a total order: swapping
/// the two reverses the outcome, and what is less than something less is less.
pub proof fn law_ordering(a: int, b: int, c: int)
    ensures
        ordering(a, b) == Ordering::Less <==> a < b,
        ordering(a, b) == Ordering::Equal <==> a == b,
        ordering(a, b) == Ordering::Greater <==> a > b,
        ordering(a, b) == Ordering::Less <==> ordering(b, a) == Ordering::Greater,
        ordering(a, b) == Ordering::Less && ordering(b, c) == Ordering::Less ==> ordering(a, c)
            == Ordering::Less,
{
}

/// Optional integers compare as the integers do where there are two, and none is less than any; this
/// is a total order.
pub proof fn law_optional_ordering(a: Option<int>, b: Option<int>, c: Option<int>)
    ensures
        optional_ordering(a, b) == Ordering::Equal <==> a == b,
        optional_ordering(a, b) == Ordering::Less <==> b is Some && (a is None || a->0 < b->0),
        optional_ordering(a, b) == Ordering::Greater <==> a is Some && (b is None || a->0 > b->0),
        optional_ordering(a, b) == Ordering::Less <==> optional_ordering(b, a)
            == Ordering::Greater,
        optional_ordering(a, b) == Ordering::Less && optional_ordering(b, c) == Ordering::Less
            ==> optional_ordering(a, c) == Ordering::Less,
{
}

/// Clamping gives a value of the range, and changes nothing that is in the range already.
pub proof fn law_clamp(lo: int, hi: int, v: int)
    requires
        lo <= hi,
    ensures
        within(lo, hi, clamp(lo, hi, v)),
        within(lo, hi, v) ==> clamp(lo, hi, v) == v,
        lo <= clamp(lo, hi, v) <= hi,
        v <= lo ==> clamp(lo, hi, v) == lo,
        v >= hi ==> clamp(lo, hi, v) == hi,
        lo <= v <= hi ==> clamp(lo, hi, v) == v,
{
}

/// Clamping keeps order: a greater value is never clamped to a smaller one.
pub proof fn law_clamp_monotonic(lo: int, hi: int, v: int, w: int)
    requires
        lo <= hi,
        v <= w,
    ensures
        clamp(lo, hi, v) <= clamp(lo, hi, w),
{
}

/// Wrapping gives a value of the range, and changes nothing that is in the range already.
pub proof fn law_wrap(lo: int, hi: int, v: int)
    requires
        lo <= hi,
    ensures
        within(lo, hi, wrap(lo, hi, v)),
        within(lo, hi, v) ==> wrap(lo, hi, v) == v,
        lo <= wrap(lo, hi, v) <= hi,
        lo <= v <= hi ==> wrap(lo, hi, v) == v,
{
    let n = hi - lo + 1;
    lemma_mod_bound(v - lo, n);
    if within(lo, hi, v) {
        lemma_fundamental_div_mod_converse(v - lo, n, 0, v - lo);
    }
}

/// Wrapping cannot tell two values apart that differ by a multiple of the length of the range.
pub proof fn law_wrap_periodic(lo: int, hi: int, v: int, k: int)
    requires
        lo <= hi,
    ensures
        wrap(lo, hi, v + k * (hi - lo + 1)) == wrap(lo, hi, v),
{
    let n = hi - lo + 1;
    lemma_mod_multiples_vanish(k, v - lo, n);
    assert(n * k + (v - lo) == v + k * n - lo) by (nonlinear_arith);
}

/// Of the integers of the range, only the wrapped value differs from `v` by a multiple of the
/// length of the range.
pub proof fn law_wrap_unique(lo: int, hi: int, v: int, w: int, k: int)
    requires
        within(lo, hi, w),
        w == v + k * (hi - lo + 1),
    ensures
        w == wrap(lo, hi, v),
{
    law_wrap_periodic(lo, hi, v, k);
    law_wrap(lo, hi, w);
}

/// What a wrapping addition did, the wrapping subtraction of the same value undoes.
pub proof fn law_wrapping_sub_undoes_add(lo: int, hi: int, v: int, rhs: int)
    requires
        within(lo, hi, v),
    ensures
        wrap(lo, hi, wrap(lo, hi, v + rhs) - rhs) == v,
{
    let n = hi - lo + 1;
    let k = (v + rhs - lo) / n;
    lemma_fundamental_div_mod(v + rhs - lo, n);
    assert(v == wrap(lo, hi, v + rhs) - rhs + k * n) by (nonlinear_arith)
        requires
            v + rhs - lo == n * k + (v + rhs - lo) % n,
            wrap(lo, hi, v + rhs) == lo + (v + rhs - lo) % n,
    ;
    law_wrap_unique(lo, hi, wrap(lo, hi, v + rhs) - rhs, v, k);
}

/// What a wrapping subtraction did, the wrapping addition of the same value undoes.
pub proof fn law_wrapping_add_undoes_sub(lo: int, hi: int, v: int, rhs: int)
    requires
        within(lo, hi, v),
    ensures
        wrap(lo, hi, wrap(lo, hi, v - rhs) + rhs) == v,
{
    law_wrapping_sub_undoes_add(lo, hi, v, -rhs);
}

/// Wrapping additions of one value after the other add up.
pub proof fn law_wrapping_add_accumulates(lo: int, hi: int, v: int, a: int, b: int)
    requires
        within(lo, hi, v),
    ensures
        wrap(lo, hi, wrap(lo, hi, v + a) + b) == wrap(lo, hi, v + a + b),
{
    let n = hi - lo + 1;
    let k = (v + a - lo) / n;
    lemma_fundamental_div_mod(v + a - lo, n);
    assert(v + a + b == wrap(lo, hi, v + a) + b + k * n) by (nonlinear_arith)
        requires
            v + a - lo == n * k + (v + a - lo) % n,
            wrap(lo, hi, v + a) == lo + (v + a - lo) % n,
    ;
    law_wrap_periodic(lo, hi, wrap(lo, hi, v + a) + b, k);
}

/// Quotient and remainder give back the dividend, and the remainder is smaller than the divisor.
pub proof fn law_trunc_div_rem(a: int, b: int)
    requires
        b != 0,
    ensures
        a == trunc_div(a, b) * b + trunc_rem(a, b),
        magnitude(trunc_rem(a, b)) < magnitude(b),
        -b < trunc_rem(a, b) < b || b < trunc_rem(a, b) < -b,
        a >= 0 ==> trunc_rem(a, b) >= 0,
        a <= 0 ==> trunc_rem(a, b) <= 0,
{
    let p = magnitude(a);
    let d = magnitude(b);
    lemma_fundamental_div_mod(p, d);
    lemma_mod_bound(p, d);
    let q = p / d;
    assert(d * q == (-q) * (-d)) by (nonlinear_arith);
    assert(d * q == q * d) by (nonlinear_arith);
    assert((-q) * d == -(d * q)) by (nonlinear_arith);
    assert(q * (-d) == -(d * q)) by (nonlinear_arith);
    if a == 0 {
        lemma_fundamental_div_mod_converse(0, d, 0, 0);
    }
}

/// The Euclidean quotient and remainder give back the dividend, and the remainder is not negative and
/// smaller than the divisor.
pub proof fn law_euclidean_div_rem(a: int, b: int)
    requires
        b != 0,
    ensures
        a == (a / b) * b + a % b,
        0 <= a % b < magnitude(b),
{
    assert(a == (a / b) * b + a % b) by (nonlinear_arith)
        requires
            b != 0,
    ;
    assert(0 <= a % b < magnitude(b)) by (nonlinear_arith)
        requires
            b != 0,
    ;
}

/// Truncated division by cases on the signs.
pub(crate) proof fn lemma_trunc_cases(a: int, b: int)
    requires
        b != 0,
    ensures
        a == 0 ==> trunc_div(a, b) == 0 && trunc_rem(a, b) == 0,
        a > 0 && b > 0 ==> trunc_div(a, b) == a / b && trunc_rem(a, b) == a % b,
        a < 0 && b < 0 ==> trunc_div(a, b) == (a * -1) / (b * -1) && trunc_rem(a, b) == ((a * -1)
            % (b * -1)) * -1,
        a < 0 && b > 0 ==> trunc_div(a, b) == ((a * -1) / b) * -1 && trunc_rem(a, b) == ((a * -1)
            % b) * -1,
        a > 0 && b < 0 ==> trunc_div(a, b) == (a / (b * -1)) * -1 && trunc_rem(a, b) == a % (b
            * -1),
{
    if a == 0 {
        lemma_fundamental_div_mod_converse(0, magnitude(b), 0, 0);
    }
}

/// The sign of a product follows from the signs of its factors.
pub(crate) proof fn lemma_product_sign(a: int, b: int)
    ensures
        a * b > 0 ==> (a < 0) == (b < 0),
        a * b < 0 ==> (a < 0) != (b < 0),
{
    assert(a >= 0 && b >= 0 ==> a * b >= 0) by (nonlinear_arith);
    assert(a < 0 && b < 0 ==> a * b > 0) by (nonlinear_arith);
    assert(a < 0 && b >= 0 ==> a * b <= 0) by (nonlinear_arith);
    assert(a >= 0 && b < 0 ==> a * b <= 0) by (nonlinear_arith);
}

/// A value less its remainder is a multiple of the divisor, so it wraps like the remainder.
pub(crate) proof fn lemma_wrap_offset(lo: int, hi: int, v: int, rhs: int, offset: int)
    requires
        lo <= hi,
        offset == rhs % (hi - lo + 1),
    ensures
        wrap(lo, hi, v + rhs) == wrap(lo, hi, v + offset),
        wrap(lo, hi, v - rhs) == wrap(lo, hi, v - offset),
{
    let n = hi - lo + 1;
    let k = rhs / n;
    lemma_fundamental_div_mod(rhs, n);
    assert(v + rhs == v + offset + k * n) by (nonlinear_arith)
        requires
            rhs == n * k + offset,
    ;
    law_wrap_periodic(lo, hi, v + offset, k);
    assert(v - rhs == v - offset + (-k) * n) by (nonlinear_arith)
        requires
            rhs == n * k + offset,
    ;
    law_wrap_periodic(lo, hi, v - offset, -k);
}

/// A value one range length above or below the range wraps into it by one step.
pub(crate) proof fn lemma_wrap_step(lo: int, hi: int, v: int)
    requires
        lo <= hi,
    ensures
        within(lo, hi, v - (hi - lo + 1)) ==> wrap(lo, hi, v) == v - (hi - lo + 1),
        within(lo, hi, v + (hi - lo + 1)) ==> wrap(lo, hi, v) == v + (hi - lo + 1),
{
    let n = hi - lo + 1;
    if within(lo, hi, v - n) {
        law_wrap_unique(lo, hi, v, v - n, -1);
    }
    if within(lo, hi, v + n) {
        law_wrap_unique(lo, hi, v, v + n, 1);
    }
}

/// The greatest multiple of `n` up to `top` is greater than half of `top`.
pub(crate) proof fn lemma_greatest_multiple(top: int, n: int)
    requires
        0 < n <= top,
    ensures
        0 <= (top / n) * n <= top,
        2 * ((top / n) * n) > top,
{
    lemma_fundamental_div_mod(top, n);
    lemma_mod_bound(top, n);
    let q = top / n;
    assert(q * n == n * q) by (nonlinear_arith);
    assert(q >= 1) by (nonlinear_arith)
        requires
            top == n * q + top % n,
            top % n < n <= top,
            n > 0,
    ;
    assert(n * q >= n) by (nonlinear_arith)
        requires
            q >= 1,
            n > 0,
    ;
}

/// The remainder of a negative value, computed from a multiple of the divisor.
pub(crate) proof fn lemma_mod_of_negative(m: int, n: int, rhs: int)
    requires
        n > 0,
    ensures
        ((m / n) * n + rhs) % n == rhs % n,
{
    let q = m / n;
    lemma_mod_multiples_vanish(q, rhs, n);
    assert(n * q + rhs == q * n + rhs) by (nonlinear_arith);
}

/// The power of a value up to its sign is the power of its magnitude.
pub(crate) proof fn lemma_pow_sign(v: int, e: nat)
    ensures
        pow(magnitude(v), e) >= 0,
        v < 0 && e % 2 == 1 ==> pow(v, e) == -pow(magnitude(v), e),
        !(v < 0 && e % 2 == 1) ==> pow(v, e) == pow(magnitude(v), e),
    decreases e,
{
    reveal(pow);
    let m = magnitude(v);
    if e > 0 {
        let p = pow(m, (e - 1) as nat);
        lemma_pow_sign(v, (e - 1) as nat);
        assert((-m) * (-p) == m * p) by (nonlinear_arith);
        assert((-m) * p == -(m * p)) by (nonlinear_arith);
        assert(m * p >= 0) by (nonlinear_arith)
            requires
                m >= 0,
                p >= 0,
        ;
    }
}

/// A positive power of a base of at least one is at least the base.
proof fn lemma_pow_at_least_base(b: int, e: nat)
    requires
        b >= 1,
        e >= 1,
    ensures
        pow(b, e) >= b,
    decreases e,
{
    reveal(pow);
    lemma_pow_positive(b, (e - 1) as nat);
    let p = pow(b, (e - 1) as nat);
    assert(b * p >= b) by (nonlinear_arith)
        requires
            b >= 1,
            p >= 1,
    ;
}

/// Squaring the base halves an even exponent; an odd one leaves a factor over.
proof fn lemma_pow_halve(b: int, e: nat)
    ensures
        e % 2 == 0 ==> pow(b, e) == pow(b * b, e / 2),
        e % 2 == 1 ==> pow(b, e) == b * pow(b * b, e / 2),
    decreases e,
{
    reveal(pow);
    if e >= 2 {
        let e2 = (e - 2) as nat;
        lemma_pow_halve(b, e2);
        assert(e / 2 == e2 / 2 + 1);
        let p = pow(b * b, e2 / 2);
        assert(pow(b * b, e / 2) == (b * b) * p);
        assert(pow(b, e) == b * pow(b, (e - 1) as nat));
        assert(pow(b, (e - 1) as nat) == b * pow(b, e2));
        assert(b * (b * p) == (b * b) * p) by (nonlinear_arith);
        assert(b * (b * (b * p)) == b * ((b * b) * p)) by (nonlinear_arith);
    } else if e == 1 {
        assert(pow(b, 1) == b * pow(b, 0));
    }
}

/// The power of an unsigned value, or `None` where it does not fit.
pub(crate) fn checked_pow_u128(base: u128, exp: u32) -> (r: Option<u128>)
    ensures
        r is Some <==> pow(base as int, exp as nat) <= u128::MAX,
        r matches Some(p) ==> p == pow(base as int, exp as nat),
{
    let ghost target = pow(base as int, exp as nat);
    if exp == 0 {
        proof {
            lemma_pow0(base as int);
        }
        return Some(1);
    }
    let mut b: u128 = base;
    let mut acc: u128 = 1;
    let mut e: u32 = exp;
    while e > 1
        invariant
            e >= 1,
            acc * pow(b as int, e as nat) == target,
            acc >= 1 || b == 0,
            target == pow(base as int, exp as nat),
        decreases e,
    {
        let ghost half = pow(b * b, (e / 2) as nat);
        proof {
            lemma_pow_halve(b as int, e as nat);
        }
        if e % 2 == 1 {
            match acc.checked_mul(b) {
                Some(next) => {
                    proof {
                        assert(acc * (b * half) == (acc * b) * half) by (nonlinear_arith);
                        assert(next >= 1 || b == 0) by (nonlinear_arith)
                            requires
                                next == acc * b,
                                acc >= 1 || b == 0,
                        ;
                    }
                    acc = next;
                },
                None => {
                    proof {
                        if b == 0 {
                            assert(acc * b == 0) by (nonlinear_arith)
                                requires
                                    b == 0,
                            ;
                        }
                        lemma_pow_at_least_base(b as int, e as nat);
                        let p = pow(b as int, e as nat);
                        assert(acc * p >= acc * b) by (nonlinear_arith)
                            requires
                                p >= b,
                                acc >= 0,
                        ;
                    }
                    return None;
                },
            }
        }
        match b.checked_mul(b) {
            Some(square) => {
                proof {
                    if b == 0 {
                        assert(b * b == 0) by (nonlinear_arith)
                            requires
                                b == 0,
                        ;
                    }
                }
                b = square;
            },
            None => {
                proof {
                    if b == 0 {
                        assert(b * b == 0) by (nonlinear_arith)
                            requires
                                b == 0,
                        ;
                    }
                    lemma_pow_at_least_base(b * b, (e / 2) as nat);
                    assert(acc * half >= half) by (nonlinear_arith)
                        requires
                            acc >= 1,
                            half >= 0,
                    ;
                }
                return None;
            },
        }
        e = e / 2;
    }
    proof {
        lemma_pow1(b as int);
    }
    acc.checked_mul(b)
}

/// The power of a signed value, or `None` where it does not fit.
pub(crate) fn checked_pow_i128(base: i128, exp: u32) -> (r: Option<i128>)
    ensures
        r is Some <==> i128::MIN <= pow(base as int, exp as nat) <= i128::MAX,
        r matches Some(p) ==> p == pow(base as int, exp as nat),
{
    proof {
        lemma_pow_sign(base as int, exp as nat);
    }
    let negative: bool = base < 0 && exp % 2 == 1;
    let size: u128 = if base < 0 {
        (-(base + 1)) as u128 + 1
    } else {
        base as u128
    };
    match checked_pow_u128(size, exp) {
        None => None,
        Some(p) => if negative {
            if p == 0 {
                Some(0)
            } else if p - 1 <= i128::MAX as u128 {
                Some(-((p - 1) as i128) - 1)
            } else {
                None
            }
        } else if p <= i128::MAX as u128 {
            Some(p as i128)
        } else {
            None
        },
    }
}

} // verus!
