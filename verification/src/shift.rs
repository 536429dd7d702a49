//! What shifting a word does to the integer that it holds.

use vstd::arithmetic::div_mod::{
    lemma_fundamental_div_mod, lemma_fundamental_div_mod_converse, lemma_mod_bound,
};
use vstd::arithmetic::mul::{lemma_mul_basics_3, lemma_mul_is_associative};
use vstd::arithmetic::power2::{lemma2_to64, lemma_pow2_pos, lemma_pow2_unfold, pow2};
use vstd::prelude::*;

verus! {

/// Half of a quotient is the quotient by twice the divisor.
proof fn lemma_halve(v: int, n: nat)
    requires
        n > 0,
    ensures
        v / (pow2(n) as int) == (v / (pow2((n - 1) as nat) as int)) / 2,
{
    lemma_pow2_unfold(n);
    lemma_pow2_pos((n - 1) as nat);
    let k = pow2((n - 1) as nat) as int;
    let q = v / k;
    lemma_fundamental_div_mod(v, k);
    lemma_mod_bound(v, k);
    let rest = k * (q % 2) + v % k;
    assert(v == (q / 2) * (2 * k) + rest) by (nonlinear_arith)
        requires
            v == k * q + v % k,
            q == 2 * (q / 2) + q % 2,
            rest == k * (q % 2) + v % k,
    ;
    assert(0 <= rest < 2 * k) by (nonlinear_arith)
        requires
            0 <= v % k < k,
            0 <= q % 2 <= 1,
            rest == k * (q % 2) + v % k,
    ;
    lemma_fundamental_div_mod_converse(v, 2 * k, q / 2, rest);
}

/// A product that is in range by twice a factor is in range by the factor.
proof fn lemma_double(v: int, n: nat, min: int, max: int)
    requires
        n > 0,
        min <= 0 <= max,
        min <= v * pow2(n) <= max,
    ensures
        v * pow2(n) == 2 * (v * pow2((n - 1) as nat)),
        min <= v * pow2((n - 1) as nat) <= max,
{
    lemma_pow2_unfold(n);
    lemma_mul_is_associative(v, pow2((n - 1) as nat) as int, 2);
}

/// Shifting a `u8` right divides it by a power of two, rounding down.
pub proof fn law_shr_u8(v: u8, n: u32)
    requires
        n < u8::BITS,
    ensures
        (v >> n) as int == (v as int) / (pow2(n as nat) as int),
    decreases n,
{
    lemma2_to64();
    if n == 0 {
        assert(v >> 0u32 == v) by (bit_vector);
    } else {
        let m = (n - 1) as u32;
        law_shr_u8(v, m);
        lemma_halve(v as int, n as nat);
        assert(2 * (v >> n) <= v >> m <= 2 * (v >> n) + 1) by (bit_vector)
            requires
                0 < n < 8,
                m == n - 1,
        ;
    }
}

/// Shifting a `u8` left multiplies it by a power of two, if the product fits.
pub proof fn law_shl_u8(v: u8, n: u32)
    requires
        n < u8::BITS,
        u8::MIN <= v * pow2(n as nat) <= u8::MAX,
    ensures
        (v << n) as int == v * pow2(n as nat),
    decreases n,
{
    lemma2_to64();
    if n == 0 {
        assert(v << 0u32 == v) by (bit_vector);
        lemma_mul_basics_3(v as int);
    } else {
        let m = (n - 1) as u32;
        lemma_double(v as int, n as nat, u8::MIN as int, u8::MAX as int);
        law_shl_u8(v, m);
        let twice = (2 * (v << m)) as u8;
        assert(v << n == twice) by (bit_vector)
            requires
                0 < n < 8,
                m == n - 1,
                twice == 2 * (v << m),
        ;
    }
}

/// Shifting a `u16` right divides it by a power of two, rounding down.
pub proof fn law_shr_u16(v: u16, n: u32)
    requires
        n < u16::BITS,
    ensures
        (v >> n) as int == (v as int) / (pow2(n as nat) as int),
    decreases n,
{
    lemma2_to64();
    if n == 0 {
        assert(v >> 0u32 == v) by (bit_vector);
    } else {
        let m = (n - 1) as u32;
        law_shr_u16(v, m);
        lemma_halve(v as int, n as nat);
        assert(2 * (v >> n) <= v >> m <= 2 * (v >> n) + 1) by (bit_vector)
            requires
                0 < n < 16,
                m == n - 1,
        ;
    }
}

/// Shifting a `u16` left multiplies it by a power of two, if the product fits.
pub proof fn law_shl_u16(v: u16, n: u32)
    requires
        n < u16::BITS,
        u16::MIN <= v * pow2(n as nat) <= u16::MAX,
    ensures
        (v << n) as int == v * pow2(n as nat),
    decreases n,
{
    lemma2_to64();
    if n == 0 {
        assert(v << 0u32 == v) by (bit_vector);
        lemma_mul_basics_3(v as int);
    } else {
        let m = (n - 1) as u32;
        lemma_double(v as int, n as nat, u16::MIN as int, u16::MAX as int);
        law_shl_u16(v, m);
        let twice = (2 * (v << m)) as u16;
        assert(v << n == twice) by (bit_vector)
            requires
                0 < n < 16,
                m == n - 1,
                twice == 2 * (v << m),
        ;
    }
}

/// Shifting a `u32` right divides it by a power of two, rounding down.
pub proof fn law_shr_u32(v: u32, n: u32)
    requires
        n < u32::BITS,
    ensures
        (v >> n) as int == (v as int) / (pow2(n as nat) as int),
    decreases n,
{
    lemma2_to64();
    if n == 0 {
        assert(v >> 0u32 == v) by (bit_vector);
    } else {
        let m = (n - 1) as u32;
        law_shr_u32(v, m);
        lemma_halve(v as int, n as nat);
        assert(2 * (v >> n) <= v >> m <= 2 * (v >> n) + 1) by (bit_vector)
            requires
                0 < n < 32,
                m == n - 1,
        ;
    }
}

/// Shifting a `u32` left multiplies it by a power of two, if the product fits.
pub proof fn law_shl_u32(v: u32, n: u32)
    requires
        n < u32::BITS,
        u32::MIN <= v * pow2(n as nat) <= u32::MAX,
    ensures
        (v << n) as int == v * pow2(n as nat),
    decreases n,
{
    lemma2_to64();
    if n == 0 {
        assert(v << 0u32 == v) by (bit_vector);
        lemma_mul_basics_3(v as int);
    } else {
        let m = (n - 1) as u32;
        lemma_double(v as int, n as nat, u32::MIN as int, u32::MAX as int);
        law_shl_u32(v, m);
        let twice = (2 * (v << m)) as u32;
        assert(v << n == twice) by (bit_vector)
            requires
                0 < n < 32,
                m == n - 1,
                twice == 2 * (v << m),
        ;
    }
}

/// Shifting a `u64` right divides it by a power of two, rounding down.
pub proof fn law_shr_u64(v: u64, n: u32)
    requires
        n < u64::BITS,
    ensures
        (v >> n) as int == (v as int) / (pow2(n as nat) as int),
    decreases n,
{
    lemma2_to64();
    if n == 0 {
        assert(v >> 0u32 == v) by (bit_vector);
    } else {
        let m = (n - 1) as u32;
        law_shr_u64(v, m);
        lemma_halve(v as int, n as nat);
        assert(2 * (v >> n) <= v >> m <= 2 * (v >> n) + 1) by (bit_vector)
            requires
                0 < n < 64,
                m == n - 1,
        ;
    }
}

/// Shifting a `u64` left multiplies it by a power of two, if the product fits.
pub proof fn law_shl_u64(v: u64, n: u32)
    requires
        n < u64::BITS,
        u64::MIN <= v * pow2(n as nat) <= u64::MAX,
    ensures
        (v << n) as int == v * pow2(n as nat),
    decreases n,
{
    lemma2_to64();
    if n == 0 {
        assert(v << 0u32 == v) by (bit_vector);
        lemma_mul_basics_3(v as int);
    } else {
        let m = (n - 1) as u32;
        lemma_double(v as int, n as nat, u64::MIN as int, u64::MAX as int);
        law_shl_u64(v, m);
        let twice = (2 * (v << m)) as u64;
        assert(v << n == twice) by (bit_vector)
            requires
                0 < n < 64,
                m == n - 1,
                twice == 2 * (v << m),
        ;
    }
}

/// Shifting a `u128` right divides it by a power of two, rounding down.
pub proof fn law_shr_u128(v: u128, n: u32)
    requires
        n < u128::BITS,
    ensures
        (v >> n) as int == (v as int) / (pow2(n as nat) as int),
    decreases n,
{
    lemma2_to64();
    if n == 0 {
        assert(v >> 0u32 == v) by (bit_vector);
    } else {
        let m = (n - 1) as u32;
        law_shr_u128(v, m);
        lemma_halve(v as int, n as nat);
        assert(2 * (v >> n) <= v >> m <= 2 * (v >> n) + 1) by (bit_vector)
            requires
                0 < n < 128,
                m == n - 1,
        ;
    }
}

/// Shifting a `u128` left multiplies it by a power of two, if the product fits.
pub proof fn law_shl_u128(v: u128, n: u32)
    requires
        n < u128::BITS,
        u128::MIN <= v * pow2(n as nat) <= u128::MAX,
    ensures
        (v << n) as int == v * pow2(n as nat),
    decreases n,
{
    lemma2_to64();
    if n == 0 {
        assert(v << 0u32 == v) by (bit_vector);
        lemma_mul_basics_3(v as int);
    } else {
        let m = (n - 1) as u32;
        lemma_double(v as int, n as nat, u128::MIN as int, u128::MAX as int);
        law_shl_u128(v, m);
        let twice = (2 * (v << m)) as u128;
        assert(v << n == twice) by (bit_vector)
            requires
                0 < n < 128,
                m == n - 1,
                twice == 2 * (v << m),
        ;
    }
}

/// Shifting a `usize` right divides it by a power of two, rounding down.
pub proof fn law_shr_usize(v: usize, n: u32)
    requires
        n < usize::BITS,
    ensures
        (v >> n) as int == (v as int) / (pow2(n as nat) as int),
    decreases n,
{
    lemma2_to64();
    if n == 0 {
        assert(v >> 0u32 == v) by (bit_vector);
    } else {
        let m = (n - 1) as u32;
        law_shr_usize(v, m);
        lemma_halve(v as int, n as nat);
        assert(2 * (v >> n) <= v >> m <= 2 * (v >> n) + 1) by (bit_vector)
            requires
                0 < n < usize::BITS,
                m == n - 1,
        ;
    }
}

/// Shifting a `usize` left multiplies it by a power of two, if the product fits.
pub proof fn law_shl_usize(v: usize, n: u32)
    requires
        n < usize::BITS,
        usize::MIN <= v * pow2(n as nat) <= usize::MAX,
    ensures
        (v << n) as int == v * pow2(n as nat),
    decreases n,
{
    lemma2_to64();
    if n == 0 {
        assert(v << 0u32 == v) by (bit_vector);
        lemma_mul_basics_3(v as int);
    } else {
        let m = (n - 1) as u32;
        lemma_double(v as int, n as nat, usize::MIN as int, usize::MAX as int);
        law_shl_usize(v, m);
        let twice = (2 * (v << m)) as usize;
        assert(v << n == twice) by (bit_vector)
            requires
                0 < n < usize::BITS,
                m == n - 1,
                twice == 2 * (v << m),
        ;
    }
}

/// Shifting an `i8` right divides it by a power of two, rounding down.
pub proof fn law_shr_i8(v: i8, n: u32)
    requires
        n < i8::BITS,
    ensures
        (v >> n) as int == (v as int) / (pow2(n as nat) as int),
    decreases n,
{
    lemma2_to64();
    if n == 0 {
        assert(v >> 0u32 == v) by (bit_vector);
    } else {
        let m = (n - 1) as u32;
        law_shr_i8(v, m);
        lemma_halve(v as int, n as nat);
        assert(2 * (v >> n) <= v >> m <= 2 * (v >> n) + 1) by (bit_vector)
            requires
                0 < n < 8,
                m == n - 1,
        ;
    }
}

/// Shifting an `i8` left multiplies it by a power of two, if the product fits.
pub proof fn law_shl_i8(v: i8, n: u32)
    requires
        n < i8::BITS,
        i8::MIN <= v * pow2(n as nat) <= i8::MAX,
    ensures
        (v << n) as int == v * pow2(n as nat),
    decreases n,
{
    lemma2_to64();
    if n == 0 {
        assert(v << 0u32 == v) by (bit_vector);
        lemma_mul_basics_3(v as int);
    } else {
        let m = (n - 1) as u32;
        lemma_double(v as int, n as nat, i8::MIN as int, i8::MAX as int);
        law_shl_i8(v, m);
        let twice = (2 * (v << m)) as i8;
        assert(v << n == twice) by (bit_vector)
            requires
                0 < n < 8,
                m == n - 1,
                twice == 2 * (v << m),
        ;
    }
}

/// Shifting an `i16` right divides it by a power of two, rounding down.
pub proof fn law_shr_i16(v: i16, n: u32)
    requires
        n < i16::BITS,
    ensures
        (v >> n) as int == (v as int) / (pow2(n as nat) as int),
    decreases n,
{
    lemma2_to64();
    if n == 0 {
        assert(v >> 0u32 == v) by (bit_vector);
    } else {
        let m = (n - 1) as u32;
        law_shr_i16(v, m);
        lemma_halve(v as int, n as nat);
        assert(2 * (v >> n) <= v >> m <= 2 * (v >> n) + 1) by (bit_vector)
            requires
                0 < n < 16,
                m == n - 1,
        ;
    }
}

/// Shifting an `i16` left multiplies it by a power of two, if the product fits.
pub proof fn law_shl_i16(v: i16, n: u32)
    requires
        n < i16::BITS,
        i16::MIN <= v * pow2(n as nat) <= i16::MAX,
    ensures
        (v << n) as int == v * pow2(n as nat),
    decreases n,
{
    lemma2_to64();
    if n == 0 {
        assert(v << 0u32 == v) by (bit_vector);
        lemma_mul_basics_3(v as int);
    } else {
        let m = (n - 1) as u32;
        lemma_double(v as int, n as nat, i16::MIN as int, i16::MAX as int);
        law_shl_i16(v, m);
        let twice = (2 * (v << m)) as i16;
        assert(v << n == twice) by (bit_vector)
            requires
                0 < n < 16,
                m == n - 1,
                twice == 2 * (v << m),
        ;
    }
}

/// Shifting an `i32` right divides it by a power of two, rounding down.
pub proof fn law_shr_i32(v: i32, n: u32)
    requires
        n < i32::BITS,
    ensures
        (v >> n) as int == (v as int) / (pow2(n as nat) as int),
    decreases n,
{
    lemma2_to64();
    if n == 0 {
        assert(v >> 0u32 == v) by (bit_vector);
    } else {
        let m = (n - 1) as u32;
        law_shr_i32(v, m);
        lemma_halve(v as int, n as nat);
        assert(2 * (v >> n) <= v >> m <= 2 * (v >> n) + 1) by (bit_vector)
            requires
                0 < n < 32,
                m == n - 1,
        ;
    }
}

/// Shifting an `i32` left multiplies it by a power of two, if the product fits.
pub proof fn law_shl_i32(v: i32, n: u32)
    requires
        n < i32::BITS,
        i32::MIN <= v * pow2(n as nat) <= i32::MAX,
    ensures
        (v << n) as int == v * pow2(n as nat),
    decreases n,
{
    lemma2_to64();
    if n == 0 {
        assert(v << 0u32 == v) by (bit_vector);
        lemma_mul_basics_3(v as int);
    } else {
        let m = (n - 1) as u32;
        lemma_double(v as int, n as nat, i32::MIN as int, i32::MAX as int);
        law_shl_i32(v, m);
        let twice = (2 * (v << m)) as i32;
        assert(v << n == twice) by (bit_vector)
            requires
                0 < n < 32,
                m == n - 1,
                twice == 2 * (v << m),
        ;
    }
}

/// Shifting an `i64` right divides it by a power of two, rounding down.
pub proof fn law_shr_i64(v: i64, n: u32)
    requires
        n < i64::BITS,
    ensures
        (v >> n) as int == (v as int) / (pow2(n as nat) as int),
    decreases n,
{
    lemma2_to64();
    if n == 0 {
        assert(v >> 0u32 == v) by (bit_vector);
    } else {
        let m = (n - 1) as u32;
        law_shr_i64(v, m);
        lemma_halve(v as int, n as nat);
        assert(2 * (v >> n) <= v >> m <= 2 * (v >> n) + 1) by (bit_vector)
            requires
                0 < n < 64,
                m == n - 1,
        ;
    }
}

/// Shifting an `i64` left multiplies it by a power of two, if the product fits.
pub proof fn law_shl_i64(v: i64, n: u32)
    requires
        n < i64::BITS,
        i64::MIN <= v * pow2(n as nat) <= i64::MAX,
    ensures
        (v << n) as int == v * pow2(n as nat),
    decreases n,
{
    lemma2_to64();
    if n == 0 {
        assert(v << 0u32 == v) by (bit_vector);
        lemma_mul_basics_3(v as int);
    } else {
        let m = (n - 1) as u32;
        lemma_double(v as int, n as nat, i64::MIN as int, i64::MAX as int);
        law_shl_i64(v, m);
        let twice = (2 * (v << m)) as i64;
        assert(v << n == twice) by (bit_vector)
            requires
                0 < n < 64,
                m == n - 1,
                twice == 2 * (v << m),
        ;
    }
}

/// Shifting an `i128` right divides it by a power of two, rounding down.
pub proof fn law_shr_i128(v: i128, n: u32)
    requires
        n < i128::BITS,
    ensures
        (v >> n) as int == (v as int) / (pow2(n as nat) as int),
    decreases n,
{
    lemma2_to64();
    if n == 0 {
        assert(v >> 0u32 == v) by (bit_vector);
    } else {
        let m = (n - 1) as u32;
        law_shr_i128(v, m);
        lemma_halve(v as int, n as nat);
        assert(2 * (v >> n) <= v >> m <= 2 * (v >> n) + 1) by (bit_vector)
            requires
                0 < n < 128,
                m == n - 1,
        ;
    }
}

/// Shifting an `i128` left multiplies it by a power of two, if the product fits.
pub proof fn law_shl_i128(v: i128, n: u32)
    requires
        n < i128::BITS,
        i128::MIN <= v * pow2(n as nat) <= i128::MAX,
    ensures
        (v << n) as int == v * pow2(n as nat),
    decreases n,
{
    lemma2_to64();
    if n == 0 {
        assert(v << 0u32 == v) by (bit_vector);
        lemma_mul_basics_3(v as int);
    } else {
        let m = (n - 1) as u32;
        lemma_double(v as int, n as nat, i128::MIN as int, i128::MAX as int);
        law_shl_i128(v, m);
        let twice = (2 * (v << m)) as i128;
        assert(v << n == twice) by (bit_vector)
            requires
                0 < n < 128,
                m == n - 1,
                twice == 2 * (v << m),
        ;
    }
}

/// Shifting an `isize` right divides it by a power of two, rounding down.
pub proof fn law_shr_isize(v: isize, n: u32)
    requires
        n < isize::BITS,
    ensures
        (v >> n) as int == (v as int) / (pow2(n as nat) as int),
    decreases n,
{
    lemma2_to64();
    if n == 0 {
        assert(v >> 0u32 == v) by (bit_vector);
    } else {
        let m = (n - 1) as u32;
        law_shr_isize(v, m);
        lemma_halve(v as int, n as nat);
        assert(2 * (v >> n) <= v >> m <= 2 * (v >> n) + 1) by (bit_vector)
            requires
                0 < n < usize::BITS,
                m == n - 1,
        ;
    }
}

/// Shifting an `isize` left multiplies it by a power of two, if the product fits.
pub proof fn law_shl_isize(v: isize, n: u32)
    requires
        n < isize::BITS,
        isize::MIN <= v * pow2(n as nat) <= isize::MAX,
    ensures
        (v << n) as int == v * pow2(n as nat),
    decreases n,
{
    lemma2_to64();
    if n == 0 {
        assert(v << 0u32 == v) by (bit_vector);
        lemma_mul_basics_3(v as int);
    } else {
        let m = (n - 1) as u32;
        lemma_double(v as int, n as nat, isize::MIN as int, isize::MAX as int);
        law_shl_isize(v, m);
        let twice = (2 * (v << m)) as isize;
        assert(v << n == twice) by (bit_vector)
            requires
                0 < n < usize::BITS,
                m == n - 1,
                twice == 2 * (v << m),
        ;
    }
}

} // verus!
