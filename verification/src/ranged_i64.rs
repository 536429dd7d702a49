//! `RangedI64` and `OptionRangedI64`: an `i64` that is known to be in a range, and an optional one.
//!
//! The bounds are given by their two's complement patterns: a bound that is not negative is written
//! as it is, and a negative one as the pattern that [`i64_to_bits`] gives.

use core::borrow::Borrow;
use core::cmp::Ordering;
use core::str::FromStr;
use vstd::arithmetic::div_mod::lemma_mod_bound;
use vstd::arithmetic::power::pow;
use vstd::arithmetic::power2::pow2;
use vstd::prelude::*;
use vstd::std_specs::cmp::{PartialEqSpec, PartialEqSpecImpl, PartialOrdSpec, PartialOrdSpecImpl};
use vstd::std_specs::convert::{FromSpec, FromSpecImpl, TryFromSpec, TryFromSpecImpl};
use vstd::string::*;

use arbitrary::Unstructured;
use quickcheck::Gen;

use crate::bytes::{
    law_le_bytes_of_value, law_le_value_reads_bytes, le_bytes, le_value, lemma_word_states, read_le,
    write_le, StoredBytesError,
};
use crate::decimal::{
    append_signed, decimal, is_canonical_signed, law_decimal_canonical, law_decimal_len_in_range,
    law_parse_reads_decimal, longest_decimal, signed_len, signed_text,
};
use crate::error::{parse_int_error_from_kind, IntErrorKind, ParseIntError, TryFromIntError};
use crate::json::{
    json_safe, signed_json_safe_integer_range, HumanReadable, IntegerSchema,
    JSON_SIGNED_INTEGER_PATTERN,
};
use crate::math::{
    bits_of, checked_pow_i128, clamp, law_bits_of_signed, law_optional_ordering, law_signed_of_bits,
    law_wrap,
    lemma_greatest_multiple, lemma_mod_of_negative, lemma_pow_sign, lemma_product_sign,
    lemma_trunc_cases, lemma_wrap_offset, lemma_wrap_step, magnitude, optional_ordering, ordering,
    signed_of, trunc_div, trunc_rem, within, wrap,
};
use crate::parse::{
    digit_value, law_parsed_digits, law_parsed_fault, law_parsed_fits, law_remainder_digit, parse_signed,
    parsed_in_range,
};
use crate::random::{random_i64, random_bool, shrink_i64, shrink_candidates};
use crate::shift::{law_shl_i64, law_shr_i64};
use crate::unstructured::{
    after_bool, arbitrary_bool, bytes_taken, int_from_bytes, int_in_range_i64, law_int_from_bytes,
    lowest_bit, unread,
};
use crate::words::{i64_distance, i64_from_bits, i64_magnitude, i64_to_bits};

verus! {

/// An `i64` that is known to be in the range `MIN..=MAX`.
#[derive(Clone, Copy, Eq, Ord, Hash)]
pub struct RangedI64<const MIN: u64, const MAX: u64>(i64);

impl<const MIN: u64, const MAX: u64> View for RangedI64<MIN, MAX> {
    type V = int;

    closed spec fn view(&self) -> int {
        self.0 as int
    }
}

impl RangedI64<0, 0> {
    /// A `RangedI64` that is always `VALUE`.
    pub fn exact<const VALUE: u64>() -> (r: RangedI64<VALUE, VALUE>)
        ensures
            r@ == signed_of(VALUE as int, u64::MAX + 1),
    {
        RangedI64::<VALUE, VALUE>(i64_from_bits(VALUE))
    }
}

impl<const MIN: u64, const MAX: u64> RangedI64<MIN, MAX> {
    /// The lower bound of the range.
    pub open spec fn lo() -> int {
        signed_of(MIN as int, u64::MAX + 1)
    }

    /// The upper bound of the range.
    pub open spec fn hi() -> int {
        signed_of(MAX as int, u64::MAX + 1)
    }

    /// Whether `v` is in the range.
    pub open spec fn holds(v: int) -> bool {
        within(Self::lo(), Self::hi(), v)
    }

    /// Whether the range has a value. A type whose range has none is of no use: it has no values.
    pub open spec fn valid() -> bool {
        Self::lo() <= Self::hi()
    }

    /// How many values the range has.
    pub open spec fn len() -> int {
        Self::hi() - Self::lo() + 1
    }

    /// What holds of every value: it is in the range.
    #[verifier::type_invariant]
    pub open spec fn wf(self) -> bool {
        Self::holds(self@)
    }

    /// The value of the type for `v`.
    pub closed spec fn of(v: int) -> Self {
        RangedI64(v as i64)
    }

    /// The type has one value for each integer of its range.
    pub proof fn law_of(v: int)
        requires
            Self::holds(v),
        ensures
            Self::of(v)@ == v,
            forall|x: Self| x@ == v ==> x == Self::of(v),
    {
    }

    /// The range has the integers from its lower to its upper bound. It has one exactly if it is valid,
    /// and as many as its length says, counted from the lower bound.
    pub proof fn law_range(v: int)
        ensures
            i64::MIN <= Self::lo() <= i64::MAX,
            Self::lo() == MIN || Self::lo() + u64::MAX + 1 == MIN,
            i64::MIN <= Self::hi() <= i64::MAX,
            Self::hi() == MAX || Self::hi() + u64::MAX + 1 == MAX,
            Self::holds(v) <==> !(v < Self::lo()) && !(Self::hi() < v),
            Self::holds(v) ==> Self::valid(),
            Self::valid() ==> Self::holds(Self::lo()) && Self::holds(Self::hi()),
            Self::holds(v) <==> 0 <= v - Self::lo() < Self::len(),
    {
    }

    /// What a range holds, every wider range holds, so that expanding loses no value.
    pub proof fn law_wider_range<const NEW_MIN: u64, const NEW_MAX: u64>(v: int)
        requires
            RangedI64::<NEW_MIN, NEW_MAX>::lo() <= Self::lo(),
            Self::hi() <= RangedI64::<NEW_MIN, NEW_MAX>::hi(),
            Self::holds(v),
        ensures
            RangedI64::<NEW_MIN, NEW_MAX>::holds(v),
    {
    }

    /// A range that is as long below zero as above holds the negation and the absolute value of each of
    /// its values.
    pub proof fn law_symmetric_range(v: int)
        requires
            -Self::lo() <= Self::hi(),
            -Self::hi() >= Self::lo(),
            Self::holds(v),
        ensures
            Self::holds(-v),
            Self::holds(magnitude(v)),
    {
    }

    /// The lower bound as a primitive.
    fn lower() -> (r: i64)
        ensures
            r == Self::lo(),
    {
        i64_from_bits(MIN)
    }

    /// The upper bound as a primitive.
    fn upper() -> (r: i64)
        ensures
            r == Self::hi(),
    {
        i64_from_bits(MAX)
    }

    /// The smallest value that can be represented by this type.
    pub fn min_value() -> (r: Self)
        requires
            Self::valid(),
        ensures
            r@ == Self::lo(),
    {
        Self::new_unchecked(Self::lower())
    }

    /// The largest value that can be represented by this type.
    pub fn max_value() -> (r: Self)
        requires
            Self::valid(),
        ensures
            r@ == Self::hi(),
    {
        Self::new_unchecked(Self::upper())
    }

    /// The range of values that can be represented by this type.
    pub fn range() -> (r: core::ops::RangeInclusive<i64>)
        requires
            Self::valid(),
        ensures
            r@.start == Self::lo(),
            r@.end == Self::hi(),
            !r@.exhausted,
    {
        Self::lower()..=Self::upper()
    }

    /// Creates a ranged integer without checking the value.
    pub fn new_unchecked(value: i64) -> (r: Self)
        requires
            Self::holds(value as int),
        ensures
            r@ == value,
    {
        RangedI64(value)
    }

    /// Returns the value as a primitive type.
    pub fn get(self) -> (r: i64)
        ensures
            r == self@,
            Self::holds(r as int),
    {
        proof {
            use_type_invariant(&self);
        }
        self.0
    }

    /// Returns the value as a primitive type.
    ///
    /// The returned value is identical to [`RangedI64::get`].
    pub fn get_without_hint(self) -> (r: i64)
        ensures
            r == self@,
            Self::holds(r as int),
    {
        proof {
            use_type_invariant(&self);
        }
        self.0
    }

    /// Returns a reference to the value as a primitive type.
    pub fn get_ref(&self) -> (r: &i64)
        ensures
            *r == self@,
            Self::holds(*r as int),
    {
        proof {
            use_type_invariant(self);
        }
        &self.0
    }

    /// Creates a ranged integer if the given value is in the range `MIN..=MAX`.
    pub fn new(value: i64) -> (r: Option<Self>)
        ensures
            r is Some <==> Self::holds(value as int),
            r matches Some(x) ==> x@ == value,
    {
        if value < Self::lower() || value > Self::upper() {
            None
        } else {
            Some(Self::new_unchecked(value))
        }
    }

    /// Creates a ranged integer with a statically known value, which is in range.
    pub fn new_static<const VALUE: u64>() -> (r: Self)
        requires
            Self::holds(signed_of(VALUE as int, u64::MAX + 1)),
        ensures
            r@ == signed_of(VALUE as int, u64::MAX + 1),
    {
        Self::new_unchecked(i64_from_bits(VALUE))
    }

    /// Creates a ranged integer with the given value, saturating if it is out of range.
    pub fn new_saturating(value: i64) -> (r: Self)
        requires
            Self::valid(),
        ensures
            r@ == clamp(Self::lo(), Self::hi(), value as int),
    {
        if value < Self::lower() {
            Self::min_value()
        } else if value > Self::upper() {
            Self::max_value()
        } else {
            Self::new_unchecked(value)
        }
    }

    /// Reminds the verifier that the value is in range. When the program runs, this does nothing.
    pub fn emit_range_hint(self)
        ensures
            Self::holds(self@),
    {
        proof {
            use_type_invariant(&self);
        }
    }

    /// Expand the range that the value may be in. The new range is a superset of the current range.
    pub fn expand<const NEW_MIN: u64, const NEW_MAX: u64>(self) -> (r: RangedI64<NEW_MIN, NEW_MAX>)
        requires
            RangedI64::<NEW_MIN, NEW_MAX>::lo() <= Self::lo(),
            Self::hi() <= RangedI64::<NEW_MIN, NEW_MAX>::hi(),
        ensures
            r@ == self@,
    {
        RangedI64::<NEW_MIN, NEW_MAX>::new_unchecked(self.get())
    }

    /// Attempt to narrow the range that the value may be in. Returns `None` if the value is outside
    /// the new range. The new range is a subset of the current range.
    pub fn narrow<const NEW_MIN: u64, const NEW_MAX: u64>(self) -> (r: Option<
        RangedI64<NEW_MIN, NEW_MAX>,
    >)
        requires
            RangedI64::<NEW_MIN, NEW_MAX>::valid(),
            Self::lo() <= RangedI64::<NEW_MIN, NEW_MAX>::lo(),
            RangedI64::<NEW_MIN, NEW_MAX>::hi() <= Self::hi(),
        ensures
            r is Some <==> RangedI64::<NEW_MIN, NEW_MAX>::holds(self@),
            r matches Some(x) ==> x@ == self@,
    {
        RangedI64::<NEW_MIN, NEW_MAX>::new(self.get())
    }

    /// Narrow the range that the value may be in. The new range is a subset of the current range, and
    /// the value is in it.
    pub fn narrow_unchecked<const NEW_MIN: u64, const NEW_MAX: u64>(self) -> (r: RangedI64<
        NEW_MIN,
        NEW_MAX,
    >)
        requires
            RangedI64::<NEW_MIN, NEW_MAX>::holds(self@),
            Self::lo() <= RangedI64::<NEW_MIN, NEW_MAX>::lo(),
            RangedI64::<NEW_MIN, NEW_MAX>::hi() <= Self::hi(),
        ensures
            r@ == self@,
    {
        RangedI64::<NEW_MIN, NEW_MAX>::new_unchecked(self.get())
    }

    /// What a text stands for in a given base: an integer of the range, or the kind of error.
    pub open spec fn parses(src: Seq<char>, radix: int) -> Result<int, IntErrorKind> {
        parsed_in_range(src, radix, i64::MIN as int, i64::MAX as int, Self::lo(), Self::hi())
    }

    /// Converts a string slice in a given base to an integer.
    ///
    /// The string is expected to be an optional `+` or `-` sign followed by digits. Leading and
    /// trailing whitespace represent an error. Digits are a subset of these characters, depending on
    /// `radix`:
    ///
    /// - `0-9`
    /// - `a-z`
    /// - `A-Z`
    pub fn from_str_radix(src: &str, radix: u32) -> (r: Result<Self, ParseIntError>)
        requires
            2 <= radix <= 36,
        ensures
            match r {
                Ok(x) => Self::parses(src@, radix as int) == Ok::<int, IntErrorKind>(x@),
                Err(e) => Self::parses(src@, radix as int) == Err::<int, IntErrorKind>(e@),
            },
    {
        proof {
            law_parsed_fits(src@, radix as int, i64::MIN as int, i64::MAX as int);
        }
        match parse_signed(src, radix, i64::MIN as i128, i64::MAX as i128) {
            Err(kind) => Err(parse_int_error_from_kind(kind)),
            Ok(wide) => {
                let value: i64 = wide as i64;
                if value > Self::upper() {
                    Err(parse_int_error_from_kind(IntErrorKind::PosOverflow))
                } else if value < Self::lower() {
                    Err(parse_int_error_from_kind(IntErrorKind::NegOverflow))
                } else {
                    Ok(Self::new_unchecked(value))
                }
            },
        }
    }

    /// Checked integer addition. Computes `self + rhs`, returning `None` if the resulting value is
    /// out of range.
    pub fn checked_add(self, rhs: i64) -> (r: Option<Self>)
        ensures
            r is Some <==> Self::holds(self@ + rhs),
            r matches Some(x) ==> x@ == self@ + rhs,
    {
        match self.get().checked_add(rhs) {
            Some(value) => Self::new(value),
            None => None,
        }
    }

    /// Unchecked integer addition. Computes `self + rhs`, where the result is in range.
    pub fn unchecked_add(self, rhs: i64) -> (r: Self)
        requires
            Self::holds(self@ + rhs),
        ensures
            r@ == self@ + rhs,
    {
        Self::new_unchecked(self.get() + rhs)
    }

    /// Checked integer subtraction. Computes `self - rhs`, returning `None` if the resulting value is
    /// out of range.
    pub fn checked_sub(self, rhs: i64) -> (r: Option<Self>)
        ensures
            r is Some <==> Self::holds(self@ - rhs),
            r matches Some(x) ==> x@ == self@ - rhs,
    {
        match self.get().checked_sub(rhs) {
            Some(value) => Self::new(value),
            None => None,
        }
    }

    /// Unchecked integer subtraction. Computes `self - rhs`, where the result is in range.
    pub fn unchecked_sub(self, rhs: i64) -> (r: Self)
        requires
            Self::holds(self@ - rhs),
        ensures
            r@ == self@ - rhs,
    {
        Self::new_unchecked(self.get() - rhs)
    }

    /// Checked integer multiplication. Computes `self * rhs`, returning `None` if the resulting value
    /// is out of range.
    pub fn checked_mul(self, rhs: i64) -> (r: Option<Self>)
        ensures
            r is Some <==> Self::holds(self@ * rhs),
            r matches Some(x) ==> x@ == self@ * rhs,
    {
        match self.get().checked_mul(rhs) {
            Some(value) => Self::new(value),
            None => None,
        }
    }

    /// Unchecked integer multiplication. Computes `self * rhs`, where the result is in range.
    pub fn unchecked_mul(self, rhs: i64) -> (r: Self)
        requires
            Self::holds(self@ * rhs),
        ensures
            r@ == self@ * rhs,
    {
        Self::new_unchecked(self.get() * rhs)
    }

    /// Checked integer division. Computes `self / rhs`, rounded towards zero, returning `None` if
    /// `rhs == 0` or if the resulting value is out of range.
    pub fn checked_div(self, rhs: i64) -> (r: Option<Self>)
        ensures
            r is Some <==> rhs != 0 && Self::holds(trunc_div(self@, rhs as int)),
            r matches Some(x) ==> x@ == trunc_div(self@, rhs as int),
    {
        proof {
            if rhs != 0 {
                lemma_trunc_cases(self@, rhs as int);
            }
        }
        match self.get().checked_div(rhs) {
            Some(value) => Self::new(value),
            None => None,
        }
    }

    /// Unchecked integer division. Computes `self / rhs`, rounded towards zero, where `rhs != 0` and
    /// the result is in range.
    pub fn unchecked_div(self, rhs: i64) -> (r: Self)
        requires
            rhs != 0,
            Self::holds(trunc_div(self@, rhs as int)),
        ensures
            r@ == trunc_div(self@, rhs as int),
    {
        self.checked_div(rhs).unwrap()
    }

    /// Checked Euclidean division. Computes `self.div_euclid(rhs)`, returning `None` if `rhs == 0` or
    /// if the resulting value is out of range.
    pub fn checked_div_euclid(self, rhs: i64) -> (r: Option<Self>)
        ensures
            r is Some <==> rhs != 0 && Self::holds(self@ / (rhs as int)),
            r matches Some(x) ==> x@ == self@ / (rhs as int),
    {
        match self.get().checked_div_euclid(rhs) {
            Some(value) => Self::new(value),
            None => None,
        }
    }

    /// Unchecked Euclidean division. Computes `self.div_euclid(rhs)`, where `rhs != 0` and the result
    /// is in range.
    pub fn unchecked_div_euclid(self, rhs: i64) -> (r: Self)
        requires
            rhs != 0,
            Self::holds(self@ / (rhs as int)),
        ensures
            r@ == self@ / (rhs as int),
    {
        self.checked_div_euclid(rhs).unwrap()
    }

    /// Checked integer remainder. Computes `self % rhs`, which has the sign of `self`, returning
    /// `None` if `rhs == 0`, if the division overflows, or if the resulting value is out of range.
    pub fn checked_rem(self, rhs: i64) -> (r: Option<Self>)
        ensures
            r is Some <==> rhs != 0 && !(self@ == i64::MIN && rhs == -1) && Self::holds(
                trunc_rem(self@, rhs as int),
            ),
            r matches Some(x) ==> x@ == trunc_rem(self@, rhs as int),
    {
        proof {
            if rhs != 0 {
                lemma_trunc_cases(self@, rhs as int);
            }
        }
        match self.get().checked_rem(rhs) {
            Some(value) => Self::new(value),
            None => None,
        }
    }

    /// Unchecked remainder. Computes `self % rhs`, where `rhs != 0`, the division does not overflow
    /// and the result is in range.
    pub fn unchecked_rem(self, rhs: i64) -> (r: Self)
        requires
            rhs != 0,
            !(self@ == i64::MIN && rhs == -1),
            Self::holds(trunc_rem(self@, rhs as int)),
        ensures
            r@ == trunc_rem(self@, rhs as int),
    {
        self.checked_rem(rhs).unwrap()
    }

    /// Checked Euclidean remainder. Computes `self.rem_euclid(rhs)`, returning `None` if `rhs == 0`,
    /// if the division overflows, or if the resulting value is out of range.
    pub fn checked_rem_euclid(self, rhs: i64) -> (r: Option<Self>)
        ensures
            r is Some <==> rhs != 0 && !(self@ == i64::MIN && rhs == -1) && Self::holds(
                self@ % (rhs as int),
            ),
            r matches Some(x) ==> x@ == self@ % (rhs as int),
    {
        match self.get().checked_rem_euclid(rhs) {
            Some(value) => Self::new(value),
            None => None,
        }
    }

    /// Unchecked Euclidean remainder. Computes `self.rem_euclid(rhs)`, where `rhs != 0`, the division
    /// does not overflow and the result is in range.
    pub fn unchecked_rem_euclid(self, rhs: i64) -> (r: Self)
        requires
            rhs != 0,
            !(self@ == i64::MIN && rhs == -1),
            Self::holds(self@ % (rhs as int)),
        ensures
            r@ == self@ % (rhs as int),
    {
        self.checked_rem_euclid(rhs).unwrap()
    }

    /// Checked negation. Computes `-self`, returning `None` if the resulting value is out of range.
    pub fn checked_neg(self) -> (r: Option<Self>)
        ensures
            r is Some <==> Self::holds(-self@),
            r matches Some(x) ==> x@ == -self@,
    {
        let value: i64 = self.get();
        if value == i64::MIN {
            None
        } else {
            Self::new(-value)
        }
    }

    /// Unchecked negation. Computes `-self`, where `-self` is in range.
    pub fn unchecked_neg(self) -> (r: Self)
        requires
            Self::holds(-self@),
        ensures
            r@ == -self@,
    {
        self.checked_neg().unwrap()
    }

    /// Negation. Computes `self.neg()`, where the range is as long below zero as above.
    pub fn neg(self) -> (r: Self)
        requires
            Self::lo() != i64::MIN,
            -Self::lo() <= Self::hi(),
            -Self::hi() >= Self::lo(),
        ensures
            r@ == -self@,
    {
        self.emit_range_hint();
        self.unchecked_neg()
    }

    /// Checked shift left. Computes `self << rhs`, returning `None` if `rhs` is not below the number
    /// of bits or if the resulting value is out of range.
    pub fn checked_shl(self, rhs: u32) -> (r: Option<Self>)
        ensures
            r is Some <==> rhs < i64::BITS && Self::holds(((self@ as i64) << rhs) as int),
            r matches Some(x) ==> x@ == ((self@ as i64) << rhs),
            rhs < i64::BITS && Self::holds(self@ * pow2(rhs as nat)) ==> (r matches Some(x) && x@
                == self@ * pow2(rhs as nat)),
    {
        let value: i64 = self.get();
        if rhs < i64::BITS {
            proof {
                if Self::holds(self@ * pow2(rhs as nat)) {
                    law_shl_i64(value, rhs);
                }
            }
            Self::new(value << rhs)
        } else {
            None
        }
    }

    /// Unchecked shift left. Computes `self << rhs`, where `rhs` is below the number of bits and the
    /// result is in range.
    pub fn unchecked_shl(self, rhs: u32) -> (r: Self)
        requires
            rhs < i64::BITS,
            Self::holds(((self@ as i64) << rhs) as int),
        ensures
            r@ == ((self@ as i64) << rhs),
    {
        Self::new_unchecked(self.get() << rhs)
    }

    /// Checked shift right. Computes `self >> rhs`, returning `None` if `rhs` is not below the number
    /// of bits or if the resulting value is out of range.
    pub fn checked_shr(self, rhs: u32) -> (r: Option<Self>)
        ensures
            r is Some <==> rhs < i64::BITS && Self::holds(self@ / (pow2(rhs as nat) as int)),
            r matches Some(x) ==> x@ == self@ / (pow2(rhs as nat) as int),
    {
        let value: i64 = self.get();
        if rhs < i64::BITS {
            proof {
                law_shr_i64(value, rhs);
            }
            Self::new(value >> rhs)
        } else {
            None
        }
    }

    /// Unchecked shift right. Computes `self >> rhs`, where `rhs` is below the number of bits and the
    /// result is in range.
    pub fn unchecked_shr(self, rhs: u32) -> (r: Self)
        requires
            rhs < i64::BITS,
            Self::holds(self@ / (pow2(rhs as nat) as int)),
        ensures
            r@ == self@ / (pow2(rhs as nat) as int),
    {
        let value: i64 = self.get();
        proof {
            law_shr_i64(value, rhs);
        }
        Self::new_unchecked(value >> rhs)
    }

    /// Checked absolute value. Computes `self.abs()`, returning `None` if the resulting value is out
    /// of range.
    pub fn checked_abs(self) -> (r: Option<Self>)
        ensures
            r is Some <==> Self::holds(magnitude(self@)),
            r matches Some(x) ==> x@ == magnitude(self@),
    {
        if self.get() < 0 {
            self.checked_neg()
        } else {
            Some(self)
        }
    }

    /// Unchecked absolute value. Computes `self.abs()`, where the result is in range.
    pub fn unchecked_abs(self) -> (r: Self)
        requires
            Self::holds(magnitude(self@)),
        ensures
            r@ == magnitude(self@),
    {
        self.checked_abs().unwrap()
    }

    /// Absolute value. Computes `self.abs()`, where the range is as long above zero as below.
    pub fn abs(self) -> (r: Self)
        requires
            Self::lo() != i64::MIN,
            -Self::lo() <= Self::hi(),
        ensures
            r@ == magnitude(self@),
    {
        self.emit_range_hint();
        self.unchecked_abs()
    }

    /// Checked exponentiation. Computes `self.pow(exp)`, returning `None` if the resulting value is
    /// out of range.
    pub fn checked_pow(self, exp: u32) -> (r: Option<Self>)
        ensures
            r is Some <==> Self::holds(pow(self@, exp as nat)),
            r matches Some(x) ==> x@ == pow(self@, exp as nat),
    {
        match checked_pow_i128(self.get() as i128, exp) {
            Some(power) if Self::lower() as i128 <= power && power <= Self::upper() as i128 => Some(
                Self::new_unchecked(power as i64),
            ),
            _ => None,
        }
    }

    /// Unchecked exponentiation. Computes `self.pow(exp)`, where the result is in range.
    pub fn unchecked_pow(self, exp: u32) -> (r: Self)
        requires
            Self::holds(pow(self@, exp as nat)),
        ensures
            r@ == pow(self@, exp as nat),
    {
        self.checked_pow(exp).unwrap()
    }

    /// Saturating integer addition. Computes `self + rhs`, saturating at the numeric bounds.
    pub fn saturating_add(self, rhs: i64) -> (r: Self)
        ensures
            r@ == clamp(Self::lo(), Self::hi(), self@ + rhs),
    {
        match self.get().checked_add(rhs) {
            Some(value) => Self::new_saturating(value),
            None => if rhs < 0 {
                Self::min_value()
            } else {
                Self::max_value()
            },
        }
    }

    /// Saturating integer subtraction. Computes `self - rhs`, saturating at the numeric bounds.
    pub fn saturating_sub(self, rhs: i64) -> (r: Self)
        ensures
            r@ == clamp(Self::lo(), Self::hi(), self@ - rhs),
    {
        match self.get().checked_sub(rhs) {
            Some(value) => Self::new_saturating(value),
            None => if rhs < 0 {
                Self::max_value()
            } else {
                Self::min_value()
            },
        }
    }

    /// Saturating integer negation. Computes `-self`, saturating at the numeric bounds.
    pub fn saturating_neg(self) -> (r: Self)
        ensures
            r@ == clamp(Self::lo(), Self::hi(), -self@),
    {
        let value: i64 = self.get();
        if value == i64::MIN {
            Self::max_value()
        } else {
            Self::new_saturating(-value)
        }
    }

    /// Saturating absolute value. Computes `self.abs()`, saturating at the numeric bounds.
    pub fn saturating_abs(self) -> (r: Self)
        ensures
            r@ == clamp(Self::lo(), Self::hi(), magnitude(self@)),
    {
        if self.get() < 0 {
            self.saturating_neg()
        } else {
            self
        }
    }

    /// Saturating integer multiplication. Computes `self * rhs`, saturating at the numeric bounds.
    pub fn saturating_mul(self, rhs: i64) -> (r: Self)
        ensures
            r@ == clamp(Self::lo(), Self::hi(), self@ * rhs),
    {
        let value: i64 = self.get();
        proof {
            lemma_product_sign(self@, rhs as int);
        }
        match value.checked_mul(rhs) {
            Some(product) => Self::new_saturating(product),
            None => if (value < 0) == (rhs < 0) {
                Self::max_value()
            } else {
                Self::min_value()
            },
        }
    }

    /// Saturating integer exponentiation. Computes `self.pow(exp)`, saturating at the numeric bounds.
    pub fn saturating_pow(self, exp: u32) -> (r: Self)
        ensures
            r@ == clamp(Self::lo(), Self::hi(), pow(self@, exp as nat)),
    {
        let value: i64 = self.get();
        proof {
            lemma_pow_sign(self@, exp as nat);
        }
        match checked_pow_i128(value as i128, exp) {
            Some(power) => if power < Self::lower() as i128 {
                Self::min_value()
            } else if power > Self::upper() as i128 {
                Self::max_value()
            } else {
                Self::new_unchecked(power as i64)
            },
            None => if value < 0 && exp % 2 == 1 {
                Self::min_value()
            } else {
                Self::max_value()
            },
        }
    }

    /// Returns `true` if the number is positive and `false` if the number is zero or negative.
    pub fn is_positive(self) -> (r: bool)
        ensures
            r <==> self@ > 0,
    {
        self.get() > 0
    }

    /// Returns `true` if the number is negative and `false` if the number is zero or positive.
    pub fn is_negative(self) -> (r: bool)
        ensures
            r <==> self@ < 0,
    {
        self.get() < 0
    }

    /// The Euclidean remainder of a value by the length of a range.
    fn rem_euclid_unsigned(rhs: i64, range_len: u64) -> (r: u64)
        requires
            range_len > 0,
        ensures
            r == (rhs as int) % (range_len as int),
    {
        if rhs >= 0 {
            (rhs as u64) % range_len
        } else {
            let rhs_abs: u64 = i64_magnitude(rhs);
            // The greatest multiple of the length is in the upper half of the word, and no magnitude
            // is above the middle.
            proof {
                lemma_greatest_multiple(u64::MAX as int, range_len as int);
                lemma_mod_of_negative(u64::MAX as int, range_len as int, rhs as int);
            }
            ((u64::MAX / range_len) * range_len - rhs_abs) % range_len
        }
    }

    /// Wrapping integer addition. Computes `self + rhs`, wrapping around the numeric bounds.
    pub fn wrapping_add(self, rhs: i64) -> (r: Self)
        ensures
            r@ == wrap(Self::lo(), Self::hi(), self@ + rhs),
            Self::holds(self@ + rhs) ==> r@ == self@ + rhs,
            Self::holds(self@ + rhs - Self::len()) ==> r@ == self@ + rhs - Self::len(),
            Self::holds(self@ + rhs + Self::len()) ==> r@ == self@ + rhs + Self::len(),
    {
        let inner: i64 = self.get();
        let min: i64 = Self::lower();
        let max: i64 = Self::upper();
        proof {
            law_wrap(Self::lo(), Self::hi(), self@ + rhs);
            lemma_wrap_step(Self::lo(), Self::hi(), self@ + rhs);
        }
        // The whole word is the range: the primitive wraps as the range does.
        if min == i64::MIN && max == i64::MAX {
            return Self::new_unchecked(inner.wrapping_add(rhs));
        }
        let range_len: u64 = i64_distance(min, max) + 1;
        let offset: u64 = Self::rem_euclid_unsigned(rhs, range_len);
        let greater_vals: u64 = i64_distance(inner, max);
        proof {
            lemma_wrap_offset(Self::lo(), Self::hi(), self@, rhs as int, offset as int);
            law_wrap(Self::lo(), Self::hi(), self@ + offset);
            lemma_wrap_step(Self::lo(), Self::hi(), self@ + offset);
        }
        if offset <= greater_vals {
            Self::new_unchecked(inner.wrapping_add_unsigned(offset))
        } else {
            Self::new_unchecked(min.wrapping_add_unsigned(offset - (greater_vals + 1)))
        }
    }

    /// Wrapping integer subtraction. Computes `self - rhs`, wrapping around the numeric bounds.
    pub fn wrapping_sub(self, rhs: i64) -> (r: Self)
        ensures
            r@ == wrap(Self::lo(), Self::hi(), self@ - rhs),
            Self::holds(self@ - rhs) ==> r@ == self@ - rhs,
            Self::holds(self@ - rhs - Self::len()) ==> r@ == self@ - rhs - Self::len(),
            Self::holds(self@ - rhs + Self::len()) ==> r@ == self@ - rhs + Self::len(),
    {
        let inner: i64 = self.get();
        let min: i64 = Self::lower();
        let max: i64 = Self::upper();
        proof {
            law_wrap(Self::lo(), Self::hi(), self@ - rhs);
            lemma_wrap_step(Self::lo(), Self::hi(), self@ - rhs);
        }
        // The whole word is the range: the primitive wraps as the range does.
        if min == i64::MIN && max == i64::MAX {
            return Self::new_unchecked(inner.wrapping_sub(rhs));
        }
        let range_len: u64 = i64_distance(min, max) + 1;
        let offset: u64 = Self::rem_euclid_unsigned(rhs, range_len);
        let lesser_vals: u64 = i64_distance(min, inner);
        proof {
            lemma_wrap_offset(Self::lo(), Self::hi(), self@, rhs as int, offset as int);
            law_wrap(Self::lo(), Self::hi(), self@ - offset);
            lemma_wrap_step(Self::lo(), Self::hi(), self@ - offset);
        }
        if offset <= lesser_vals {
            Self::new_unchecked(inner.checked_sub_unsigned(offset).unwrap())
        } else {
            Self::new_unchecked(max.checked_sub_unsigned(offset - (lesser_vals + 1)).unwrap())
        }
    }
}

impl<const MIN: u64, const MAX: u64> RangedI64<MIN, MAX> {
    /// The decimal text of the value.
    pub fn to_string(self) -> (r: String)
        ensures
            r@ == decimal(self@),
    {
        signed_text(self.get() as i128)
    }

    /// The value as a human-readable format writes it: as an integer when the whole range is within
    /// JSON's safe integer range, otherwise as an integer string.
    pub fn to_human_readable(self) -> (r: HumanReadable<i64>)
        ensures
            match r {
                HumanReadable::Number(value) => json_safe(Self::lo(), Self::hi()) && value == self@,
                HumanReadable::Text(text) => !json_safe(Self::lo(), Self::hi()) && text@ == decimal(
                    self@,
                ),
            },
    {
        let value: i64 = self.get();
        if Self::is_json_safe() {
            HumanReadable::Number(value)
        } else {
            HumanReadable::Text(self.to_string())
        }
    }

    /// Whether the whole range is within JSON's safe integer range.
    pub fn is_json_safe() -> (r: bool)
        ensures
            r <==> json_safe(Self::lo(), Self::hi()),
    {
        signed_json_safe_integer_range(Self::lower() as i128, Self::upper() as i128)
    }

    /// Reads an integer string of a human-readable format.
    pub fn from_human_str(value: &str) -> (r: Option<Self>)
        ensures
            r is Some <==> Self::parses(value@, 10) is Ok,
            r matches Some(x) ==> Self::parses(value@, 10) == Ok::<int, IntErrorKind>(x@),
    {
        match Self::from_str_radix(value, 10) {
            Ok(x) => Some(x),
            Err(_) => None,
        }
    }

    /// Reads an integer number of a human-readable format.
    pub fn from_human_i64(value: i64) -> (r: Option<Self>)
        ensures
            r is Some <==> Self::holds(value as int),
            r matches Some(x) ==> x@ == value,
    {
        Self::new(value)
    }

    /// Reads an unsigned integer number of a human-readable format.
    pub fn from_human_u64(value: u64) -> (r: Option<Self>)
        ensures
            r is Some <==> Self::holds(value as int),
            r matches Some(x) ==> x@ == value,
    {
        if value > i64::MAX as u64 {
            None
        } else {
            Self::new(value as i64)
        }
    }

    /// What a reader of a human-readable format expects.
    pub fn expecting() -> (r: String)
        ensures
            r@ == "an integer or integer string in the range "@ + decimal(Self::lo()) + "..="@
                + decimal(Self::hi()),
    {
        let mut text = String::new();
        text.append("an integer or integer string in the range ");
        append_signed(&mut text, Self::lower() as i128);
        text.append("..=");
        append_signed(&mut text, Self::upper() as i128);
        assert(text@ =~= "an integer or integer string in the range "@ + decimal(Self::lo()) + "..="@
            + decimal(Self::hi()));
        text
    }

    /// A name for the type that tells its range.
    pub fn human_type_name() -> (r: String)
        requires
            Self::valid(),
        ensures
            r@ == "RangedI64_"@ + decimal(Self::lo()) + "_"@ + decimal(Self::hi()),
    {
        let mut text = String::new();
        text.append("RangedI64_");
        append_signed(&mut text, Self::lower() as i128);
        text.append("_");
        append_signed(&mut text, Self::upper() as i128);
        assert(text@ =~= "RangedI64_"@ + decimal(Self::lo()) + "_"@ + decimal(Self::hi()));
        text
    }

    /// The schema of the human-readable form: an integer with bounds if the range is within JSON's
    /// safe integer range, otherwise a string with a pattern and a greatest length.
    pub fn human_schema() -> (r: IntegerSchema<i64>)
        ensures
            match r {
                IntegerSchema::Integer { minimum, maximum } => {
                    &&& json_safe(Self::lo(), Self::hi())
                    &&& minimum == Self::lo()
                    &&& maximum == Self::hi()
                },
                IntegerSchema::Text { min_length, pattern, max_length } => {
                    &&& !json_safe(Self::lo(), Self::hi())
                    &&& min_length == 1
                    &&& pattern@ == JSON_SIGNED_INTEGER_PATTERN@
                    &&& max_length == longest_decimal(Self::lo(), Self::hi())
                },
            },
    {
        if Self::is_json_safe() {
            IntegerSchema::Integer { minimum: Self::lower(), maximum: Self::upper() }
        } else {
            let min_len: usize = signed_len(Self::lower() as i128);
            let max_len: usize = signed_len(Self::upper() as i128);
            IntegerSchema::Text {
                min_length: 1,
                pattern: JSON_SIGNED_INTEGER_PATTERN,
                max_length: if min_len > max_len {
                    min_len
                } else {
                    max_len
                },
            }
        }
    }

    /// The value of the range that stored bytes stand for, or why there is none.
    pub open spec fn stored(data: Seq<u8>) -> Result<int, StoredBytesError> {
        if data.len() != 8 {
            Err(StoredBytesError::Width)
        } else {
            let v = signed_of(le_value(data) as int, u64::MAX + 1);
            if Self::holds(v) {
                Ok(v)
            } else {
                Err(StoredBytesError::Range)
            }
        }
    }

    /// How many bytes a stored value takes.
    pub fn fixed_width() -> (r: Option<usize>)
        ensures
            r == Some(8usize),
    {
        Some(8)
    }

    /// The name of the primitive that a value is stored as.
    pub fn primitive_name() -> (r: &'static str)
        ensures
            r@ == "i64"@,
    {
        "i64"
    }

    /// Reads a value from stored bytes.
    pub fn from_bytes(data: &[u8]) -> (r: Result<Self, StoredBytesError>)
        ensures
            match r {
                Ok(x) => Self::stored(data@) == Ok::<int, StoredBytesError>(x@),
                Err(e) => Self::stored(data@) == Err::<int, StoredBytesError>(e),
            },
    {
        if data.len() != 8 {
            return Err(StoredBytesError::Width);
        }
        proof {
            law_le_bytes_of_value(data@);
            lemma_word_states();
        }
        let word: u64 = read_le(data) as u64;
        match Self::new(i64_from_bits(word)) {
            Some(x) => Ok(x),
            None => Err(StoredBytesError::Range),
        }
    }

    /// The bytes that a value is stored as: the primitive, the lowest byte first.
    pub fn as_bytes(self) -> (r: Vec<u8>)
        ensures
            r@ == le_bytes(bits_of(self@, u64::MAX + 1) as nat, 8),
    {
        write_le(i64_to_bits(self.get()) as u128, 8)
    }

    /// Reading the stored bytes of a value gives the value.
    pub proof fn law_stored(v: int)
        requires
            Self::holds(v),
        ensures
            Self::stored(le_bytes(bits_of(v, u64::MAX + 1) as nat, 8)) == Ok::<
                int,
                StoredBytesError,
            >(v),
    {
        lemma_word_states();
        law_le_value_reads_bytes(bits_of(v, u64::MAX + 1) as nat, 8);
        law_signed_of_bits(v, u64::MAX + 1);
    }

    /// Bytes of the wrong number are refused for it. Other bytes are a value exactly if they are the
    /// bytes of that value, and it is in the range.
    pub proof fn law_stored_bytes(data: Seq<u8>, v: int)
        ensures
            Self::stored(data) == Err::<int, StoredBytesError>(StoredBytesError::Width)
                <==> data.len() != 8,
            Self::stored(data) == Ok::<int, StoredBytesError>(v) <==> Self::holds(v) && data
                == le_bytes(bits_of(v, u64::MAX + 1) as nat, 8),
    {
        lemma_word_states();
        if data.len() == 8 {
            law_le_bytes_of_value(data);
            law_bits_of_signed(le_value(data) as int, u64::MAX + 1);
        }
        if Self::holds(v) {
            Self::law_stored(v);
            law_le_value_reads_bytes(bits_of(v, u64::MAX + 1) as nat, 8);
        }
    }

    /// Compares two stored values.
    pub fn compare(data1: &[u8], data2: &[u8]) -> (r: Result<Ordering, StoredBytesError>)
        ensures
            match (Self::stored(data1@), Self::stored(data2@)) {
                (Ok(a), Ok(b)) => r == Ok::<Ordering, StoredBytesError>(ordering(a, b)),
                (Err(e), _) => r == Err::<Ordering, StoredBytesError>(e),
                (Ok(_), Err(e)) => r == Err::<Ordering, StoredBytesError>(e),
            },
    {
        match Self::from_bytes(data1) {
            Err(e) => Err(e),
            Ok(x) => match Self::from_bytes(data2) {
                Err(e) => Err(e),
                Ok(y) => {
                    let a: i64 = x.get();
                    let b: i64 = y.get();
                    if a < b {
                        Ok(Ordering::Less)
                    } else if a > b {
                        Ok(Ordering::Greater)
                    } else {
                        Ok(Ordering::Equal)
                    }
                },
            },
        }
    }

    /// Whether the range fits the SQL storage type `i64`.
    pub fn fits_sql_storage() -> (r: bool)
        ensures
            r <==> i64::MIN <= Self::lo() && Self::hi() <= i64::MAX,
    {
        i64::MIN as i128 <= Self::lower() as i128 && Self::upper() as i128 <= i64::MAX as i128
    }

    /// The value in the SQL storage type `i64`, which the range fits.
    pub fn to_sql(self) -> (r: i64)
        requires
            i64::MIN <= Self::lo(),
            Self::hi() <= i64::MAX,
        ensures
            r == self@,
    {
        self.get()
    }

    /// Reads a value of the SQL storage type `i64`.
    pub fn from_sql(value: i64) -> (r: Result<Self, TryFromIntError>)
        ensures
            r is Ok <==> Self::holds(value as int),
            r matches Ok(x) ==> x@ == value,
    {
        match Self::new(value) {
            Some(x) => Ok(x),
            None => Err(TryFromIntError),
        }
    }

    /// Generates a value of the range from unstructured bytes.
    pub fn arbitrary<'a>(u: &mut Unstructured<'a>) -> (r: Result<Self, arbitrary::Error>)
        requires
            Self::valid(),
        ensures
            r is Ok,
            r->Ok_0@ == int_from_bytes(unread(*old(u)), Self::lo(), Self::hi()),
            unread(*final(u)) == unread(*old(u)).skip(
                bytes_taken(unread(*old(u)), Self::lo(), Self::hi()),
            ),
    {
        proof {
            law_int_from_bytes(unread(*old(u)), Self::lo(), Self::hi());
        }
        match int_in_range_i64(u, Self::lower(), Self::upper()) {
            Ok(value) => Ok(Self::new_unchecked(value)),
            Err(e) => Err(e),
        }
    }

    /// How many bytes generating a value takes: as many as generating the primitive.
    pub fn arbitrary_size_hint() -> (r: (usize, Option<usize>))
        ensures
            r == (8usize, Some(8usize)),
    {
        (8, Some(8))
    }

    /// The value of the range that an arbitrary integer stands for.
    pub fn from_arbitrary_int(value: i64) -> (r: Self)
        requires
            Self::valid(),
            Self::len() <= i64::MAX,
        ensures
            r@ == Self::lo() + (value as int) % Self::len(),
    {
        let range_len: i64 = Self::upper() - Self::lower() + 1;
        proof {
            lemma_mod_bound(value as int, range_len as int);
        }
        Self::new_unchecked(value.checked_rem_euclid(range_len).unwrap() + Self::lower())
    }

    /// Generates a random value of the range.
    pub fn arbitrary_from_gen(g: &mut Gen) -> (r: Self)
        requires
            Self::valid(),
            Self::len() <= i64::MAX,
        ensures
            Self::holds(r@),
    {
        let x = Self::from_arbitrary_int(random_i64(g));
        x.emit_range_hint();
        x
    }

    /// The values of the range among the candidates, in their order.
    pub fn keep_in_range(candidates: &Vec<i64>) -> (r: Vec<Self>)
        ensures
            r@.map_values(|x: Self| x@) == candidates@.map_values(|v: i64| v as int).filter(
                |v: int| Self::holds(v),
            ),
    {
        let mut kept: Vec<Self> = Vec::new();
        let ghost ints = candidates@.map_values(|v: i64| v as int);
        let ghost keep = |v: int| Self::holds(v);
        let mut i: usize = 0;
        assert(kept@.map_values(|x: Self| x@) =~= ints.take(0).filter(keep)) by {
            reveal(Seq::filter);
        }
        while i < candidates.len()
            invariant
                i <= candidates.len(),
                ints == candidates@.map_values(|v: i64| v as int),
                keep == (|v: int| Self::holds(v)),
                kept@.map_values(|x: Self| x@) == ints.take(i as int).filter(keep),
            decreases candidates.len() - i,
        {
            let value: i64 = candidates[i];
            let ghost after = ints.take(i + 1);
            let ghost kept_before = kept@;
            proof {
                assert(after.drop_last() =~= ints.take(i as int));
                assert(after.last() == value);
                reveal(Seq::filter);
            }
            if let Some(x) = Self::new(value) {
                kept.push(x);
                assert(kept@.map_values(|x: Self| x@) =~= kept_before.map_values(
                    |x: Self| x@,
                ).push(value as int));
            }
            i = i + 1;
        }
        assert(ints.take(candidates.len() as int) =~= ints);
        kept
    }

    /// The smaller values of the range to try in the place of the value.
    pub fn shrink(self) -> (r: Vec<Self>)
        ensures
            r@.map_values(|x: Self| x@) == shrink_candidates(self@, i64::MIN as int).filter(
                |v: int| Self::holds(v),
            ),
    {
        let candidates = shrink_i64(self.get());
        Self::keep_in_range(&candidates)
    }
}

impl<const MIN: u64, const MAX: u64> RangedI64<MIN, MAX> {
    /// Reading the decimal text of a value gives the value.
    pub proof fn law_text_reads_back(v: int)
        requires
            Self::holds(v),
        ensures
            Self::parses(decimal(v), 10) == Ok::<int, IntErrorKind>(v),
    {
        law_parse_reads_decimal(v, i64::MIN as int, i64::MAX as int);
    }

    /// What reads as a value of the range reads, in every radix, as a value of each wider range.
    pub proof fn law_wider_range_reads<const NEW_MIN: u64, const NEW_MAX: u64>(
        src: Seq<char>,
        radix: int,
    )
        requires
            RangedI64::<NEW_MIN, NEW_MAX>::lo() <= Self::lo(),
            Self::hi() <= RangedI64::<NEW_MIN, NEW_MAX>::hi(),
            Self::parses(src, radix) is Ok,
        ensures
            RangedI64::<NEW_MIN, NEW_MAX>::parses(src, radix) == Self::parses(src, radix),
    {
    }

    /// A text of nothing but digits, alone or after a sign, is read as the integer that the digits write
    /// if that is in the range, and otherwise overflows on its side: `quotients` are the integers that
    /// the digits up to each place write.
    pub proof fn law_reads_digits(body: Seq<char>, radix: int, quotients: Seq<int>)
        requires
            2 <= radix <= 36,
            Self::valid(),
            body.len() > 0,
            quotients.len() == body.len() + 1,
            quotients[0] == 0,
            forall|i: int|
                0 <= i < body.len() ==> digit_value(#[trigger] body[i], radix) == Some(
                    quotients[i + 1] - quotients[i] * radix,
                ),
        ensures
            Self::parses(body, radix) == if quotients.last() > Self::hi() {
                Err::<int, IntErrorKind>(IntErrorKind::PosOverflow)
            } else if quotients.last() < Self::lo() {
                Err(IntErrorKind::NegOverflow)
            } else {
                Ok(quotients.last())
            },
            Self::parses(seq!['+'] + body, radix) == Self::parses(body, radix),
            Self::parses(seq!['-'] + body, radix) == if -quotients.last() > Self::hi() {
                Err::<int, IntErrorKind>(IntErrorKind::PosOverflow)
            } else if -quotients.last() < Self::lo() {
                Err(IntErrorKind::NegOverflow)
            } else {
                Ok(-quotients.last())
            },
    {
        law_parsed_digits(body, radix, i64::MIN as int, i64::MAX as int, quotients);
    }

    /// The text that repeated division by the radix writes for an integer, with the digits in lower or in
    /// upper case, is read back as that integer, in every radix.
    pub proof fn law_reads_any_radix(text: Seq<char>, radix: int, quotients: Seq<int>)
        requires
            2 <= radix <= 36,
            text.len() > 0,
            quotients.len() == text.len() + 1,
            quotients[0] == 0,
            forall|i: int|
                0 <= i < text.len() ==> quotients[i] == quotients[i + 1] / radix && (
                #[trigger] text[i] == "0123456789abcdefghijklmnopqrstuvwxyz"@[quotients[i + 1] % radix]
                    || text[i] == "0123456789ABCDEFGHIJKLMNOPQRSTUVWXYZ"@[quotients[i + 1] % radix]),
        ensures
            Self::holds(quotients.last()) ==> Self::parses(text, radix) == Ok::<int, IntErrorKind>(
                quotients.last(),
            ),
            Self::holds(quotients.last()) ==> Self::parses(seq!['+'] + text, radix) == Ok::<
                int,
                IntErrorKind,
            >(quotients.last()),
            Self::holds(-quotients.last()) ==> Self::parses(seq!['-'] + text, radix) == Ok::<
                int,
                IntErrorKind,
            >(-quotients.last()),
    {
        assert forall|i: int| 0 <= i < text.len() implies digit_value(#[trigger] text[i], radix)
            == Some(quotients[i + 1] - quotients[i] * radix) by {
            law_remainder_digit(text[i], quotients[i + 1], radix);
        }
        if Self::valid() {
            Self::law_reads_digits(text, radix, quotients);
        }
    }

    /// A text is refused for its first character that is no digit, which stands at the last place of
    /// `quotients`, unless the digits before it are too large for the word already.
    pub proof fn law_refuses_others(body: Seq<char>, radix: int, quotients: Seq<int>)
        requires
            2 <= radix <= 36,
            1 <= quotients.len() <= body.len(),
            quotients[0] == 0,
            digit_value(body[quotients.len() - 1], radix) is None,
            forall|i: int|
                0 <= i < quotients.len() - 1 ==> digit_value(#[trigger] body[i], radix) == Some(
                    quotients[i + 1] - quotients[i] * radix,
                ),
        ensures
            body[0] != '+' && body[0] != '-' ==> Self::parses(body, radix) == Self::parses(
                seq!['+'] + body,
                radix,
            ),
            Self::parses(seq!['+'] + body, radix) == if quotients.last() <= i64::MAX {
                Err::<int, IntErrorKind>(IntErrorKind::InvalidDigit)
            } else {
                Err(IntErrorKind::PosOverflow)
            },
            Self::parses(seq!['-'] + body, radix) == if -quotients.last() >= i64::MIN {
                Err::<int, IntErrorKind>(IntErrorKind::InvalidDigit)
            } else {
                Err(IntErrorKind::NegOverflow)
            },
    {
        law_parsed_fault(body, radix, i64::MIN as int, i64::MAX as int, quotients);
    }

    /// No text is read as nothing: without a character it is empty, and a sign alone lacks a digit.
    pub proof fn law_refuses_no_digits(radix: int)
        ensures
            Self::parses(Seq::<char>::empty(), radix) == Err::<int, IntErrorKind>(
                IntErrorKind::Empty,
            ),
            Self::parses(seq!['+'], radix) == Err::<int, IntErrorKind>(IntErrorKind::InvalidDigit),
            Self::parses(seq!['-'], radix) == Err::<int, IntErrorKind>(IntErrorKind::InvalidDigit),
    {
    }

    /// Ranged integers of any two ranges compare as the integers that they are, and are equal exactly
    /// if they compare so.
    pub proof fn law_compares<const MIN_B: u64, const MAX_B: u64>(
        x: Self,
        y: RangedI64<MIN_B, MAX_B>,
    )
        ensures
            PartialEqSpec::eq_spec(&x, &y) <==> x@ == y@,
            PartialOrdSpec::partial_cmp_spec(&x, &y) == Some(Ordering::Less) <==> x@ < y@,
            PartialOrdSpec::partial_cmp_spec(&x, &y) == Some(Ordering::Equal) <==> x@ == y@,
            PartialOrdSpec::partial_cmp_spec(&x, &y) == Some(Ordering::Greater) <==> x@ > y@,
    {
    }

    /// The primitive that a ranged integer converts to is the integer that it is, and converting that
    /// back gives the ranged integer.
    pub proof fn law_primitive_reads_back(x: Self)
        requires
            x.wf(),
        ensures
            <i64 as FromSpec<Self>>::from_spec(x) == x@,
            <Self as TryFromSpec<i64>>::try_from_spec(<i64 as FromSpec<Self>>::from_spec(x)) == Ok::<
                Self,
                TryFromIntError,
            >(x),
    {
        Self::law_of(x@);
    }

    /// A primitive converts to the ranged integer that it is if it is in the range, and is refused
    /// otherwise.
    pub proof fn law_try_from(value: i64)
        ensures
            <Self as TryFromSpec<i64>>::try_from_spec(value) is Ok <==> Self::lo() <= value
                <= Self::hi(),
            <Self as TryFromSpec<i64>>::try_from_spec(value) matches Ok(x) ==> x@ == value,
    {
        if Self::holds(value as int) {
            Self::law_of(value as int);
        }
    }

    /// The schema describes what is written: a number is within its bounds and fits the integers that a
    /// reader is given, and a text is a canonical decimal whose length is within its bounds.
    pub proof fn law_schema_describes(v: int)
        requires
            Self::holds(v),
        ensures
            json_safe(Self::lo(), Self::hi()) ==> i64::MIN <= v <= i64::MAX,
            1 <= decimal(v).len() <= longest_decimal(Self::lo(), Self::hi()),
            is_canonical_signed(decimal(v)),
    {
        law_decimal_canonical(v);
        law_decimal_len_in_range(Self::lo(), Self::hi(), v);
    }

    /// Every value of the range is the one that some arbitrary integer stands for.
    pub proof fn law_arbitrary_reaches(v: int)
        requires
            Self::holds(v),
        ensures
            v == Self::lo() + (v - Self::lo()) % Self::len(),
    {
        law_wrap(Self::lo(), Self::hi(), v);
    }

    /// A value of a range that fits the SQL storage type is read back as it was written.
    pub proof fn law_sql_reads_back(v: int)
        requires
            i64::MIN <= Self::lo(),
            Self::hi() <= i64::MAX,
            Self::holds(v),
        ensures
            (v as i64) as int == v,
            Self::holds((v as i64) as int),
    {
    }
}

impl<const MIN: u64, const MAX: u64> AsRef<i64> for RangedI64<MIN, MAX> {
    fn as_ref(&self) -> (r: &i64)
        ensures
            *r == self@,
    {
        self.get_ref()
    }
}

impl<const MIN: u64, const MAX: u64> Borrow<i64> for RangedI64<MIN, MAX> {
    fn borrow(&self) -> &i64
        returns
            &(self@ as i64),
    {
        self.get_ref()
    }
}

impl<
    const MIN_A: u64,
    const MAX_A: u64,
    const MIN_B: u64,
    const MAX_B: u64,
> PartialEq<RangedI64<MIN_B, MAX_B>> for RangedI64<MIN_A, MAX_A> {
    fn eq(&self, other: &RangedI64<MIN_B, MAX_B>) -> (r: bool)
        ensures
            r <==> self@ == other@,
    {
        self.get() == other.get()
    }
}

impl<
    const MIN_A: u64,
    const MAX_A: u64,
    const MIN_B: u64,
    const MAX_B: u64,
> PartialEqSpecImpl<RangedI64<MIN_B, MAX_B>> for RangedI64<MIN_A, MAX_A> {
    open spec fn obeys_eq_spec() -> bool {
        true
    }

    open spec fn eq_spec(&self, other: &RangedI64<MIN_B, MAX_B>) -> bool {
        self@ == other@
    }
}

impl<
    const MIN_A: u64,
    const MAX_A: u64,
    const MIN_B: u64,
    const MAX_B: u64,
> PartialOrd<RangedI64<MIN_B, MAX_B>> for RangedI64<MIN_A, MAX_A> {
    fn partial_cmp(&self, other: &RangedI64<MIN_B, MAX_B>) -> (r: Option<Ordering>)
        ensures
            r == Some(Ordering::Less) <==> self@ < other@,
            r == Some(Ordering::Equal) <==> self@ == other@,
            r == Some(Ordering::Greater) <==> self@ > other@,
    {
        self.get().partial_cmp(&other.get())
    }
}

impl<
    const MIN_A: u64,
    const MAX_A: u64,
    const MIN_B: u64,
    const MAX_B: u64,
> PartialOrdSpecImpl<RangedI64<MIN_B, MAX_B>> for RangedI64<MIN_A, MAX_A> {
    open spec fn obeys_partial_cmp_spec() -> bool {
        true
    }

    open spec fn partial_cmp_spec(&self, other: &RangedI64<MIN_B, MAX_B>) -> Option<Ordering> {
        Some(ordering(self@, other@))
    }
}

impl<const MIN: u64, const MAX: u64> From<RangedI64<MIN, MAX>> for i64 {
    fn from(value: RangedI64<MIN, MAX>) -> (r: i64)
        ensures
            r == value@,
    {
        value.get()
    }
}

impl<const MIN: u64, const MAX: u64> FromSpecImpl<RangedI64<MIN, MAX>> for i64 {
    open spec fn obeys_from_spec() -> bool {
        true
    }

    open spec fn from_spec(value: RangedI64<MIN, MAX>) -> i64 {
        value@ as i64
    }
}

impl<const MIN: u64, const MAX: u64> TryFrom<i64> for RangedI64<MIN, MAX> {
    type Error = TryFromIntError;

    fn try_from(value: i64) -> (r: Result<Self, TryFromIntError>)
        ensures
            r is Ok <==> Self::holds(value as int),
            r matches Ok(x) ==> x@ == value,
    {
        match Self::new(value) {
            Some(x) => Ok(x),
            None => Err(TryFromIntError),
        }
    }
}

impl<const MIN: u64, const MAX: u64> TryFromSpecImpl<i64> for RangedI64<MIN, MAX> {
    open spec fn obeys_try_from_spec() -> bool {
        true
    }

    open spec fn try_from_spec(value: i64) -> Result<Self, TryFromIntError> {
        if Self::holds(value as int) {
            Ok(Self::of(value as int))
        } else {
            Err(TryFromIntError)
        }
    }
}

impl<const MIN: u64, const MAX: u64> FromStr for RangedI64<MIN, MAX> {
    type Err = ParseIntError;

    fn from_str(s: &str) -> (r: Result<Self, ParseIntError>)
        ensures
            match r {
                Ok(x) => Self::parses(s@, 10) == Ok::<int, IntErrorKind>(x@),
                Err(e) => Self::parses(s@, 10) == Err::<int, IntErrorKind>(e@),
            },
    {
        Self::from_str_radix(s, 10)
    }
}

/// An optional `RangedI64`; similar to `Option<RangedI64>`, in the space of an `i64`.
///
/// A value that is not present is stored as an `i64` that is out of range, the niche. A type whose
/// range is all of `i64` has none.
#[derive(Clone, Copy, Eq, Hash)]
pub struct OptionRangedI64<const MIN: u64, const MAX: u64>(i64);

impl<const MIN: u64, const MAX: u64> View for OptionRangedI64<MIN, MAX> {
    type V = Option<int>;

    closed spec fn view(&self) -> Option<int> {
        if self.0 == Self::niche_value() {
            None
        } else {
            Some(self.0 as int)
        }
    }
}

impl<const MIN: u64, const MAX: u64> OptionRangedI64<MIN, MAX> {
    /// Whether `v` is in the range of the values that are present.
    pub open spec fn holds(v: int) -> bool {
        RangedI64::<MIN, MAX>::holds(v)
    }

    /// The integer that stands for a value that is not present.
    pub open spec fn niche_value() -> int {
        if RangedI64::<MIN, MAX>::lo() == i64::MIN {
            i64::MAX as int
        } else {
            i64::MIN as int
        }
    }

    /// Whether there is an integer out of range, to stand for a value that is not present.
    pub open spec fn has_niche() -> bool {
        RangedI64::<MIN, MAX>::lo() != i64::MIN || RangedI64::<MIN, MAX>::hi() != i64::MAX
    }

    /// The integer that the value is stored as.
    pub open spec fn inner_value(self) -> int {
        match self@ {
            Some(v) => v,
            None => Self::niche_value(),
        }
    }

    /// What holds of every value: one that is present is in the range.
    #[verifier::type_invariant]
    pub open spec fn wf(self) -> bool {
        self@ matches Some(v) ==> Self::holds(v)
    }

    /// The value of the type that is stored as `v`.
    pub closed spec fn of_inner(v: int) -> Self {
        OptionRangedI64(v as i64)
    }

    /// The niche is not in the range.
    pub proof fn law_niche()
        requires
            RangedI64::<MIN, MAX>::valid(),
            Self::has_niche(),
        ensures
            !Self::holds(Self::niche_value()),
    {
    }

    /// The niche is the least word, unless the range has that; then it is the greatest. There is none
    /// exactly if the range has both.
    pub proof fn law_niche_is_an_end()
        requires
            RangedI64::<MIN, MAX>::valid(),
        ensures
            !Self::holds(i64::MIN as int) ==> Self::niche_value() == i64::MIN,
            Self::holds(i64::MIN as int) ==> Self::niche_value() == i64::MAX,
            Self::has_niche() <==> !(Self::holds(i64::MIN as int) && Self::holds(i64::MAX as int)),
    {
    }

    /// The values that can be present are those of the range. One that is present is stored as the
    /// integer that it is, and only one that is not present as the niche.
    pub proof fn law_inner(x: Self, v: int)
        ensures
            Self::holds(v) <==> !(v < RangedI64::<MIN, MAX>::lo()) && !(RangedI64::<MIN, MAX>::hi() < v),
            x@ is None <==> x.inner_value() == Self::niche_value(),
            x@ == Some(v) ==> x.inner_value() == v,
    {
    }

    /// Optional values of any two ranges compare as the integers where both are present, and one that is
    /// not present is less than any that is. They are equal exactly if they are stored as the same
    /// integer.
    pub proof fn law_compares<const MIN_B: u64, const MAX_B: u64>(
        x: Self,
        y: OptionRangedI64<MIN_B, MAX_B>,
    )
        ensures
            PartialOrdSpec::partial_cmp_spec(&x, &y) == Some(Ordering::Less) <==> y@ is Some && (x@
                is None || x@->0 < y@->0),
            PartialOrdSpec::partial_cmp_spec(&x, &y) == Some(Ordering::Greater) <==> x@ is Some && (y@
                is None || x@->0 > y@->0),
            PartialOrdSpec::partial_cmp_spec(&x, &y) == Some(Ordering::Equal) <==> x@ == y@,
            x@ is Some && y@ is Some ==> (PartialEqSpec::eq_spec(&x, &y) <==> x@ == y@),
            x@ is Some && y@ is None ==> (PartialEqSpec::eq_spec(&x, &y) <==> x@->0 == OptionRangedI64::<
                MIN_B,
                MAX_B,
            >::niche_value()),
            x@ is None && y@ is Some ==> (PartialEqSpec::eq_spec(&x, &y) <==> y@->0
                == Self::niche_value()),
            x@ is None && y@ is None ==> (PartialEqSpec::eq_spec(&x, &y) <==> Self::niche_value()
                == OptionRangedI64::<MIN_B, MAX_B>::niche_value()),
    {
    }

    /// What a value is stored as tells whether it is present, and which one it is.
    pub proof fn law_of_inner(v: int)
        requires
            i64::MIN <= v <= i64::MAX,
        ensures
            Self::of_inner(v).inner_value() == v,
            Self::of_inner(v)@ == if v == Self::niche_value() {
                None::<int>
            } else {
                Some(v)
            },
            forall|x: Self| x.inner_value() == v ==> x == Self::of_inner(v),
    {
    }

    /// Two optional values of one range are equal when both are not present or both are the same value,
    /// and equal is how they compare then and only then.
    pub proof fn law_equal(x: Self, y: Self)
        ensures
            PartialEqSpec::eq_spec(&x, &y) <==> x@ == y@,
            PartialEqSpec::eq_spec(&x, &y) <==> PartialOrdSpec::partial_cmp_spec(&x, &y) == Some(
                Ordering::Equal,
            ),
            PartialEqSpec::eq_spec(&x, &y) <==> x == y,
    {
        law_optional_ordering(x@, y@, y@);
    }

    /// An optional value stands for one value of the standard library's [`Option`], and back.
    pub proof fn law_option_reads_back(value: Option<RangedI64<MIN, MAX>>)
        requires
            Self::has_niche(),
            value matches Some(x) ==> x.wf(),
        ensures
            <Option<RangedI64<MIN, MAX>> as FromSpec<Self>>::from_spec(
                <Self as FromSpec<Option<RangedI64<MIN, MAX>>>>::from_spec(value),
            ) == value,
    {
        match value {
            Some(x) => {
                RangedI64::<MIN, MAX>::law_of(x@);
                Self::law_of_inner(x@);
            },
            None => {
                Self::law_of_inner(Self::niche_value());
            },
        }
    }

    /// The niche as a primitive.
    fn niche() -> (r: i64)
        ensures
            r == Self::niche_value(),
    {
        if i64_from_bits(MIN) == i64::MIN {
            i64::MAX
        } else {
            i64::MIN
        }
    }

    /// An optional ranged value that is not present.
    pub fn none() -> (r: Self)
        requires
            Self::has_niche(),
        ensures
            r@ is None,
    {
        OptionRangedI64(Self::niche())
    }

    /// Creates an optional ranged value that is present.
    pub fn some(value: RangedI64<MIN, MAX>) -> (r: Self)
        requires
            Self::has_niche(),
        ensures
            r@ == Some(value@),
    {
        OptionRangedI64(value.get())
    }

    /// Returns the value as the standard library's [`Option`] type.
    pub fn get(self) -> (r: Option<RangedI64<MIN, MAX>>)
        ensures
            match r {
                Some(x) => self@ == Some(x@),
                None => self@ is None,
            },
    {
        proof {
            use_type_invariant(&self);
        }
        if self.0 == Self::niche() {
            None
        } else {
            Some(RangedI64::<MIN, MAX>::new_unchecked(self.0))
        }
    }

    /// Creates an optional ranged integer without checking the value, which is in the range.
    pub fn some_unchecked(value: i64) -> (r: Self)
        requires
            Self::has_niche(),
            Self::holds(value as int),
        ensures
            r@ == Some(value as int),
    {
        OptionRangedI64(value)
    }

    /// The integer that the value is stored as.
    pub fn inner(self) -> (r: i64)
        ensures
            r == self.inner_value(),
    {
        self.0
    }

    /// Reads the integer that a value is stored as. Returns `None` if no value is stored as it.
    pub fn from_inner(value: i64) -> (r: Option<Self>)
        requires
            Self::has_niche(),
        ensures
            r is Some <==> value == Self::niche_value() || Self::holds(value as int),
            r matches Some(x) ==> x.inner_value() == value,
            r matches Some(x) ==> (x@ is None <==> value == Self::niche_value()),
    {
        if value == Self::niche() {
            Some(Self::none())
        } else {
            match RangedI64::<MIN, MAX>::new(value) {
                Some(x) => Some(Self::some(x)),
                None => None,
            }
        }
    }

    /// Obtain the value of the struct as an `Option` of the primitive type.
    pub fn get_primitive(self) -> (r: Option<i64>)
        ensures
            match r {
                Some(v) => self@ == Some(v as int) && Self::holds(v as int),
                None => self@ is None,
            },
    {
        match self.get() {
            Some(x) => Some(x.get()),
            None => None,
        }
    }

    /// Obtain the value of the struct as an `Option` of the primitive type.
    ///
    /// The returned value is identical to [`OptionRangedI64::get_primitive`].
    pub fn get_primitive_without_hint(self) -> (r: Option<i64>)
        ensures
            match r {
                Some(v) => self@ == Some(v as int) && Self::holds(v as int),
                None => self@ is None,
            },
    {
        match self.get() {
            Some(x) => Some(x.get_without_hint()),
            None => None,
        }
    }

    /// Returns `true` if the value is the niche value.
    pub fn is_none(&self) -> (r: bool)
        ensures
            r <==> self@ is None,
    {
        self.get().is_none()
    }

    /// Returns `true` if the value is not the niche value.
    pub fn is_some(&self) -> (r: bool)
        ensures
            r <==> self@ is Some,
    {
        self.get().is_some()
    }

    /// Compares two optional values: one that is not present is less than any that is.
    pub fn cmp(&self, other: &Self) -> (r: Ordering)
        ensures
            r == optional_ordering(self@, other@),
    {
        match (self.get(), other.get()) {
            (None, None) => Ordering::Equal,
            (None, Some(_)) => Ordering::Less,
            (Some(_), None) => Ordering::Greater,
            (Some(x), Some(y)) => {
                let a: i64 = x.get();
                let b: i64 = y.get();
                if a < b {
                    Ordering::Less
                } else if a > b {
                    Ordering::Greater
                } else {
                    Ordering::Equal
                }
            },
        }
    }

    /// The value as a human-readable format writes it: nothing if it is not present, otherwise as the
    /// ranged integer.
    pub fn to_human_readable(self) -> (r: Option<HumanReadable<i64>>)
        ensures
            match r {
                None => self@ is None,
                Some(HumanReadable::Number(value)) => json_safe(
                    RangedI64::<MIN, MAX>::lo(),
                    RangedI64::<MIN, MAX>::hi(),
                ) && self@ == Some(value as int),
                Some(HumanReadable::Text(text)) => !json_safe(
                    RangedI64::<MIN, MAX>::lo(),
                    RangedI64::<MIN, MAX>::hi(),
                ) && self@ is Some && text@ == decimal(self@->0),
            },
    {
        match self.get() {
            None => None,
            Some(x) => Some(x.to_human_readable()),
        }
    }

    /// The value that stored bytes stand for, or why there is none.
    pub open spec fn stored(data: Seq<u8>) -> Result<Option<int>, StoredBytesError> {
        if data.len() != 8 {
            Err(StoredBytesError::Width)
        } else {
            let v = signed_of(le_value(data) as int, u64::MAX + 1);
            if v == Self::niche_value() {
                Ok(None)
            } else if Self::holds(v) {
                Ok(Some(v))
            } else {
                Err(StoredBytesError::Range)
            }
        }
    }

    /// How many bytes a stored value takes.
    pub fn fixed_width() -> (r: Option<usize>)
        ensures
            r == Some(8usize),
    {
        Some(8)
    }

    /// The name of the primitive that a value is stored as.
    pub fn primitive_name() -> (r: &'static str)
        ensures
            r@ == "i64"@,
    {
        "i64"
    }

    /// Reads a value from stored bytes.
    pub fn from_bytes(data: &[u8]) -> (r: Result<Self, StoredBytesError>)
        requires
            Self::has_niche(),
        ensures
            match r {
                Ok(x) => Self::stored(data@) == Ok::<Option<int>, StoredBytesError>(x@),
                Err(e) => Self::stored(data@) == Err::<Option<int>, StoredBytesError>(e),
            },
    {
        if data.len() != 8 {
            return Err(StoredBytesError::Width);
        }
        proof {
            law_le_bytes_of_value(data@);
            lemma_word_states();
        }
        let word: u64 = read_le(data) as u64;
        match Self::from_inner(i64_from_bits(word)) {
            Some(x) => Ok(x),
            None => Err(StoredBytesError::Range),
        }
    }

    /// The bytes that a value is stored as: the primitive that stands for it, the lowest byte first.
    pub fn as_bytes(self) -> (r: Vec<u8>)
        ensures
            r@ == le_bytes(bits_of(self.inner_value(), u64::MAX + 1) as nat, 8),
    {
        write_le(i64_to_bits(self.inner()) as u128, 8)
    }

    /// Reading the stored bytes of a value gives the value.
    pub proof fn law_stored(x: Self)
        requires
            x.wf(),
            Self::has_niche(),
        ensures
            Self::stored(le_bytes(bits_of(x.inner_value(), u64::MAX + 1) as nat, 8)) == Ok::<
                Option<int>,
                StoredBytesError,
            >(x@),
    {
        lemma_word_states();
        law_le_value_reads_bytes(bits_of(x.inner_value(), u64::MAX + 1) as nat, 8);
        law_signed_of_bits(x.inner_value(), u64::MAX + 1);
    }

    /// Bytes of the wrong number are refused for it. Other bytes are a value that is not present exactly
    /// if they are those of the niche, and one that is present exactly if they are the bytes of that
    /// value, and it is in the range.
    pub proof fn law_stored_bytes(data: Seq<u8>, v: int)
        requires
            RangedI64::<MIN, MAX>::valid(),
            Self::has_niche(),
        ensures
            Self::stored(data) == Err::<Option<int>, StoredBytesError>(StoredBytesError::Width)
                <==> data.len() != 8,
            Self::stored(data) == Ok::<Option<int>, StoredBytesError>(None) <==> data == le_bytes(
                bits_of(Self::niche_value(), u64::MAX + 1) as nat,
                8,
            ),
            Self::stored(data) == Ok::<Option<int>, StoredBytesError>(Some(v)) <==> Self::holds(v)
                && data == le_bytes(bits_of(v, u64::MAX + 1) as nat, 8),
    {
        let niche = Self::niche_value();
        lemma_word_states();
        if data.len() == 8 {
            law_le_bytes_of_value(data);
            law_bits_of_signed(le_value(data) as int, u64::MAX + 1);
        }
        law_le_value_reads_bytes(bits_of(niche, u64::MAX + 1) as nat, 8);
        law_signed_of_bits(niche, u64::MAX + 1);
        if Self::holds(v) {
            law_le_value_reads_bytes(bits_of(v, u64::MAX + 1) as nat, 8);
            law_signed_of_bits(v, u64::MAX + 1);
        }
    }

    /// Compares two stored values.
    pub fn compare(data1: &[u8], data2: &[u8]) -> (r: Result<Ordering, StoredBytesError>)
        requires
            Self::has_niche(),
        ensures
            match (Self::stored(data1@), Self::stored(data2@)) {
                (Ok(a), Ok(b)) => r == Ok::<Ordering, StoredBytesError>(optional_ordering(a, b)),
                (Err(e), _) => r == Err::<Ordering, StoredBytesError>(e),
                (Ok(_), Err(e)) => r == Err::<Ordering, StoredBytesError>(e),
            },
    {
        match Self::from_bytes(data1) {
            Err(e) => Err(e),
            Ok(x) => match Self::from_bytes(data2) {
                Err(e) => Err(e),
                Ok(y) => Ok(x.cmp(&y)),
            },
        }
    }

    /// Generates an optional value from unstructured bytes: whether it is present, then which one it
    /// is.
    pub fn arbitrary<'a>(u: &mut Unstructured<'a>) -> (r: Result<Self, arbitrary::Error>)
        requires
            RangedI64::<MIN, MAX>::valid(),
            Self::has_niche(),
        ensures
            r is Ok,
            r->Ok_0@ == if lowest_bit(unread(*old(u))) {
                Some(
                    int_from_bytes(
                        unread(*old(u)).skip(1),
                        RangedI64::<MIN, MAX>::lo(),
                        RangedI64::<MIN, MAX>::hi(),
                    ),
                )
            } else {
                None::<int>
            },
            unread(*final(u)) == if lowest_bit(unread(*old(u))) {
                unread(*old(u)).skip(1).skip(
                    bytes_taken(
                        unread(*old(u)).skip(1),
                        RangedI64::<MIN, MAX>::lo(),
                        RangedI64::<MIN, MAX>::hi(),
                    ),
                )
            } else {
                after_bool(unread(*old(u)))
            },
    {
        match arbitrary_bool(u) {
            Err(e) => Err(e),
            Ok(false) => Ok(Self::none()),
            Ok(true) => match RangedI64::<MIN, MAX>::arbitrary(u) {
                Err(e) => Err(e),
                Ok(x) => Ok(Self::some(x)),
            },
        }
    }

    /// How many bytes generating an optional value takes: one for whether it is present, then as many
    /// as generating the primitive.
    pub fn arbitrary_size_hint() -> (r: (usize, Option<usize>))
        ensures
            r == (1usize, Some(9usize)),
    {
        (1, Some(9))
    }

    /// The optional value that an arbitrary choice and an arbitrary integer stand for.
    pub fn from_arbitrary_parts(absent: bool, value: i64) -> (r: Self)
        requires
            RangedI64::<MIN, MAX>::valid(),
            RangedI64::<MIN, MAX>::len() <= i64::MAX,
        ensures
            r@ == (if absent {
                None::<int>
            } else {
                Some(RangedI64::<MIN, MAX>::lo() + (value as int) % RangedI64::<MIN, MAX>::len())
            }),
    {
        if absent {
            Self::none()
        } else {
            Self::some(RangedI64::<MIN, MAX>::from_arbitrary_int(value))
        }
    }

    /// Generates a random optional value: whether it is absent, then which one it is. What the drawn
    /// choice and integer give is what [`OptionRangedI64::from_arbitrary_parts`] says.
    pub fn arbitrary_from_gen(g: &mut Gen) -> (r: Self)
        requires
            RangedI64::<MIN, MAX>::valid(),
            RangedI64::<MIN, MAX>::len() <= i64::MAX,
        ensures
            r@ matches Some(v) ==> Self::holds(v),
    {
        let absent: bool = random_bool(g);
        let value: i64 = if absent {
            0
        } else {
            random_i64(g)
        };
        let x = Self::from_arbitrary_parts(absent, value);
        proof {
            use_type_invariant(&x);
        }
        x
    }

    /// The optional value that a random choice alone decides: an absent one. Returns `None` if the
    /// choice leaves it to a value that is yet to be drawn.
    pub fn decided_by_choice(absent: bool) -> (r: Option<Self>)
        requires
            Self::has_niche(),
        ensures
            r is Some <==> absent,
            r matches Some(x) ==> x@ is None,
    {
        if absent {
            Some(Self::none())
        } else {
            None
        }
    }

    /// The smaller values to try in the place of the value: none for one that is not present;
    /// otherwise the one that is not present, then those of the ranged integer.
    pub fn shrink(self) -> (r: Vec<Self>)
        requires
            Self::has_niche(),
        ensures
            r@.map_values(|x: Self| x@) == match self@ {
                None => Seq::<Option<int>>::empty(),
                Some(v) => seq![None::<int>] + shrink_candidates(v, i64::MIN as int).filter(
                    |c: int| Self::holds(c),
                ).map_values(|c: int| Some(c)),
            },
    {
        let mut values: Vec<Self> = Vec::new();
        match self.get() {
            None => {},
            Some(x) => {
                let inner = x.shrink();
                let ghost kept = shrink_candidates(x@, i64::MIN as int).filter(
                    |c: int| RangedI64::<MIN, MAX>::holds(c),
                );
                values.push(Self::none());
                let mut i: usize = 0;
                while i < inner.len()
                    invariant
                        i <= inner.len(),
                        inner@.map_values(|y: RangedI64<MIN, MAX>| y@) == kept,
                        Self::has_niche(),
                        values.len() == i + 1,
                        values@[0]@ is None,
                        forall|j: int|
                            0 <= j < i ==> (#[trigger] values@[j + 1])@ == Some(inner@[j]@),
                    decreases inner.len() - i,
                {
                    values.push(Self::some(inner[i]));
                    i = i + 1;
                }
                proof {
                    let views = inner@.map_values(|y: RangedI64<MIN, MAX>| y@);
                    let got = values@.map_values(|y: Self| y@);
                    let want = seq![None::<int>] + kept.map_values(|c: int| Some(c));
                    assert(views.len() == inner.len());
                    assert forall|j: int| 0 <= j < got.len() implies got[j] == want[j] by {
                        if j > 0 {
                            assert(values@[(j - 1) + 1]@ == Some(inner@[j - 1]@));
                            assert(views[j - 1] == inner@[j - 1]@);
                        }
                    }
                    assert(got =~= want);
                    assert((|c: int| RangedI64::<MIN, MAX>::holds(c)) =~= (|c: int| Self::holds(c)));
                }
            },
        }
        assert(self@ is None ==> values@.map_values(|x: Self| x@) =~= Seq::<Option<int>>::empty());
        values
    }
}

impl<const MIN: u64, const MAX: u64> Default for OptionRangedI64<MIN, MAX> {
    fn default() -> (r: Self)
        ensures
            r@ is None,
    {
        OptionRangedI64(Self::niche())
    }
}

impl<
    const MIN_A: u64,
    const MAX_A: u64,
    const MIN_B: u64,
    const MAX_B: u64,
> PartialEq<OptionRangedI64<MIN_B, MAX_B>> for OptionRangedI64<MIN_A, MAX_A> {
    fn eq(&self, other: &OptionRangedI64<MIN_B, MAX_B>) -> (r: bool)
        ensures
            r <==> self.inner_value() == other.inner_value(),
    {
        self.inner() == other.inner()
    }
}

impl<
    const MIN_A: u64,
    const MAX_A: u64,
    const MIN_B: u64,
    const MAX_B: u64,
> PartialEqSpecImpl<OptionRangedI64<MIN_B, MAX_B>> for OptionRangedI64<MIN_A, MAX_A> {
    open spec fn obeys_eq_spec() -> bool {
        true
    }

    open spec fn eq_spec(&self, other: &OptionRangedI64<MIN_B, MAX_B>) -> bool {
        self.inner_value() == other.inner_value()
    }
}

impl<
    const MIN_A: u64,
    const MAX_A: u64,
    const MIN_B: u64,
    const MAX_B: u64,
> PartialOrd<OptionRangedI64<MIN_B, MAX_B>> for OptionRangedI64<MIN_A, MAX_A> {
    fn partial_cmp(&self, other: &OptionRangedI64<MIN_B, MAX_B>) -> (r: Option<Ordering>)
        ensures
            r == Some(Ordering::Less) <==> other@ is Some && (self@ is None || self@->0 < other@->0),
            r == Some(Ordering::Greater) <==> self@ is Some && (other@ is None || self@->0
                > other@->0),
            r == Some(Ordering::Equal) <==> self@ == other@,
    {
        if self.is_none() && other.is_none() {
            Some(Ordering::Equal)
        } else if self.is_none() {
            Some(Ordering::Less)
        } else if other.is_none() {
            Some(Ordering::Greater)
        } else {
            self.inner().partial_cmp(&other.inner())
        }
    }
}

impl<
    const MIN_A: u64,
    const MAX_A: u64,
    const MIN_B: u64,
    const MAX_B: u64,
> PartialOrdSpecImpl<OptionRangedI64<MIN_B, MAX_B>> for OptionRangedI64<MIN_A, MAX_A> {
    open spec fn obeys_partial_cmp_spec() -> bool {
        true
    }

    open spec fn partial_cmp_spec(&self, other: &OptionRangedI64<MIN_B, MAX_B>) -> Option<Ordering> {
        Some(optional_ordering(self@, other@))
    }
}

impl<const MIN: u64, const MAX: u64> From<RangedI64<MIN, MAX>> for OptionRangedI64<MIN, MAX> {
    fn from(value: RangedI64<MIN, MAX>) -> (r: Self)
        ensures
            Self::has_niche() ==> r@ == Some(value@),
    {
        OptionRangedI64(value.get())
    }
}

impl<const MIN: u64, const MAX: u64> FromSpecImpl<RangedI64<MIN, MAX>> for OptionRangedI64<MIN, MAX> {
    open spec fn obeys_from_spec() -> bool {
        true
    }

    open spec fn from_spec(value: RangedI64<MIN, MAX>) -> Self {
        Self::of_inner(value@)
    }
}

impl<const MIN: u64, const MAX: u64> From<Option<RangedI64<MIN, MAX>>> for OptionRangedI64<MIN, MAX> {
    fn from(value: Option<RangedI64<MIN, MAX>>) -> (r: Self)
        ensures
            value is None ==> r@ is None,
            Self::has_niche() ==> (value matches Some(x) ==> r@ == Some(x@)),
    {
        match value {
            Some(x) => OptionRangedI64(x.get()),
            None => OptionRangedI64(Self::niche()),
        }
    }
}

impl<const MIN: u64, const MAX: u64> FromSpecImpl<Option<RangedI64<MIN, MAX>>> for OptionRangedI64<MIN, MAX> {
    open spec fn obeys_from_spec() -> bool {
        true
    }

    open spec fn from_spec(value: Option<RangedI64<MIN, MAX>>) -> Self {
        match value {
            Some(x) => Self::of_inner(x@),
            None => Self::of_inner(Self::niche_value()),
        }
    }
}

impl<const MIN: u64, const MAX: u64> From<OptionRangedI64<MIN, MAX>> for Option<RangedI64<MIN, MAX>> {
    fn from(value: OptionRangedI64<MIN, MAX>) -> (r: Self)
        ensures
            match r {
                Some(x) => value@ == Some(x@),
                None => value@ is None,
            },
    {
        value.get()
    }
}

impl<const MIN: u64, const MAX: u64> FromSpecImpl<OptionRangedI64<MIN, MAX>> for Option<RangedI64<MIN, MAX>> {
    open spec fn obeys_from_spec() -> bool {
        true
    }

    open spec fn from_spec(value: OptionRangedI64<MIN, MAX>) -> Self {
        match value@ {
            Some(v) => Some(RangedI64::<MIN, MAX>::of(v)),
            None => None,
        }
    }
}

} // verus!
