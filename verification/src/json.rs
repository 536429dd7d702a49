//! How integers appear in human-readable formats, and the schema that describes it.

use vstd::arithmetic::power2::{lemma2_to64, lemma2_to64_rest, pow2};
use vstd::prelude::*;

verus! {

/// The smallest JSON integer that is safe for Web clients.
pub const JSON_SAFE_SIGNED_INTEGER_MIN: i128 = -9_007_199_254_740_991;

/// The largest JSON integer that is safe for Web clients.
pub const JSON_SAFE_SIGNED_INTEGER_MAX: i128 = 9_007_199_254_740_991;

/// The largest unsigned JSON integer that is safe for Web clients.
pub const JSON_SAFE_UNSIGNED_INTEGER_MAX: u128 = 9_007_199_254_740_991;

/// The string pattern for a JSON integer.
pub const JSON_SIGNED_INTEGER_PATTERN: &'static str = "^-?(?:0|[1-9][0-9]*)$";

/// The string pattern for an unsigned JSON integer.
pub const JSON_UNSIGNED_INTEGER_PATTERN: &'static str = "^(?:0|[1-9][0-9]*)$";

/// Whether every integer of `lo..=hi` is one that Web clients read exactly: a double holds it.
pub open spec fn json_safe(lo: int, hi: int) -> bool {
    &&& lo >= JSON_SAFE_SIGNED_INTEGER_MIN
    &&& hi <= JSON_SAFE_SIGNED_INTEGER_MAX
}

/// Whether a signed range is within Web JSON's safe integer range.
pub fn signed_json_safe_integer_range(min: i128, max: i128) -> (r: bool)
    ensures
        r <==> json_safe(min as int, max as int),
{
    min >= JSON_SAFE_SIGNED_INTEGER_MIN && max <= JSON_SAFE_SIGNED_INTEGER_MAX
}

/// Whether an unsigned range is within Web JSON's safe integer range.
pub fn unsigned_json_safe_integer_range(max: u128) -> (r: bool)
    ensures
        r <==> json_safe(0, max as int),
{
    max <= JSON_SAFE_UNSIGNED_INTEGER_MAX
}

/// An integer as a human-readable format writes it.
pub enum HumanReadable<T> {
    /// As an integer number.
    Number(T),
    /// As a string of decimal digits.
    Text(String),
}

/// The schema of the human-readable form of a range of integers.
pub enum IntegerSchema<T> {
    /// An integer number within bounds.
    Integer {
        /// The smallest number.
        minimum: T,
        /// The largest number.
        maximum: T,
    },
    /// A string of decimal digits.
    Text {
        /// The fewest characters of the string.
        min_length: usize,
        /// The pattern of the string, a regular expression.
        pattern: &'static str,
        /// The most characters of the string.
        max_length: usize,
    },
}

/// What is safe for a range is safe for each part of it.
pub proof fn law_json_safe_subrange(lo: int, hi: int, a: int, b: int)
    requires
        json_safe(lo, hi),
        lo <= a,
        b <= hi,
    ensures
        json_safe(a, b),
{
}

/// A range is safe if its integers have no more than 53 bits, which is what a double holds exactly.
pub proof fn law_json_safe(lo: int, hi: int)
    ensures
        json_safe(lo, hi) <==> -pow2(53) < lo && hi < pow2(53),
{
    lemma2_to64();
    lemma2_to64_rest();
}

} // verus!
