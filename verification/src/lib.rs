//! Ranged integers: integers that are known to be in a range `MIN..=MAX`, and optional ones that take
//! no more space than the integer.
//!
//! For each primitive integer type there is a ranged type, such as [`RangedU8`], and an optional one,
//! such as [`OptionRangedU8`]. The view of a ranged integer is the mathematical integer that it stands
//! for, and the view of an optional one is an optional integer. The bounds of the signed types are
//! given by their two's complement patterns: `RangedI8<251, 5>` holds `-5..=5`.

pub mod bytes;
pub mod decimal;
pub mod json;
pub mod math;
pub mod numeric;
pub mod parse;
pub mod random;
pub mod shift;
pub mod unstructured;
pub mod words;

mod convert;
mod error;
mod nonzero;
mod ranged_i128;
mod ranged_i16;
mod ranged_i32;
mod ranged_i64;
mod ranged_i8;
mod ranged_isize;
mod ranged_u128;
mod ranged_u16;
mod ranged_u32;
mod ranged_u64;
mod ranged_u8;
mod ranged_usize;

use vstd::prelude::*;

pub use bytes::StoredBytesError;
pub use convert::RangedFrom;
pub use error::{
    assert_error_kind, failed_with, parse_int_error_from_kind, IntErrorKind, ParseIntError,
    TryFromIntError,
};
pub use json::{
    signed_json_safe_integer_range, unsigned_json_safe_integer_range, HumanReadable, IntegerSchema,
};
pub use nonzero::{NonZeroU128, NonZeroU16, NonZeroU32, NonZeroU64, NonZeroU8, NonZeroUsize};
pub use ranged_i128::{OptionRangedI128, RangedI128};
pub use ranged_i16::{OptionRangedI16, RangedI16};
pub use ranged_i32::{OptionRangedI32, RangedI32};
pub use ranged_i64::{OptionRangedI64, RangedI64};
pub use ranged_i8::{OptionRangedI8, RangedI8};
pub use ranged_isize::{OptionRangedIsize, RangedIsize};
pub use ranged_u128::{OptionRangedU128, RangedU128};
pub use ranged_u16::{OptionRangedU16, RangedU16};
pub use ranged_u32::{OptionRangedU32, RangedU32};
pub use ranged_u64::{OptionRangedU64, RangedU64};
pub use ranged_u8::{OptionRangedU8, RangedU8};
pub use ranged_usize::{OptionRangedUsize, RangedUsize};

verus! {

/// Equivalent to `RangedU8`.
#[allow(non_camel_case_types)]
pub type ru8<const MIN: u8, const MAX: u8> = RangedU8<MIN, MAX>;

/// Equivalent to `OptionRangedU8`.
#[allow(non_camel_case_types)]
pub type Option_ru8<const MIN: u8, const MAX: u8> = OptionRangedU8<MIN, MAX>;

/// Equivalent to `RangedU16`.
#[allow(non_camel_case_types)]
pub type ru16<const MIN: u16, const MAX: u16> = RangedU16<MIN, MAX>;

/// Equivalent to `OptionRangedU16`.
#[allow(non_camel_case_types)]
pub type Option_ru16<const MIN: u16, const MAX: u16> = OptionRangedU16<MIN, MAX>;

/// Equivalent to `RangedU32`.
#[allow(non_camel_case_types)]
pub type ru32<const MIN: u32, const MAX: u32> = RangedU32<MIN, MAX>;

/// Equivalent to `OptionRangedU32`.
#[allow(non_camel_case_types)]
pub type Option_ru32<const MIN: u32, const MAX: u32> = OptionRangedU32<MIN, MAX>;

/// Equivalent to `RangedU64`.
#[allow(non_camel_case_types)]
pub type ru64<const MIN: u64, const MAX: u64> = RangedU64<MIN, MAX>;

/// Equivalent to `OptionRangedU64`.
#[allow(non_camel_case_types)]
pub type Option_ru64<const MIN: u64, const MAX: u64> = OptionRangedU64<MIN, MAX>;

/// Equivalent to `RangedU128`.
#[allow(non_camel_case_types)]
pub type ru128<const MIN: u128, const MAX: u128> = RangedU128<MIN, MAX>;

/// Equivalent to `OptionRangedU128`.
#[allow(non_camel_case_types)]
pub type Option_ru128<const MIN: u128, const MAX: u128> = OptionRangedU128<MIN, MAX>;

/// Equivalent to `RangedUsize`.
#[allow(non_camel_case_types)]
pub type rusize<const MIN: usize, const MAX: usize> = RangedUsize<MIN, MAX>;

/// Equivalent to `OptionRangedUsize`.
#[allow(non_camel_case_types)]
pub type Option_rusize<const MIN: usize, const MAX: usize> = OptionRangedUsize<MIN, MAX>;

/// Equivalent to `RangedI8`.
#[allow(non_camel_case_types)]
pub type ri8<const MIN: u8, const MAX: u8> = RangedI8<MIN, MAX>;

/// Equivalent to `OptionRangedI8`.
#[allow(non_camel_case_types)]
pub type Option_ri8<const MIN: u8, const MAX: u8> = OptionRangedI8<MIN, MAX>;

/// Equivalent to `RangedI16`.
#[allow(non_camel_case_types)]
pub type ri16<const MIN: u16, const MAX: u16> = RangedI16<MIN, MAX>;

/// Equivalent to `OptionRangedI16`.
#[allow(non_camel_case_types)]
pub type Option_ri16<const MIN: u16, const MAX: u16> = OptionRangedI16<MIN, MAX>;

/// Equivalent to `RangedI32`.
#[allow(non_camel_case_types)]
pub type ri32<const MIN: u32, const MAX: u32> = RangedI32<MIN, MAX>;

/// Equivalent to `OptionRangedI32`.
#[allow(non_camel_case_types)]
pub type Option_ri32<const MIN: u32, const MAX: u32> = OptionRangedI32<MIN, MAX>;

/// Equivalent to `RangedI64`.
#[allow(non_camel_case_types)]
pub type ri64<const MIN: u64, const MAX: u64> = RangedI64<MIN, MAX>;

/// Equivalent to `OptionRangedI64`.
#[allow(non_camel_case_types)]
pub type Option_ri64<const MIN: u64, const MAX: u64> = OptionRangedI64<MIN, MAX>;

/// Equivalent to `RangedI128`.
#[allow(non_camel_case_types)]
pub type ri128<const MIN: u128, const MAX: u128> = RangedI128<MIN, MAX>;

/// Equivalent to `OptionRangedI128`.
#[allow(non_camel_case_types)]
pub type Option_ri128<const MIN: u128, const MAX: u128> = OptionRangedI128<MIN, MAX>;

/// Equivalent to `RangedIsize`.
#[allow(non_camel_case_types)]
pub type risize<const MIN: usize, const MAX: usize> = RangedIsize<MIN, MAX>;

/// Equivalent to `OptionRangedIsize`.
#[allow(non_camel_case_types)]
pub type Option_risize<const MIN: usize, const MAX: usize> = OptionRangedIsize<MIN, MAX>;

} // verus!
