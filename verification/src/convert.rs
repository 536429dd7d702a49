//! Conversions between ranged integers of different primitive types, where no value is lost.

use vstd::prelude::*;

use crate::ranged_u8::RangedU8;
use crate::ranged_u16::RangedU16;
use crate::ranged_u32::RangedU32;
use crate::ranged_u64::RangedU64;
use crate::ranged_u128::RangedU128;
use crate::ranged_usize::RangedUsize;
use crate::ranged_i8::RangedI8;
use crate::ranged_i16::RangedI16;
use crate::ranged_i32::RangedI32;
use crate::ranged_i64::RangedI64;
use crate::ranged_i128::RangedI128;
use crate::ranged_isize::RangedIsize;

verus! {

/// A conversion from another ranged type whose range is part of this one's.
pub trait RangedFrom<S: View<V = int>>: View<V = int> + Sized {
    /// Whether the source range is part of the target range.
    spec fn covers() -> bool;

    /// A source range that has a value is part of the target range exactly if both of its ends are in
    /// the target range.
    proof fn law_covers();

    /// The value of this type that is the same integer.
    fn ranged_from(value: S) -> (r: Self)
        requires
            Self::covers(),
        ensures
            r@ == value@,
    ;
}

impl<
    const MIN_SRC: u16,
    const MAX_SRC: u16,
    const MIN_DST: u8,
    const MAX_DST: u8,
> RangedFrom<RangedU16<MIN_SRC, MAX_SRC>> for RangedU8<MIN_DST, MAX_DST> {
    open spec fn covers() -> bool {
        &&& Self::lo() <= RangedU16::<MIN_SRC, MAX_SRC>::lo()
        &&& RangedU16::<MIN_SRC, MAX_SRC>::hi() <= Self::hi()
    }

    proof fn law_covers()
        ensures
            RangedU16::<MIN_SRC, MAX_SRC>::valid() ==> (<Self as RangedFrom<
                RangedU16<MIN_SRC, MAX_SRC>,
            >>::covers() <==> Self::holds(RangedU16::<MIN_SRC, MAX_SRC>::lo()) && Self::holds(
                RangedU16::<MIN_SRC, MAX_SRC>::hi(),
            )),
    {
    }

    fn ranged_from(value: RangedU16<MIN_SRC, MAX_SRC>) -> (r: Self) {
        Self::new_unchecked(value.get() as u8)
    }
}

impl<
    const MIN_SRC: u32,
    const MAX_SRC: u32,
    const MIN_DST: u8,
    const MAX_DST: u8,
> RangedFrom<RangedU32<MIN_SRC, MAX_SRC>> for RangedU8<MIN_DST, MAX_DST> {
    open spec fn covers() -> bool {
        &&& Self::lo() <= RangedU32::<MIN_SRC, MAX_SRC>::lo()
        &&& RangedU32::<MIN_SRC, MAX_SRC>::hi() <= Self::hi()
    }

    proof fn law_covers()
        ensures
            RangedU32::<MIN_SRC, MAX_SRC>::valid() ==> (<Self as RangedFrom<
                RangedU32<MIN_SRC, MAX_SRC>,
            >>::covers() <==> Self::holds(RangedU32::<MIN_SRC, MAX_SRC>::lo()) && Self::holds(
                RangedU32::<MIN_SRC, MAX_SRC>::hi(),
            )),
    {
    }

    fn ranged_from(value: RangedU32<MIN_SRC, MAX_SRC>) -> (r: Self) {
        Self::new_unchecked(value.get() as u8)
    }
}

impl<
    const MIN_SRC: u64,
    const MAX_SRC: u64,
    const MIN_DST: u8,
    const MAX_DST: u8,
> RangedFrom<RangedU64<MIN_SRC, MAX_SRC>> for RangedU8<MIN_DST, MAX_DST> {
    open spec fn covers() -> bool {
        &&& Self::lo() <= RangedU64::<MIN_SRC, MAX_SRC>::lo()
        &&& RangedU64::<MIN_SRC, MAX_SRC>::hi() <= Self::hi()
    }

    proof fn law_covers()
        ensures
            RangedU64::<MIN_SRC, MAX_SRC>::valid() ==> (<Self as RangedFrom<
                RangedU64<MIN_SRC, MAX_SRC>,
            >>::covers() <==> Self::holds(RangedU64::<MIN_SRC, MAX_SRC>::lo()) && Self::holds(
                RangedU64::<MIN_SRC, MAX_SRC>::hi(),
            )),
    {
    }

    fn ranged_from(value: RangedU64<MIN_SRC, MAX_SRC>) -> (r: Self) {
        Self::new_unchecked(value.get() as u8)
    }
}

impl<
    const MIN_SRC: u128,
    const MAX_SRC: u128,
    const MIN_DST: u8,
    const MAX_DST: u8,
> RangedFrom<RangedU128<MIN_SRC, MAX_SRC>> for RangedU8<MIN_DST, MAX_DST> {
    open spec fn covers() -> bool {
        &&& Self::lo() <= RangedU128::<MIN_SRC, MAX_SRC>::lo()
        &&& RangedU128::<MIN_SRC, MAX_SRC>::hi() <= Self::hi()
    }

    proof fn law_covers()
        ensures
            RangedU128::<MIN_SRC, MAX_SRC>::valid() ==> (<Self as RangedFrom<
                RangedU128<MIN_SRC, MAX_SRC>,
            >>::covers() <==> Self::holds(RangedU128::<MIN_SRC, MAX_SRC>::lo()) && Self::holds(
                RangedU128::<MIN_SRC, MAX_SRC>::hi(),
            )),
    {
    }

    fn ranged_from(value: RangedU128<MIN_SRC, MAX_SRC>) -> (r: Self) {
        Self::new_unchecked(value.get() as u8)
    }
}

impl<
    const MIN_SRC: usize,
    const MAX_SRC: usize,
    const MIN_DST: u8,
    const MAX_DST: u8,
> RangedFrom<RangedUsize<MIN_SRC, MAX_SRC>> for RangedU8<MIN_DST, MAX_DST> {
    open spec fn covers() -> bool {
        &&& Self::lo() <= RangedUsize::<MIN_SRC, MAX_SRC>::lo()
        &&& RangedUsize::<MIN_SRC, MAX_SRC>::hi() <= Self::hi()
    }

    proof fn law_covers()
        ensures
            RangedUsize::<MIN_SRC, MAX_SRC>::valid() ==> (<Self as RangedFrom<
                RangedUsize<MIN_SRC, MAX_SRC>,
            >>::covers() <==> Self::holds(RangedUsize::<MIN_SRC, MAX_SRC>::lo()) && Self::holds(
                RangedUsize::<MIN_SRC, MAX_SRC>::hi(),
            )),
    {
    }

    fn ranged_from(value: RangedUsize<MIN_SRC, MAX_SRC>) -> (r: Self) {
        Self::new_unchecked(value.get() as u8)
    }
}

impl<
    const MIN_SRC: u8,
    const MAX_SRC: u8,
    const MIN_DST: u8,
    const MAX_DST: u8,
> RangedFrom<RangedI8<MIN_SRC, MAX_SRC>> for RangedU8<MIN_DST, MAX_DST> {
    open spec fn covers() -> bool {
        &&& Self::lo() <= RangedI8::<MIN_SRC, MAX_SRC>::lo()
        &&& RangedI8::<MIN_SRC, MAX_SRC>::hi() <= Self::hi()
    }

    proof fn law_covers()
        ensures
            RangedI8::<MIN_SRC, MAX_SRC>::valid() ==> (<Self as RangedFrom<
                RangedI8<MIN_SRC, MAX_SRC>,
            >>::covers() <==> Self::holds(RangedI8::<MIN_SRC, MAX_SRC>::lo()) && Self::holds(
                RangedI8::<MIN_SRC, MAX_SRC>::hi(),
            )),
    {
    }

    fn ranged_from(value: RangedI8<MIN_SRC, MAX_SRC>) -> (r: Self) {
        Self::new_unchecked(value.get() as u8)
    }
}

impl<
    const MIN_SRC: u16,
    const MAX_SRC: u16,
    const MIN_DST: u8,
    const MAX_DST: u8,
> RangedFrom<RangedI16<MIN_SRC, MAX_SRC>> for RangedU8<MIN_DST, MAX_DST> {
    open spec fn covers() -> bool {
        &&& Self::lo() <= RangedI16::<MIN_SRC, MAX_SRC>::lo()
        &&& RangedI16::<MIN_SRC, MAX_SRC>::hi() <= Self::hi()
    }

    proof fn law_covers()
        ensures
            RangedI16::<MIN_SRC, MAX_SRC>::valid() ==> (<Self as RangedFrom<
                RangedI16<MIN_SRC, MAX_SRC>,
            >>::covers() <==> Self::holds(RangedI16::<MIN_SRC, MAX_SRC>::lo()) && Self::holds(
                RangedI16::<MIN_SRC, MAX_SRC>::hi(),
            )),
    {
    }

    fn ranged_from(value: RangedI16<MIN_SRC, MAX_SRC>) -> (r: Self) {
        Self::new_unchecked(value.get() as u8)
    }
}

impl<
    const MIN_SRC: u32,
    const MAX_SRC: u32,
    const MIN_DST: u8,
    const MAX_DST: u8,
> RangedFrom<RangedI32<MIN_SRC, MAX_SRC>> for RangedU8<MIN_DST, MAX_DST> {
    open spec fn covers() -> bool {
        &&& Self::lo() <= RangedI32::<MIN_SRC, MAX_SRC>::lo()
        &&& RangedI32::<MIN_SRC, MAX_SRC>::hi() <= Self::hi()
    }

    proof fn law_covers()
        ensures
            RangedI32::<MIN_SRC, MAX_SRC>::valid() ==> (<Self as RangedFrom<
                RangedI32<MIN_SRC, MAX_SRC>,
            >>::covers() <==> Self::holds(RangedI32::<MIN_SRC, MAX_SRC>::lo()) && Self::holds(
                RangedI32::<MIN_SRC, MAX_SRC>::hi(),
            )),
    {
    }

    fn ranged_from(value: RangedI32<MIN_SRC, MAX_SRC>) -> (r: Self) {
        Self::new_unchecked(value.get() as u8)
    }
}

impl<
    const MIN_SRC: u64,
    const MAX_SRC: u64,
    const MIN_DST: u8,
    const MAX_DST: u8,
> RangedFrom<RangedI64<MIN_SRC, MAX_SRC>> for RangedU8<MIN_DST, MAX_DST> {
    open spec fn covers() -> bool {
        &&& Self::lo() <= RangedI64::<MIN_SRC, MAX_SRC>::lo()
        &&& RangedI64::<MIN_SRC, MAX_SRC>::hi() <= Self::hi()
    }

    proof fn law_covers()
        ensures
            RangedI64::<MIN_SRC, MAX_SRC>::valid() ==> (<Self as RangedFrom<
                RangedI64<MIN_SRC, MAX_SRC>,
            >>::covers() <==> Self::holds(RangedI64::<MIN_SRC, MAX_SRC>::lo()) && Self::holds(
                RangedI64::<MIN_SRC, MAX_SRC>::hi(),
            )),
    {
    }

    fn ranged_from(value: RangedI64<MIN_SRC, MAX_SRC>) -> (r: Self) {
        Self::new_unchecked(value.get() as u8)
    }
}

impl<
    const MIN_SRC: u128,
    const MAX_SRC: u128,
    const MIN_DST: u8,
    const MAX_DST: u8,
> RangedFrom<RangedI128<MIN_SRC, MAX_SRC>> for RangedU8<MIN_DST, MAX_DST> {
    open spec fn covers() -> bool {
        &&& Self::lo() <= RangedI128::<MIN_SRC, MAX_SRC>::lo()
        &&& RangedI128::<MIN_SRC, MAX_SRC>::hi() <= Self::hi()
    }

    proof fn law_covers()
        ensures
            RangedI128::<MIN_SRC, MAX_SRC>::valid() ==> (<Self as RangedFrom<
                RangedI128<MIN_SRC, MAX_SRC>,
            >>::covers() <==> Self::holds(RangedI128::<MIN_SRC, MAX_SRC>::lo()) && Self::holds(
                RangedI128::<MIN_SRC, MAX_SRC>::hi(),
            )),
    {
    }

    fn ranged_from(value: RangedI128<MIN_SRC, MAX_SRC>) -> (r: Self) {
        Self::new_unchecked(value.get() as u8)
    }
}

impl<
    const MIN_SRC: usize,
    const MAX_SRC: usize,
    const MIN_DST: u8,
    const MAX_DST: u8,
> RangedFrom<RangedIsize<MIN_SRC, MAX_SRC>> for RangedU8<MIN_DST, MAX_DST> {
    open spec fn covers() -> bool {
        &&& Self::lo() <= RangedIsize::<MIN_SRC, MAX_SRC>::lo()
        &&& RangedIsize::<MIN_SRC, MAX_SRC>::hi() <= Self::hi()
    }

    proof fn law_covers()
        ensures
            RangedIsize::<MIN_SRC, MAX_SRC>::valid() ==> (<Self as RangedFrom<
                RangedIsize<MIN_SRC, MAX_SRC>,
            >>::covers() <==> Self::holds(RangedIsize::<MIN_SRC, MAX_SRC>::lo()) && Self::holds(
                RangedIsize::<MIN_SRC, MAX_SRC>::hi(),
            )),
    {
    }

    fn ranged_from(value: RangedIsize<MIN_SRC, MAX_SRC>) -> (r: Self) {
        Self::new_unchecked(value.get() as u8)
    }
}

impl<
    const MIN_SRC: u8,
    const MAX_SRC: u8,
    const MIN_DST: u16,
    const MAX_DST: u16,
> RangedFrom<RangedU8<MIN_SRC, MAX_SRC>> for RangedU16<MIN_DST, MAX_DST> {
    open spec fn covers() -> bool {
        &&& Self::lo() <= RangedU8::<MIN_SRC, MAX_SRC>::lo()
        &&& RangedU8::<MIN_SRC, MAX_SRC>::hi() <= Self::hi()
    }

    proof fn law_covers()
        ensures
            RangedU8::<MIN_SRC, MAX_SRC>::valid() ==> (<Self as RangedFrom<
                RangedU8<MIN_SRC, MAX_SRC>,
            >>::covers() <==> Self::holds(RangedU8::<MIN_SRC, MAX_SRC>::lo()) && Self::holds(
                RangedU8::<MIN_SRC, MAX_SRC>::hi(),
            )),
    {
    }

    fn ranged_from(value: RangedU8<MIN_SRC, MAX_SRC>) -> (r: Self) {
        Self::new_unchecked(value.get() as u16)
    }
}

impl<
    const MIN_SRC: u32,
    const MAX_SRC: u32,
    const MIN_DST: u16,
    const MAX_DST: u16,
> RangedFrom<RangedU32<MIN_SRC, MAX_SRC>> for RangedU16<MIN_DST, MAX_DST> {
    open spec fn covers() -> bool {
        &&& Self::lo() <= RangedU32::<MIN_SRC, MAX_SRC>::lo()
        &&& RangedU32::<MIN_SRC, MAX_SRC>::hi() <= Self::hi()
    }

    proof fn law_covers()
        ensures
            RangedU32::<MIN_SRC, MAX_SRC>::valid() ==> (<Self as RangedFrom<
                RangedU32<MIN_SRC, MAX_SRC>,
            >>::covers() <==> Self::holds(RangedU32::<MIN_SRC, MAX_SRC>::lo()) && Self::holds(
                RangedU32::<MIN_SRC, MAX_SRC>::hi(),
            )),
    {
    }

    fn ranged_from(value: RangedU32<MIN_SRC, MAX_SRC>) -> (r: Self) {
        Self::new_unchecked(value.get() as u16)
    }
}

impl<
    const MIN_SRC: u64,
    const MAX_SRC: u64,
    const MIN_DST: u16,
    const MAX_DST: u16,
> RangedFrom<RangedU64<MIN_SRC, MAX_SRC>> for RangedU16<MIN_DST, MAX_DST> {
    open spec fn covers() -> bool {
        &&& Self::lo() <= RangedU64::<MIN_SRC, MAX_SRC>::lo()
        &&& RangedU64::<MIN_SRC, MAX_SRC>::hi() <= Self::hi()
    }

    proof fn law_covers()
        ensures
            RangedU64::<MIN_SRC, MAX_SRC>::valid() ==> (<Self as RangedFrom<
                RangedU64<MIN_SRC, MAX_SRC>,
            >>::covers() <==> Self::holds(RangedU64::<MIN_SRC, MAX_SRC>::lo()) && Self::holds(
                RangedU64::<MIN_SRC, MAX_SRC>::hi(),
            )),
    {
    }

    fn ranged_from(value: RangedU64<MIN_SRC, MAX_SRC>) -> (r: Self) {
        Self::new_unchecked(value.get() as u16)
    }
}

impl<
    const MIN_SRC: u128,
    const MAX_SRC: u128,
    const MIN_DST: u16,
    const MAX_DST: u16,
> RangedFrom<RangedU128<MIN_SRC, MAX_SRC>> for RangedU16<MIN_DST, MAX_DST> {
    open spec fn covers() -> bool {
        &&& Self::lo() <= RangedU128::<MIN_SRC, MAX_SRC>::lo()
        &&& RangedU128::<MIN_SRC, MAX_SRC>::hi() <= Self::hi()
    }

    proof fn law_covers()
        ensures
            RangedU128::<MIN_SRC, MAX_SRC>::valid() ==> (<Self as RangedFrom<
                RangedU128<MIN_SRC, MAX_SRC>,
            >>::covers() <==> Self::holds(RangedU128::<MIN_SRC, MAX_SRC>::lo()) && Self::holds(
                RangedU128::<MIN_SRC, MAX_SRC>::hi(),
            )),
    {
    }

    fn ranged_from(value: RangedU128<MIN_SRC, MAX_SRC>) -> (r: Self) {
        Self::new_unchecked(value.get() as u16)
    }
}

impl<
    const MIN_SRC: usize,
    const MAX_SRC: usize,
    const MIN_DST: u16,
    const MAX_DST: u16,
> RangedFrom<RangedUsize<MIN_SRC, MAX_SRC>> for RangedU16<MIN_DST, MAX_DST> {
    open spec fn covers() -> bool {
        &&& Self::lo() <= RangedUsize::<MIN_SRC, MAX_SRC>::lo()
        &&& RangedUsize::<MIN_SRC, MAX_SRC>::hi() <= Self::hi()
    }

    proof fn law_covers()
        ensures
            RangedUsize::<MIN_SRC, MAX_SRC>::valid() ==> (<Self as RangedFrom<
                RangedUsize<MIN_SRC, MAX_SRC>,
            >>::covers() <==> Self::holds(RangedUsize::<MIN_SRC, MAX_SRC>::lo()) && Self::holds(
                RangedUsize::<MIN_SRC, MAX_SRC>::hi(),
            )),
    {
    }

    fn ranged_from(value: RangedUsize<MIN_SRC, MAX_SRC>) -> (r: Self) {
        Self::new_unchecked(value.get() as u16)
    }
}

impl<
    const MIN_SRC: u8,
    const MAX_SRC: u8,
    const MIN_DST: u16,
    const MAX_DST: u16,
> RangedFrom<RangedI8<MIN_SRC, MAX_SRC>> for RangedU16<MIN_DST, MAX_DST> {
    open spec fn covers() -> bool {
        &&& Self::lo() <= RangedI8::<MIN_SRC, MAX_SRC>::lo()
        &&& RangedI8::<MIN_SRC, MAX_SRC>::hi() <= Self::hi()
    }

    proof fn law_covers()
        ensures
            RangedI8::<MIN_SRC, MAX_SRC>::valid() ==> (<Self as RangedFrom<
                RangedI8<MIN_SRC, MAX_SRC>,
            >>::covers() <==> Self::holds(RangedI8::<MIN_SRC, MAX_SRC>::lo()) && Self::holds(
                RangedI8::<MIN_SRC, MAX_SRC>::hi(),
            )),
    {
    }

    fn ranged_from(value: RangedI8<MIN_SRC, MAX_SRC>) -> (r: Self) {
        Self::new_unchecked(value.get() as u16)
    }
}

impl<
    const MIN_SRC: u16,
    const MAX_SRC: u16,
    const MIN_DST: u16,
    const MAX_DST: u16,
> RangedFrom<RangedI16<MIN_SRC, MAX_SRC>> for RangedU16<MIN_DST, MAX_DST> {
    open spec fn covers() -> bool {
        &&& Self::lo() <= RangedI16::<MIN_SRC, MAX_SRC>::lo()
        &&& RangedI16::<MIN_SRC, MAX_SRC>::hi() <= Self::hi()
    }

    proof fn law_covers()
        ensures
            RangedI16::<MIN_SRC, MAX_SRC>::valid() ==> (<Self as RangedFrom<
                RangedI16<MIN_SRC, MAX_SRC>,
            >>::covers() <==> Self::holds(RangedI16::<MIN_SRC, MAX_SRC>::lo()) && Self::holds(
                RangedI16::<MIN_SRC, MAX_SRC>::hi(),
            )),
    {
    }

    fn ranged_from(value: RangedI16<MIN_SRC, MAX_SRC>) -> (r: Self) {
        Self::new_unchecked(value.get() as u16)
    }
}

impl<
    const MIN_SRC: u32,
    const MAX_SRC: u32,
    const MIN_DST: u16,
    const MAX_DST: u16,
> RangedFrom<RangedI32<MIN_SRC, MAX_SRC>> for RangedU16<MIN_DST, MAX_DST> {
    open spec fn covers() -> bool {
        &&& Self::lo() <= RangedI32::<MIN_SRC, MAX_SRC>::lo()
        &&& RangedI32::<MIN_SRC, MAX_SRC>::hi() <= Self::hi()
    }

    proof fn law_covers()
        ensures
            RangedI32::<MIN_SRC, MAX_SRC>::valid() ==> (<Self as RangedFrom<
                RangedI32<MIN_SRC, MAX_SRC>,
            >>::covers() <==> Self::holds(RangedI32::<MIN_SRC, MAX_SRC>::lo()) && Self::holds(
                RangedI32::<MIN_SRC, MAX_SRC>::hi(),
            )),
    {
    }

    fn ranged_from(value: RangedI32<MIN_SRC, MAX_SRC>) -> (r: Self) {
        Self::new_unchecked(value.get() as u16)
    }
}

impl<
    const MIN_SRC: u64,
    const MAX_SRC: u64,
    const MIN_DST: u16,
    const MAX_DST: u16,
> RangedFrom<RangedI64<MIN_SRC, MAX_SRC>> for RangedU16<MIN_DST, MAX_DST> {
    open spec fn covers() -> bool {
        &&& Self::lo() <= RangedI64::<MIN_SRC, MAX_SRC>::lo()
        &&& RangedI64::<MIN_SRC, MAX_SRC>::hi() <= Self::hi()
    }

    proof fn law_covers()
        ensures
            RangedI64::<MIN_SRC, MAX_SRC>::valid() ==> (<Self as RangedFrom<
                RangedI64<MIN_SRC, MAX_SRC>,
            >>::covers() <==> Self::holds(RangedI64::<MIN_SRC, MAX_SRC>::lo()) && Self::holds(
                RangedI64::<MIN_SRC, MAX_SRC>::hi(),
            )),
    {
    }

    fn ranged_from(value: RangedI64<MIN_SRC, MAX_SRC>) -> (r: Self) {
        Self::new_unchecked(value.get() as u16)
    }
}

impl<
    const MIN_SRC: u128,
    const MAX_SRC: u128,
    const MIN_DST: u16,
    const MAX_DST: u16,
> RangedFrom<RangedI128<MIN_SRC, MAX_SRC>> for RangedU16<MIN_DST, MAX_DST> {
    open spec fn covers() -> bool {
        &&& Self::lo() <= RangedI128::<MIN_SRC, MAX_SRC>::lo()
        &&& RangedI128::<MIN_SRC, MAX_SRC>::hi() <= Self::hi()
    }

    proof fn law_covers()
        ensures
            RangedI128::<MIN_SRC, MAX_SRC>::valid() ==> (<Self as RangedFrom<
                RangedI128<MIN_SRC, MAX_SRC>,
            >>::covers() <==> Self::holds(RangedI128::<MIN_SRC, MAX_SRC>::lo()) && Self::holds(
                RangedI128::<MIN_SRC, MAX_SRC>::hi(),
            )),
    {
    }

    fn ranged_from(value: RangedI128<MIN_SRC, MAX_SRC>) -> (r: Self) {
        Self::new_unchecked(value.get() as u16)
    }
}

impl<
    const MIN_SRC: usize,
    const MAX_SRC: usize,
    const MIN_DST: u16,
    const MAX_DST: u16,
> RangedFrom<RangedIsize<MIN_SRC, MAX_SRC>> for RangedU16<MIN_DST, MAX_DST> {
    open spec fn covers() -> bool {
        &&& Self::lo() <= RangedIsize::<MIN_SRC, MAX_SRC>::lo()
        &&& RangedIsize::<MIN_SRC, MAX_SRC>::hi() <= Self::hi()
    }

    proof fn law_covers()
        ensures
            RangedIsize::<MIN_SRC, MAX_SRC>::valid() ==> (<Self as RangedFrom<
                RangedIsize<MIN_SRC, MAX_SRC>,
            >>::covers() <==> Self::holds(RangedIsize::<MIN_SRC, MAX_SRC>::lo()) && Self::holds(
                RangedIsize::<MIN_SRC, MAX_SRC>::hi(),
            )),
    {
    }

    fn ranged_from(value: RangedIsize<MIN_SRC, MAX_SRC>) -> (r: Self) {
        Self::new_unchecked(value.get() as u16)
    }
}

impl<
    const MIN_SRC: u8,
    const MAX_SRC: u8,
    const MIN_DST: u32,
    const MAX_DST: u32,
> RangedFrom<RangedU8<MIN_SRC, MAX_SRC>> for RangedU32<MIN_DST, MAX_DST> {
    open spec fn covers() -> bool {
        &&& Self::lo() <= RangedU8::<MIN_SRC, MAX_SRC>::lo()
        &&& RangedU8::<MIN_SRC, MAX_SRC>::hi() <= Self::hi()
    }

    proof fn law_covers()
        ensures
            RangedU8::<MIN_SRC, MAX_SRC>::valid() ==> (<Self as RangedFrom<
                RangedU8<MIN_SRC, MAX_SRC>,
            >>::covers() <==> Self::holds(RangedU8::<MIN_SRC, MAX_SRC>::lo()) && Self::holds(
                RangedU8::<MIN_SRC, MAX_SRC>::hi(),
            )),
    {
    }

    fn ranged_from(value: RangedU8<MIN_SRC, MAX_SRC>) -> (r: Self) {
        Self::new_unchecked(value.get() as u32)
    }
}

impl<
    const MIN_SRC: u16,
    const MAX_SRC: u16,
    const MIN_DST: u32,
    const MAX_DST: u32,
> RangedFrom<RangedU16<MIN_SRC, MAX_SRC>> for RangedU32<MIN_DST, MAX_DST> {
    open spec fn covers() -> bool {
        &&& Self::lo() <= RangedU16::<MIN_SRC, MAX_SRC>::lo()
        &&& RangedU16::<MIN_SRC, MAX_SRC>::hi() <= Self::hi()
    }

    proof fn law_covers()
        ensures
            RangedU16::<MIN_SRC, MAX_SRC>::valid() ==> (<Self as RangedFrom<
                RangedU16<MIN_SRC, MAX_SRC>,
            >>::covers() <==> Self::holds(RangedU16::<MIN_SRC, MAX_SRC>::lo()) && Self::holds(
                RangedU16::<MIN_SRC, MAX_SRC>::hi(),
            )),
    {
    }

    fn ranged_from(value: RangedU16<MIN_SRC, MAX_SRC>) -> (r: Self) {
        Self::new_unchecked(value.get() as u32)
    }
}

impl<
    const MIN_SRC: u64,
    const MAX_SRC: u64,
    const MIN_DST: u32,
    const MAX_DST: u32,
> RangedFrom<RangedU64<MIN_SRC, MAX_SRC>> for RangedU32<MIN_DST, MAX_DST> {
    open spec fn covers() -> bool {
        &&& Self::lo() <= RangedU64::<MIN_SRC, MAX_SRC>::lo()
        &&& RangedU64::<MIN_SRC, MAX_SRC>::hi() <= Self::hi()
    }

    proof fn law_covers()
        ensures
            RangedU64::<MIN_SRC, MAX_SRC>::valid() ==> (<Self as RangedFrom<
                RangedU64<MIN_SRC, MAX_SRC>,
            >>::covers() <==> Self::holds(RangedU64::<MIN_SRC, MAX_SRC>::lo()) && Self::holds(
                RangedU64::<MIN_SRC, MAX_SRC>::hi(),
            )),
    {
    }

    fn ranged_from(value: RangedU64<MIN_SRC, MAX_SRC>) -> (r: Self) {
        Self::new_unchecked(value.get() as u32)
    }
}

impl<
    const MIN_SRC: u128,
    const MAX_SRC: u128,
    const MIN_DST: u32,
    const MAX_DST: u32,
> RangedFrom<RangedU128<MIN_SRC, MAX_SRC>> for RangedU32<MIN_DST, MAX_DST> {
    open spec fn covers() -> bool {
        &&& Self::lo() <= RangedU128::<MIN_SRC, MAX_SRC>::lo()
        &&& RangedU128::<MIN_SRC, MAX_SRC>::hi() <= Self::hi()
    }

    proof fn law_covers()
        ensures
            RangedU128::<MIN_SRC, MAX_SRC>::valid() ==> (<Self as RangedFrom<
                RangedU128<MIN_SRC, MAX_SRC>,
            >>::covers() <==> Self::holds(RangedU128::<MIN_SRC, MAX_SRC>::lo()) && Self::holds(
                RangedU128::<MIN_SRC, MAX_SRC>::hi(),
            )),
    {
    }

    fn ranged_from(value: RangedU128<MIN_SRC, MAX_SRC>) -> (r: Self) {
        Self::new_unchecked(value.get() as u32)
    }
}

impl<
    const MIN_SRC: usize,
    const MAX_SRC: usize,
    const MIN_DST: u32,
    const MAX_DST: u32,
> RangedFrom<RangedUsize<MIN_SRC, MAX_SRC>> for RangedU32<MIN_DST, MAX_DST> {
    open spec fn covers() -> bool {
        &&& Self::lo() <= RangedUsize::<MIN_SRC, MAX_SRC>::lo()
        &&& RangedUsize::<MIN_SRC, MAX_SRC>::hi() <= Self::hi()
    }

    proof fn law_covers()
        ensures
            RangedUsize::<MIN_SRC, MAX_SRC>::valid() ==> (<Self as RangedFrom<
                RangedUsize<MIN_SRC, MAX_SRC>,
            >>::covers() <==> Self::holds(RangedUsize::<MIN_SRC, MAX_SRC>::lo()) && Self::holds(
                RangedUsize::<MIN_SRC, MAX_SRC>::hi(),
            )),
    {
    }

    fn ranged_from(value: RangedUsize<MIN_SRC, MAX_SRC>) -> (r: Self) {
        Self::new_unchecked(value.get() as u32)
    }
}

impl<
    const MIN_SRC: u8,
    const MAX_SRC: u8,
    const MIN_DST: u32,
    const MAX_DST: u32,
> RangedFrom<RangedI8<MIN_SRC, MAX_SRC>> for RangedU32<MIN_DST, MAX_DST> {
    open spec fn covers() -> bool {
        &&& Self::lo() <= RangedI8::<MIN_SRC, MAX_SRC>::lo()
        &&& RangedI8::<MIN_SRC, MAX_SRC>::hi() <= Self::hi()
    }

    proof fn law_covers()
        ensures
            RangedI8::<MIN_SRC, MAX_SRC>::valid() ==> (<Self as RangedFrom<
                RangedI8<MIN_SRC, MAX_SRC>,
            >>::covers() <==> Self::holds(RangedI8::<MIN_SRC, MAX_SRC>::lo()) && Self::holds(
                RangedI8::<MIN_SRC, MAX_SRC>::hi(),
            )),
    {
    }

    fn ranged_from(value: RangedI8<MIN_SRC, MAX_SRC>) -> (r: Self) {
        Self::new_unchecked(value.get() as u32)
    }
}

impl<
    const MIN_SRC: u16,
    const MAX_SRC: u16,
    const MIN_DST: u32,
    const MAX_DST: u32,
> RangedFrom<RangedI16<MIN_SRC, MAX_SRC>> for RangedU32<MIN_DST, MAX_DST> {
    open spec fn covers() -> bool {
        &&& Self::lo() <= RangedI16::<MIN_SRC, MAX_SRC>::lo()
        &&& RangedI16::<MIN_SRC, MAX_SRC>::hi() <= Self::hi()
    }

    proof fn law_covers()
        ensures
            RangedI16::<MIN_SRC, MAX_SRC>::valid() ==> (<Self as RangedFrom<
                RangedI16<MIN_SRC, MAX_SRC>,
            >>::covers() <==> Self::holds(RangedI16::<MIN_SRC, MAX_SRC>::lo()) && Self::holds(
                RangedI16::<MIN_SRC, MAX_SRC>::hi(),
            )),
    {
    }

    fn ranged_from(value: RangedI16<MIN_SRC, MAX_SRC>) -> (r: Self) {
        Self::new_unchecked(value.get() as u32)
    }
}

impl<
    const MIN_SRC: u32,
    const MAX_SRC: u32,
    const MIN_DST: u32,
    const MAX_DST: u32,
> RangedFrom<RangedI32<MIN_SRC, MAX_SRC>> for RangedU32<MIN_DST, MAX_DST> {
    open spec fn covers() -> bool {
        &&& Self::lo() <= RangedI32::<MIN_SRC, MAX_SRC>::lo()
        &&& RangedI32::<MIN_SRC, MAX_SRC>::hi() <= Self::hi()
    }

    proof fn law_covers()
        ensures
            RangedI32::<MIN_SRC, MAX_SRC>::valid() ==> (<Self as RangedFrom<
                RangedI32<MIN_SRC, MAX_SRC>,
            >>::covers() <==> Self::holds(RangedI32::<MIN_SRC, MAX_SRC>::lo()) && Self::holds(
                RangedI32::<MIN_SRC, MAX_SRC>::hi(),
            )),
    {
    }

    fn ranged_from(value: RangedI32<MIN_SRC, MAX_SRC>) -> (r: Self) {
        Self::new_unchecked(value.get() as u32)
    }
}

impl<
    const MIN_SRC: u64,
    const MAX_SRC: u64,
    const MIN_DST: u32,
    const MAX_DST: u32,
> RangedFrom<RangedI64<MIN_SRC, MAX_SRC>> for RangedU32<MIN_DST, MAX_DST> {
    open spec fn covers() -> bool {
        &&& Self::lo() <= RangedI64::<MIN_SRC, MAX_SRC>::lo()
        &&& RangedI64::<MIN_SRC, MAX_SRC>::hi() <= Self::hi()
    }

    proof fn law_covers()
        ensures
            RangedI64::<MIN_SRC, MAX_SRC>::valid() ==> (<Self as RangedFrom<
                RangedI64<MIN_SRC, MAX_SRC>,
            >>::covers() <==> Self::holds(RangedI64::<MIN_SRC, MAX_SRC>::lo()) && Self::holds(
                RangedI64::<MIN_SRC, MAX_SRC>::hi(),
            )),
    {
    }

    fn ranged_from(value: RangedI64<MIN_SRC, MAX_SRC>) -> (r: Self) {
        Self::new_unchecked(value.get() as u32)
    }
}

impl<
    const MIN_SRC: u128,
    const MAX_SRC: u128,
    const MIN_DST: u32,
    const MAX_DST: u32,
> RangedFrom<RangedI128<MIN_SRC, MAX_SRC>> for RangedU32<MIN_DST, MAX_DST> {
    open spec fn covers() -> bool {
        &&& Self::lo() <= RangedI128::<MIN_SRC, MAX_SRC>::lo()
        &&& RangedI128::<MIN_SRC, MAX_SRC>::hi() <= Self::hi()
    }

    proof fn law_covers()
        ensures
            RangedI128::<MIN_SRC, MAX_SRC>::valid() ==> (<Self as RangedFrom<
                RangedI128<MIN_SRC, MAX_SRC>,
            >>::covers() <==> Self::holds(RangedI128::<MIN_SRC, MAX_SRC>::lo()) && Self::holds(
                RangedI128::<MIN_SRC, MAX_SRC>::hi(),
            )),
    {
    }

    fn ranged_from(value: RangedI128<MIN_SRC, MAX_SRC>) -> (r: Self) {
        Self::new_unchecked(value.get() as u32)
    }
}

impl<
    const MIN_SRC: usize,
    const MAX_SRC: usize,
    const MIN_DST: u32,
    const MAX_DST: u32,
> RangedFrom<RangedIsize<MIN_SRC, MAX_SRC>> for RangedU32<MIN_DST, MAX_DST> {
    open spec fn covers() -> bool {
        &&& Self::lo() <= RangedIsize::<MIN_SRC, MAX_SRC>::lo()
        &&& RangedIsize::<MIN_SRC, MAX_SRC>::hi() <= Self::hi()
    }

    proof fn law_covers()
        ensures
            RangedIsize::<MIN_SRC, MAX_SRC>::valid() ==> (<Self as RangedFrom<
                RangedIsize<MIN_SRC, MAX_SRC>,
            >>::covers() <==> Self::holds(RangedIsize::<MIN_SRC, MAX_SRC>::lo()) && Self::holds(
                RangedIsize::<MIN_SRC, MAX_SRC>::hi(),
            )),
    {
    }

    fn ranged_from(value: RangedIsize<MIN_SRC, MAX_SRC>) -> (r: Self) {
        Self::new_unchecked(value.get() as u32)
    }
}

impl<
    const MIN_SRC: u8,
    const MAX_SRC: u8,
    const MIN_DST: u64,
    const MAX_DST: u64,
> RangedFrom<RangedU8<MIN_SRC, MAX_SRC>> for RangedU64<MIN_DST, MAX_DST> {
    open spec fn covers() -> bool {
        &&& Self::lo() <= RangedU8::<MIN_SRC, MAX_SRC>::lo()
        &&& RangedU8::<MIN_SRC, MAX_SRC>::hi() <= Self::hi()
    }

    proof fn law_covers()
        ensures
            RangedU8::<MIN_SRC, MAX_SRC>::valid() ==> (<Self as RangedFrom<
                RangedU8<MIN_SRC, MAX_SRC>,
            >>::covers() <==> Self::holds(RangedU8::<MIN_SRC, MAX_SRC>::lo()) && Self::holds(
                RangedU8::<MIN_SRC, MAX_SRC>::hi(),
            )),
    {
    }

    fn ranged_from(value: RangedU8<MIN_SRC, MAX_SRC>) -> (r: Self) {
        Self::new_unchecked(value.get() as u64)
    }
}

impl<
    const MIN_SRC: u16,
    const MAX_SRC: u16,
    const MIN_DST: u64,
    const MAX_DST: u64,
> RangedFrom<RangedU16<MIN_SRC, MAX_SRC>> for RangedU64<MIN_DST, MAX_DST> {
    open spec fn covers() -> bool {
        &&& Self::lo() <= RangedU16::<MIN_SRC, MAX_SRC>::lo()
        &&& RangedU16::<MIN_SRC, MAX_SRC>::hi() <= Self::hi()
    }

    proof fn law_covers()
        ensures
            RangedU16::<MIN_SRC, MAX_SRC>::valid() ==> (<Self as RangedFrom<
                RangedU16<MIN_SRC, MAX_SRC>,
            >>::covers() <==> Self::holds(RangedU16::<MIN_SRC, MAX_SRC>::lo()) && Self::holds(
                RangedU16::<MIN_SRC, MAX_SRC>::hi(),
            )),
    {
    }

    fn ranged_from(value: RangedU16<MIN_SRC, MAX_SRC>) -> (r: Self) {
        Self::new_unchecked(value.get() as u64)
    }
}

impl<
    const MIN_SRC: u32,
    const MAX_SRC: u32,
    const MIN_DST: u64,
    const MAX_DST: u64,
> RangedFrom<RangedU32<MIN_SRC, MAX_SRC>> for RangedU64<MIN_DST, MAX_DST> {
    open spec fn covers() -> bool {
        &&& Self::lo() <= RangedU32::<MIN_SRC, MAX_SRC>::lo()
        &&& RangedU32::<MIN_SRC, MAX_SRC>::hi() <= Self::hi()
    }

    proof fn law_covers()
        ensures
            RangedU32::<MIN_SRC, MAX_SRC>::valid() ==> (<Self as RangedFrom<
                RangedU32<MIN_SRC, MAX_SRC>,
            >>::covers() <==> Self::holds(RangedU32::<MIN_SRC, MAX_SRC>::lo()) && Self::holds(
                RangedU32::<MIN_SRC, MAX_SRC>::hi(),
            )),
    {
    }

    fn ranged_from(value: RangedU32<MIN_SRC, MAX_SRC>) -> (r: Self) {
        Self::new_unchecked(value.get() as u64)
    }
}

impl<
    const MIN_SRC: u128,
    const MAX_SRC: u128,
    const MIN_DST: u64,
    const MAX_DST: u64,
> RangedFrom<RangedU128<MIN_SRC, MAX_SRC>> for RangedU64<MIN_DST, MAX_DST> {
    open spec fn covers() -> bool {
        &&& Self::lo() <= RangedU128::<MIN_SRC, MAX_SRC>::lo()
        &&& RangedU128::<MIN_SRC, MAX_SRC>::hi() <= Self::hi()
    }

    proof fn law_covers()
        ensures
            RangedU128::<MIN_SRC, MAX_SRC>::valid() ==> (<Self as RangedFrom<
                RangedU128<MIN_SRC, MAX_SRC>,
            >>::covers() <==> Self::holds(RangedU128::<MIN_SRC, MAX_SRC>::lo()) && Self::holds(
                RangedU128::<MIN_SRC, MAX_SRC>::hi(),
            )),
    {
    }

    fn ranged_from(value: RangedU128<MIN_SRC, MAX_SRC>) -> (r: Self) {
        Self::new_unchecked(value.get() as u64)
    }
}

impl<
    const MIN_SRC: usize,
    const MAX_SRC: usize,
    const MIN_DST: u64,
    const MAX_DST: u64,
> RangedFrom<RangedUsize<MIN_SRC, MAX_SRC>> for RangedU64<MIN_DST, MAX_DST> {
    open spec fn covers() -> bool {
        &&& Self::lo() <= RangedUsize::<MIN_SRC, MAX_SRC>::lo()
        &&& RangedUsize::<MIN_SRC, MAX_SRC>::hi() <= Self::hi()
    }

    proof fn law_covers()
        ensures
            RangedUsize::<MIN_SRC, MAX_SRC>::valid() ==> (<Self as RangedFrom<
                RangedUsize<MIN_SRC, MAX_SRC>,
            >>::covers() <==> Self::holds(RangedUsize::<MIN_SRC, MAX_SRC>::lo()) && Self::holds(
                RangedUsize::<MIN_SRC, MAX_SRC>::hi(),
            )),
    {
    }

    fn ranged_from(value: RangedUsize<MIN_SRC, MAX_SRC>) -> (r: Self) {
        Self::new_unchecked(value.get() as u64)
    }
}

impl<
    const MIN_SRC: u8,
    const MAX_SRC: u8,
    const MIN_DST: u64,
    const MAX_DST: u64,
> RangedFrom<RangedI8<MIN_SRC, MAX_SRC>> for RangedU64<MIN_DST, MAX_DST> {
    open spec fn covers() -> bool {
        &&& Self::lo() <= RangedI8::<MIN_SRC, MAX_SRC>::lo()
        &&& RangedI8::<MIN_SRC, MAX_SRC>::hi() <= Self::hi()
    }

    proof fn law_covers()
        ensures
            RangedI8::<MIN_SRC, MAX_SRC>::valid() ==> (<Self as RangedFrom<
                RangedI8<MIN_SRC, MAX_SRC>,
            >>::covers() <==> Self::holds(RangedI8::<MIN_SRC, MAX_SRC>::lo()) && Self::holds(
                RangedI8::<MIN_SRC, MAX_SRC>::hi(),
            )),
    {
    }

    fn ranged_from(value: RangedI8<MIN_SRC, MAX_SRC>) -> (r: Self) {
        Self::new_unchecked(value.get() as u64)
    }
}

impl<
    const MIN_SRC: u16,
    const MAX_SRC: u16,
    const MIN_DST: u64,
    const MAX_DST: u64,
> RangedFrom<RangedI16<MIN_SRC, MAX_SRC>> for RangedU64<MIN_DST, MAX_DST> {
    open spec fn covers() -> bool {
        &&& Self::lo() <= RangedI16::<MIN_SRC, MAX_SRC>::lo()
        &&& RangedI16::<MIN_SRC, MAX_SRC>::hi() <= Self::hi()
    }

    proof fn law_covers()
        ensures
            RangedI16::<MIN_SRC, MAX_SRC>::valid() ==> (<Self as RangedFrom<
                RangedI16<MIN_SRC, MAX_SRC>,
            >>::covers() <==> Self::holds(RangedI16::<MIN_SRC, MAX_SRC>::lo()) && Self::holds(
                RangedI16::<MIN_SRC, MAX_SRC>::hi(),
            )),
    {
    }

    fn ranged_from(value: RangedI16<MIN_SRC, MAX_SRC>) -> (r: Self) {
        Self::new_unchecked(value.get() as u64)
    }
}

impl<
    const MIN_SRC: u32,
    const MAX_SRC: u32,
    const MIN_DST: u64,
    const MAX_DST: u64,
> RangedFrom<RangedI32<MIN_SRC, MAX_SRC>> for RangedU64<MIN_DST, MAX_DST> {
    open spec fn covers() -> bool {
        &&& Self::lo() <= RangedI32::<MIN_SRC, MAX_SRC>::lo()
        &&& RangedI32::<MIN_SRC, MAX_SRC>::hi() <= Self::hi()
    }

    proof fn law_covers()
        ensures
            RangedI32::<MIN_SRC, MAX_SRC>::valid() ==> (<Self as RangedFrom<
                RangedI32<MIN_SRC, MAX_SRC>,
            >>::covers() <==> Self::holds(RangedI32::<MIN_SRC, MAX_SRC>::lo()) && Self::holds(
                RangedI32::<MIN_SRC, MAX_SRC>::hi(),
            )),
    {
    }

    fn ranged_from(value: RangedI32<MIN_SRC, MAX_SRC>) -> (r: Self) {
        Self::new_unchecked(value.get() as u64)
    }
}

impl<
    const MIN_SRC: u64,
    const MAX_SRC: u64,
    const MIN_DST: u64,
    const MAX_DST: u64,
> RangedFrom<RangedI64<MIN_SRC, MAX_SRC>> for RangedU64<MIN_DST, MAX_DST> {
    open spec fn covers() -> bool {
        &&& Self::lo() <= RangedI64::<MIN_SRC, MAX_SRC>::lo()
        &&& RangedI64::<MIN_SRC, MAX_SRC>::hi() <= Self::hi()
    }

    proof fn law_covers()
        ensures
            RangedI64::<MIN_SRC, MAX_SRC>::valid() ==> (<Self as RangedFrom<
                RangedI64<MIN_SRC, MAX_SRC>,
            >>::covers() <==> Self::holds(RangedI64::<MIN_SRC, MAX_SRC>::lo()) && Self::holds(
                RangedI64::<MIN_SRC, MAX_SRC>::hi(),
            )),
    {
    }

    fn ranged_from(value: RangedI64<MIN_SRC, MAX_SRC>) -> (r: Self) {
        Self::new_unchecked(value.get() as u64)
    }
}

impl<
    const MIN_SRC: u128,
    const MAX_SRC: u128,
    const MIN_DST: u64,
    const MAX_DST: u64,
> RangedFrom<RangedI128<MIN_SRC, MAX_SRC>> for RangedU64<MIN_DST, MAX_DST> {
    open spec fn covers() -> bool {
        &&& Self::lo() <= RangedI128::<MIN_SRC, MAX_SRC>::lo()
        &&& RangedI128::<MIN_SRC, MAX_SRC>::hi() <= Self::hi()
    }

    proof fn law_covers()
        ensures
            RangedI128::<MIN_SRC, MAX_SRC>::valid() ==> (<Self as RangedFrom<
                RangedI128<MIN_SRC, MAX_SRC>,
            >>::covers() <==> Self::holds(RangedI128::<MIN_SRC, MAX_SRC>::lo()) && Self::holds(
                RangedI128::<MIN_SRC, MAX_SRC>::hi(),
            )),
    {
    }

    fn ranged_from(value: RangedI128<MIN_SRC, MAX_SRC>) -> (r: Self) {
        Self::new_unchecked(value.get() as u64)
    }
}

impl<
    const MIN_SRC: usize,
    const MAX_SRC: usize,
    const MIN_DST: u64,
    const MAX_DST: u64,
> RangedFrom<RangedIsize<MIN_SRC, MAX_SRC>> for RangedU64<MIN_DST, MAX_DST> {
    open spec fn covers() -> bool {
        &&& Self::lo() <= RangedIsize::<MIN_SRC, MAX_SRC>::lo()
        &&& RangedIsize::<MIN_SRC, MAX_SRC>::hi() <= Self::hi()
    }

    proof fn law_covers()
        ensures
            RangedIsize::<MIN_SRC, MAX_SRC>::valid() ==> (<Self as RangedFrom<
                RangedIsize<MIN_SRC, MAX_SRC>,
            >>::covers() <==> Self::holds(RangedIsize::<MIN_SRC, MAX_SRC>::lo()) && Self::holds(
                RangedIsize::<MIN_SRC, MAX_SRC>::hi(),
            )),
    {
    }

    fn ranged_from(value: RangedIsize<MIN_SRC, MAX_SRC>) -> (r: Self) {
        Self::new_unchecked(value.get() as u64)
    }
}

impl<
    const MIN_SRC: u8,
    const MAX_SRC: u8,
    const MIN_DST: u128,
    const MAX_DST: u128,
> RangedFrom<RangedU8<MIN_SRC, MAX_SRC>> for RangedU128<MIN_DST, MAX_DST> {
    open spec fn covers() -> bool {
        &&& Self::lo() <= RangedU8::<MIN_SRC, MAX_SRC>::lo()
        &&& RangedU8::<MIN_SRC, MAX_SRC>::hi() <= Self::hi()
    }

    proof fn law_covers()
        ensures
            RangedU8::<MIN_SRC, MAX_SRC>::valid() ==> (<Self as RangedFrom<
                RangedU8<MIN_SRC, MAX_SRC>,
            >>::covers() <==> Self::holds(RangedU8::<MIN_SRC, MAX_SRC>::lo()) && Self::holds(
                RangedU8::<MIN_SRC, MAX_SRC>::hi(),
            )),
    {
    }

    fn ranged_from(value: RangedU8<MIN_SRC, MAX_SRC>) -> (r: Self) {
        Self::new_unchecked(value.get() as u128)
    }
}

impl<
    const MIN_SRC: u16,
    const MAX_SRC: u16,
    const MIN_DST: u128,
    const MAX_DST: u128,
> RangedFrom<RangedU16<MIN_SRC, MAX_SRC>> for RangedU128<MIN_DST, MAX_DST> {
    open spec fn covers() -> bool {
        &&& Self::lo() <= RangedU16::<MIN_SRC, MAX_SRC>::lo()
        &&& RangedU16::<MIN_SRC, MAX_SRC>::hi() <= Self::hi()
    }

    proof fn law_covers()
        ensures
            RangedU16::<MIN_SRC, MAX_SRC>::valid() ==> (<Self as RangedFrom<
                RangedU16<MIN_SRC, MAX_SRC>,
            >>::covers() <==> Self::holds(RangedU16::<MIN_SRC, MAX_SRC>::lo()) && Self::holds(
                RangedU16::<MIN_SRC, MAX_SRC>::hi(),
            )),
    {
    }

    fn ranged_from(value: RangedU16<MIN_SRC, MAX_SRC>) -> (r: Self) {
        Self::new_unchecked(value.get() as u128)
    }
}

impl<
    const MIN_SRC: u32,
    const MAX_SRC: u32,
    const MIN_DST: u128,
    const MAX_DST: u128,
> RangedFrom<RangedU32<MIN_SRC, MAX_SRC>> for RangedU128<MIN_DST, MAX_DST> {
    open spec fn covers() -> bool {
        &&& Self::lo() <= RangedU32::<MIN_SRC, MAX_SRC>::lo()
        &&& RangedU32::<MIN_SRC, MAX_SRC>::hi() <= Self::hi()
    }

    proof fn law_covers()
        ensures
            RangedU32::<MIN_SRC, MAX_SRC>::valid() ==> (<Self as RangedFrom<
                RangedU32<MIN_SRC, MAX_SRC>,
            >>::covers() <==> Self::holds(RangedU32::<MIN_SRC, MAX_SRC>::lo()) && Self::holds(
                RangedU32::<MIN_SRC, MAX_SRC>::hi(),
            )),
    {
    }

    fn ranged_from(value: RangedU32<MIN_SRC, MAX_SRC>) -> (r: Self) {
        Self::new_unchecked(value.get() as u128)
    }
}

impl<
    const MIN_SRC: u64,
    const MAX_SRC: u64,
    const MIN_DST: u128,
    const MAX_DST: u128,
> RangedFrom<RangedU64<MIN_SRC, MAX_SRC>> for RangedU128<MIN_DST, MAX_DST> {
    open spec fn covers() -> bool {
        &&& Self::lo() <= RangedU64::<MIN_SRC, MAX_SRC>::lo()
        &&& RangedU64::<MIN_SRC, MAX_SRC>::hi() <= Self::hi()
    }

    proof fn law_covers()
        ensures
            RangedU64::<MIN_SRC, MAX_SRC>::valid() ==> (<Self as RangedFrom<
                RangedU64<MIN_SRC, MAX_SRC>,
            >>::covers() <==> Self::holds(RangedU64::<MIN_SRC, MAX_SRC>::lo()) && Self::holds(
                RangedU64::<MIN_SRC, MAX_SRC>::hi(),
            )),
    {
    }

    fn ranged_from(value: RangedU64<MIN_SRC, MAX_SRC>) -> (r: Self) {
        Self::new_unchecked(value.get() as u128)
    }
}

impl<
    const MIN_SRC: usize,
    const MAX_SRC: usize,
    const MIN_DST: u128,
    const MAX_DST: u128,
> RangedFrom<RangedUsize<MIN_SRC, MAX_SRC>> for RangedU128<MIN_DST, MAX_DST> {
    open spec fn covers() -> bool {
        &&& Self::lo() <= RangedUsize::<MIN_SRC, MAX_SRC>::lo()
        &&& RangedUsize::<MIN_SRC, MAX_SRC>::hi() <= Self::hi()
    }

    proof fn law_covers()
        ensures
            RangedUsize::<MIN_SRC, MAX_SRC>::valid() ==> (<Self as RangedFrom<
                RangedUsize<MIN_SRC, MAX_SRC>,
            >>::covers() <==> Self::holds(RangedUsize::<MIN_SRC, MAX_SRC>::lo()) && Self::holds(
                RangedUsize::<MIN_SRC, MAX_SRC>::hi(),
            )),
    {
    }

    fn ranged_from(value: RangedUsize<MIN_SRC, MAX_SRC>) -> (r: Self) {
        Self::new_unchecked(value.get() as u128)
    }
}

impl<
    const MIN_SRC: u8,
    const MAX_SRC: u8,
    const MIN_DST: u128,
    const MAX_DST: u128,
> RangedFrom<RangedI8<MIN_SRC, MAX_SRC>> for RangedU128<MIN_DST, MAX_DST> {
    open spec fn covers() -> bool {
        &&& Self::lo() <= RangedI8::<MIN_SRC, MAX_SRC>::lo()
        &&& RangedI8::<MIN_SRC, MAX_SRC>::hi() <= Self::hi()
    }

    proof fn law_covers()
        ensures
            RangedI8::<MIN_SRC, MAX_SRC>::valid() ==> (<Self as RangedFrom<
                RangedI8<MIN_SRC, MAX_SRC>,
            >>::covers() <==> Self::holds(RangedI8::<MIN_SRC, MAX_SRC>::lo()) && Self::holds(
                RangedI8::<MIN_SRC, MAX_SRC>::hi(),
            )),
    {
    }

    fn ranged_from(value: RangedI8<MIN_SRC, MAX_SRC>) -> (r: Self) {
        Self::new_unchecked(value.get() as u128)
    }
}

impl<
    const MIN_SRC: u16,
    const MAX_SRC: u16,
    const MIN_DST: u128,
    const MAX_DST: u128,
> RangedFrom<RangedI16<MIN_SRC, MAX_SRC>> for RangedU128<MIN_DST, MAX_DST> {
    open spec fn covers() -> bool {
        &&& Self::lo() <= RangedI16::<MIN_SRC, MAX_SRC>::lo()
        &&& RangedI16::<MIN_SRC, MAX_SRC>::hi() <= Self::hi()
    }

    proof fn law_covers()
        ensures
            RangedI16::<MIN_SRC, MAX_SRC>::valid() ==> (<Self as RangedFrom<
                RangedI16<MIN_SRC, MAX_SRC>,
            >>::covers() <==> Self::holds(RangedI16::<MIN_SRC, MAX_SRC>::lo()) && Self::holds(
                RangedI16::<MIN_SRC, MAX_SRC>::hi(),
            )),
    {
    }

    fn ranged_from(value: RangedI16<MIN_SRC, MAX_SRC>) -> (r: Self) {
        Self::new_unchecked(value.get() as u128)
    }
}

impl<
    const MIN_SRC: u32,
    const MAX_SRC: u32,
    const MIN_DST: u128,
    const MAX_DST: u128,
> RangedFrom<RangedI32<MIN_SRC, MAX_SRC>> for RangedU128<MIN_DST, MAX_DST> {
    open spec fn covers() -> bool {
        &&& Self::lo() <= RangedI32::<MIN_SRC, MAX_SRC>::lo()
        &&& RangedI32::<MIN_SRC, MAX_SRC>::hi() <= Self::hi()
    }

    proof fn law_covers()
        ensures
            RangedI32::<MIN_SRC, MAX_SRC>::valid() ==> (<Self as RangedFrom<
                RangedI32<MIN_SRC, MAX_SRC>,
            >>::covers() <==> Self::holds(RangedI32::<MIN_SRC, MAX_SRC>::lo()) && Self::holds(
                RangedI32::<MIN_SRC, MAX_SRC>::hi(),
            )),
    {
    }

    fn ranged_from(value: RangedI32<MIN_SRC, MAX_SRC>) -> (r: Self) {
        Self::new_unchecked(value.get() as u128)
    }
}

impl<
    const MIN_SRC: u64,
    const MAX_SRC: u64,
    const MIN_DST: u128,
    const MAX_DST: u128,
> RangedFrom<RangedI64<MIN_SRC, MAX_SRC>> for RangedU128<MIN_DST, MAX_DST> {
    open spec fn covers() -> bool {
        &&& Self::lo() <= RangedI64::<MIN_SRC, MAX_SRC>::lo()
        &&& RangedI64::<MIN_SRC, MAX_SRC>::hi() <= Self::hi()
    }

    proof fn law_covers()
        ensures
            RangedI64::<MIN_SRC, MAX_SRC>::valid() ==> (<Self as RangedFrom<
                RangedI64<MIN_SRC, MAX_SRC>,
            >>::covers() <==> Self::holds(RangedI64::<MIN_SRC, MAX_SRC>::lo()) && Self::holds(
                RangedI64::<MIN_SRC, MAX_SRC>::hi(),
            )),
    {
    }

    fn ranged_from(value: RangedI64<MIN_SRC, MAX_SRC>) -> (r: Self) {
        Self::new_unchecked(value.get() as u128)
    }
}

impl<
    const MIN_SRC: u128,
    const MAX_SRC: u128,
    const MIN_DST: u128,
    const MAX_DST: u128,
> RangedFrom<RangedI128<MIN_SRC, MAX_SRC>> for RangedU128<MIN_DST, MAX_DST> {
    open spec fn covers() -> bool {
        &&& Self::lo() <= RangedI128::<MIN_SRC, MAX_SRC>::lo()
        &&& RangedI128::<MIN_SRC, MAX_SRC>::hi() <= Self::hi()
    }

    proof fn law_covers()
        ensures
            RangedI128::<MIN_SRC, MAX_SRC>::valid() ==> (<Self as RangedFrom<
                RangedI128<MIN_SRC, MAX_SRC>,
            >>::covers() <==> Self::holds(RangedI128::<MIN_SRC, MAX_SRC>::lo()) && Self::holds(
                RangedI128::<MIN_SRC, MAX_SRC>::hi(),
            )),
    {
    }

    fn ranged_from(value: RangedI128<MIN_SRC, MAX_SRC>) -> (r: Self) {
        Self::new_unchecked(value.get() as u128)
    }
}

impl<
    const MIN_SRC: usize,
    const MAX_SRC: usize,
    const MIN_DST: u128,
    const MAX_DST: u128,
> RangedFrom<RangedIsize<MIN_SRC, MAX_SRC>> for RangedU128<MIN_DST, MAX_DST> {
    open spec fn covers() -> bool {
        &&& Self::lo() <= RangedIsize::<MIN_SRC, MAX_SRC>::lo()
        &&& RangedIsize::<MIN_SRC, MAX_SRC>::hi() <= Self::hi()
    }

    proof fn law_covers()
        ensures
            RangedIsize::<MIN_SRC, MAX_SRC>::valid() ==> (<Self as RangedFrom<
                RangedIsize<MIN_SRC, MAX_SRC>,
            >>::covers() <==> Self::holds(RangedIsize::<MIN_SRC, MAX_SRC>::lo()) && Self::holds(
                RangedIsize::<MIN_SRC, MAX_SRC>::hi(),
            )),
    {
    }

    fn ranged_from(value: RangedIsize<MIN_SRC, MAX_SRC>) -> (r: Self) {
        Self::new_unchecked(value.get() as u128)
    }
}

impl<
    const MIN_SRC: u8,
    const MAX_SRC: u8,
    const MIN_DST: usize,
    const MAX_DST: usize,
> RangedFrom<RangedU8<MIN_SRC, MAX_SRC>> for RangedUsize<MIN_DST, MAX_DST> {
    open spec fn covers() -> bool {
        &&& Self::lo() <= RangedU8::<MIN_SRC, MAX_SRC>::lo()
        &&& RangedU8::<MIN_SRC, MAX_SRC>::hi() <= Self::hi()
    }

    proof fn law_covers()
        ensures
            RangedU8::<MIN_SRC, MAX_SRC>::valid() ==> (<Self as RangedFrom<
                RangedU8<MIN_SRC, MAX_SRC>,
            >>::covers() <==> Self::holds(RangedU8::<MIN_SRC, MAX_SRC>::lo()) && Self::holds(
                RangedU8::<MIN_SRC, MAX_SRC>::hi(),
            )),
    {
    }

    fn ranged_from(value: RangedU8<MIN_SRC, MAX_SRC>) -> (r: Self) {
        Self::new_unchecked(value.get() as usize)
    }
}

impl<
    const MIN_SRC: u16,
    const MAX_SRC: u16,
    const MIN_DST: usize,
    const MAX_DST: usize,
> RangedFrom<RangedU16<MIN_SRC, MAX_SRC>> for RangedUsize<MIN_DST, MAX_DST> {
    open spec fn covers() -> bool {
        &&& Self::lo() <= RangedU16::<MIN_SRC, MAX_SRC>::lo()
        &&& RangedU16::<MIN_SRC, MAX_SRC>::hi() <= Self::hi()
    }

    proof fn law_covers()
        ensures
            RangedU16::<MIN_SRC, MAX_SRC>::valid() ==> (<Self as RangedFrom<
                RangedU16<MIN_SRC, MAX_SRC>,
            >>::covers() <==> Self::holds(RangedU16::<MIN_SRC, MAX_SRC>::lo()) && Self::holds(
                RangedU16::<MIN_SRC, MAX_SRC>::hi(),
            )),
    {
    }

    fn ranged_from(value: RangedU16<MIN_SRC, MAX_SRC>) -> (r: Self) {
        Self::new_unchecked(value.get() as usize)
    }
}

impl<
    const MIN_SRC: u32,
    const MAX_SRC: u32,
    const MIN_DST: usize,
    const MAX_DST: usize,
> RangedFrom<RangedU32<MIN_SRC, MAX_SRC>> for RangedUsize<MIN_DST, MAX_DST> {
    open spec fn covers() -> bool {
        &&& Self::lo() <= RangedU32::<MIN_SRC, MAX_SRC>::lo()
        &&& RangedU32::<MIN_SRC, MAX_SRC>::hi() <= Self::hi()
    }

    proof fn law_covers()
        ensures
            RangedU32::<MIN_SRC, MAX_SRC>::valid() ==> (<Self as RangedFrom<
                RangedU32<MIN_SRC, MAX_SRC>,
            >>::covers() <==> Self::holds(RangedU32::<MIN_SRC, MAX_SRC>::lo()) && Self::holds(
                RangedU32::<MIN_SRC, MAX_SRC>::hi(),
            )),
    {
    }

    fn ranged_from(value: RangedU32<MIN_SRC, MAX_SRC>) -> (r: Self) {
        Self::new_unchecked(value.get() as usize)
    }
}

impl<
    const MIN_SRC: u64,
    const MAX_SRC: u64,
    const MIN_DST: usize,
    const MAX_DST: usize,
> RangedFrom<RangedU64<MIN_SRC, MAX_SRC>> for RangedUsize<MIN_DST, MAX_DST> {
    open spec fn covers() -> bool {
        &&& Self::lo() <= RangedU64::<MIN_SRC, MAX_SRC>::lo()
        &&& RangedU64::<MIN_SRC, MAX_SRC>::hi() <= Self::hi()
    }

    proof fn law_covers()
        ensures
            RangedU64::<MIN_SRC, MAX_SRC>::valid() ==> (<Self as RangedFrom<
                RangedU64<MIN_SRC, MAX_SRC>,
            >>::covers() <==> Self::holds(RangedU64::<MIN_SRC, MAX_SRC>::lo()) && Self::holds(
                RangedU64::<MIN_SRC, MAX_SRC>::hi(),
            )),
    {
    }

    fn ranged_from(value: RangedU64<MIN_SRC, MAX_SRC>) -> (r: Self) {
        Self::new_unchecked(value.get() as usize)
    }
}

impl<
    const MIN_SRC: u128,
    const MAX_SRC: u128,
    const MIN_DST: usize,
    const MAX_DST: usize,
> RangedFrom<RangedU128<MIN_SRC, MAX_SRC>> for RangedUsize<MIN_DST, MAX_DST> {
    open spec fn covers() -> bool {
        &&& Self::lo() <= RangedU128::<MIN_SRC, MAX_SRC>::lo()
        &&& RangedU128::<MIN_SRC, MAX_SRC>::hi() <= Self::hi()
    }

    proof fn law_covers()
        ensures
            RangedU128::<MIN_SRC, MAX_SRC>::valid() ==> (<Self as RangedFrom<
                RangedU128<MIN_SRC, MAX_SRC>,
            >>::covers() <==> Self::holds(RangedU128::<MIN_SRC, MAX_SRC>::lo()) && Self::holds(
                RangedU128::<MIN_SRC, MAX_SRC>::hi(),
            )),
    {
    }

    fn ranged_from(value: RangedU128<MIN_SRC, MAX_SRC>) -> (r: Self) {
        Self::new_unchecked(value.get() as usize)
    }
}

impl<
    const MIN_SRC: u8,
    const MAX_SRC: u8,
    const MIN_DST: usize,
    const MAX_DST: usize,
> RangedFrom<RangedI8<MIN_SRC, MAX_SRC>> for RangedUsize<MIN_DST, MAX_DST> {
    open spec fn covers() -> bool {
        &&& Self::lo() <= RangedI8::<MIN_SRC, MAX_SRC>::lo()
        &&& RangedI8::<MIN_SRC, MAX_SRC>::hi() <= Self::hi()
    }

    proof fn law_covers()
        ensures
            RangedI8::<MIN_SRC, MAX_SRC>::valid() ==> (<Self as RangedFrom<
                RangedI8<MIN_SRC, MAX_SRC>,
            >>::covers() <==> Self::holds(RangedI8::<MIN_SRC, MAX_SRC>::lo()) && Self::holds(
                RangedI8::<MIN_SRC, MAX_SRC>::hi(),
            )),
    {
    }

    fn ranged_from(value: RangedI8<MIN_SRC, MAX_SRC>) -> (r: Self) {
        Self::new_unchecked(value.get() as usize)
    }
}

impl<
    const MIN_SRC: u16,
    const MAX_SRC: u16,
    const MIN_DST: usize,
    const MAX_DST: usize,
> RangedFrom<RangedI16<MIN_SRC, MAX_SRC>> for RangedUsize<MIN_DST, MAX_DST> {
    open spec fn covers() -> bool {
        &&& Self::lo() <= RangedI16::<MIN_SRC, MAX_SRC>::lo()
        &&& RangedI16::<MIN_SRC, MAX_SRC>::hi() <= Self::hi()
    }

    proof fn law_covers()
        ensures
            RangedI16::<MIN_SRC, MAX_SRC>::valid() ==> (<Self as RangedFrom<
                RangedI16<MIN_SRC, MAX_SRC>,
            >>::covers() <==> Self::holds(RangedI16::<MIN_SRC, MAX_SRC>::lo()) && Self::holds(
                RangedI16::<MIN_SRC, MAX_SRC>::hi(),
            )),
    {
    }

    fn ranged_from(value: RangedI16<MIN_SRC, MAX_SRC>) -> (r: Self) {
        Self::new_unchecked(value.get() as usize)
    }
}

impl<
    const MIN_SRC: u32,
    const MAX_SRC: u32,
    const MIN_DST: usize,
    const MAX_DST: usize,
> RangedFrom<RangedI32<MIN_SRC, MAX_SRC>> for RangedUsize<MIN_DST, MAX_DST> {
    open spec fn covers() -> bool {
        &&& Self::lo() <= RangedI32::<MIN_SRC, MAX_SRC>::lo()
        &&& RangedI32::<MIN_SRC, MAX_SRC>::hi() <= Self::hi()
    }

    proof fn law_covers()
        ensures
            RangedI32::<MIN_SRC, MAX_SRC>::valid() ==> (<Self as RangedFrom<
                RangedI32<MIN_SRC, MAX_SRC>,
            >>::covers() <==> Self::holds(RangedI32::<MIN_SRC, MAX_SRC>::lo()) && Self::holds(
                RangedI32::<MIN_SRC, MAX_SRC>::hi(),
            )),
    {
    }

    fn ranged_from(value: RangedI32<MIN_SRC, MAX_SRC>) -> (r: Self) {
        Self::new_unchecked(value.get() as usize)
    }
}

impl<
    const MIN_SRC: u64,
    const MAX_SRC: u64,
    const MIN_DST: usize,
    const MAX_DST: usize,
> RangedFrom<RangedI64<MIN_SRC, MAX_SRC>> for RangedUsize<MIN_DST, MAX_DST> {
    open spec fn covers() -> bool {
        &&& Self::lo() <= RangedI64::<MIN_SRC, MAX_SRC>::lo()
        &&& RangedI64::<MIN_SRC, MAX_SRC>::hi() <= Self::hi()
    }

    proof fn law_covers()
        ensures
            RangedI64::<MIN_SRC, MAX_SRC>::valid() ==> (<Self as RangedFrom<
                RangedI64<MIN_SRC, MAX_SRC>,
            >>::covers() <==> Self::holds(RangedI64::<MIN_SRC, MAX_SRC>::lo()) && Self::holds(
                RangedI64::<MIN_SRC, MAX_SRC>::hi(),
            )),
    {
    }

    fn ranged_from(value: RangedI64<MIN_SRC, MAX_SRC>) -> (r: Self) {
        Self::new_unchecked(value.get() as usize)
    }
}

impl<
    const MIN_SRC: u128,
    const MAX_SRC: u128,
    const MIN_DST: usize,
    const MAX_DST: usize,
> RangedFrom<RangedI128<MIN_SRC, MAX_SRC>> for RangedUsize<MIN_DST, MAX_DST> {
    open spec fn covers() -> bool {
        &&& Self::lo() <= RangedI128::<MIN_SRC, MAX_SRC>::lo()
        &&& RangedI128::<MIN_SRC, MAX_SRC>::hi() <= Self::hi()
    }

    proof fn law_covers()
        ensures
            RangedI128::<MIN_SRC, MAX_SRC>::valid() ==> (<Self as RangedFrom<
                RangedI128<MIN_SRC, MAX_SRC>,
            >>::covers() <==> Self::holds(RangedI128::<MIN_SRC, MAX_SRC>::lo()) && Self::holds(
                RangedI128::<MIN_SRC, MAX_SRC>::hi(),
            )),
    {
    }

    fn ranged_from(value: RangedI128<MIN_SRC, MAX_SRC>) -> (r: Self) {
        Self::new_unchecked(value.get() as usize)
    }
}

impl<
    const MIN_SRC: usize,
    const MAX_SRC: usize,
    const MIN_DST: usize,
    const MAX_DST: usize,
> RangedFrom<RangedIsize<MIN_SRC, MAX_SRC>> for RangedUsize<MIN_DST, MAX_DST> {
    open spec fn covers() -> bool {
        &&& Self::lo() <= RangedIsize::<MIN_SRC, MAX_SRC>::lo()
        &&& RangedIsize::<MIN_SRC, MAX_SRC>::hi() <= Self::hi()
    }

    proof fn law_covers()
        ensures
            RangedIsize::<MIN_SRC, MAX_SRC>::valid() ==> (<Self as RangedFrom<
                RangedIsize<MIN_SRC, MAX_SRC>,
            >>::covers() <==> Self::holds(RangedIsize::<MIN_SRC, MAX_SRC>::lo()) && Self::holds(
                RangedIsize::<MIN_SRC, MAX_SRC>::hi(),
            )),
    {
    }

    fn ranged_from(value: RangedIsize<MIN_SRC, MAX_SRC>) -> (r: Self) {
        Self::new_unchecked(value.get() as usize)
    }
}

impl<
    const MIN_SRC: u8,
    const MAX_SRC: u8,
    const MIN_DST: u8,
    const MAX_DST: u8,
> RangedFrom<RangedU8<MIN_SRC, MAX_SRC>> for RangedI8<MIN_DST, MAX_DST> {
    open spec fn covers() -> bool {
        &&& Self::lo() <= RangedU8::<MIN_SRC, MAX_SRC>::lo()
        &&& RangedU8::<MIN_SRC, MAX_SRC>::hi() <= Self::hi()
    }

    proof fn law_covers()
        ensures
            RangedU8::<MIN_SRC, MAX_SRC>::valid() ==> (<Self as RangedFrom<
                RangedU8<MIN_SRC, MAX_SRC>,
            >>::covers() <==> Self::holds(RangedU8::<MIN_SRC, MAX_SRC>::lo()) && Self::holds(
                RangedU8::<MIN_SRC, MAX_SRC>::hi(),
            )),
    {
    }

    fn ranged_from(value: RangedU8<MIN_SRC, MAX_SRC>) -> (r: Self) {
        Self::new_unchecked(value.get() as i8)
    }
}

impl<
    const MIN_SRC: u16,
    const MAX_SRC: u16,
    const MIN_DST: u8,
    const MAX_DST: u8,
> RangedFrom<RangedU16<MIN_SRC, MAX_SRC>> for RangedI8<MIN_DST, MAX_DST> {
    open spec fn covers() -> bool {
        &&& Self::lo() <= RangedU16::<MIN_SRC, MAX_SRC>::lo()
        &&& RangedU16::<MIN_SRC, MAX_SRC>::hi() <= Self::hi()
    }

    proof fn law_covers()
        ensures
            RangedU16::<MIN_SRC, MAX_SRC>::valid() ==> (<Self as RangedFrom<
                RangedU16<MIN_SRC, MAX_SRC>,
            >>::covers() <==> Self::holds(RangedU16::<MIN_SRC, MAX_SRC>::lo()) && Self::holds(
                RangedU16::<MIN_SRC, MAX_SRC>::hi(),
            )),
    {
    }

    fn ranged_from(value: RangedU16<MIN_SRC, MAX_SRC>) -> (r: Self) {
        Self::new_unchecked(value.get() as i8)
    }
}

impl<
    const MIN_SRC: u32,
    const MAX_SRC: u32,
    const MIN_DST: u8,
    const MAX_DST: u8,
> RangedFrom<RangedU32<MIN_SRC, MAX_SRC>> for RangedI8<MIN_DST, MAX_DST> {
    open spec fn covers() -> bool {
        &&& Self::lo() <= RangedU32::<MIN_SRC, MAX_SRC>::lo()
        &&& RangedU32::<MIN_SRC, MAX_SRC>::hi() <= Self::hi()
    }

    proof fn law_covers()
        ensures
            RangedU32::<MIN_SRC, MAX_SRC>::valid() ==> (<Self as RangedFrom<
                RangedU32<MIN_SRC, MAX_SRC>,
            >>::covers() <==> Self::holds(RangedU32::<MIN_SRC, MAX_SRC>::lo()) && Self::holds(
                RangedU32::<MIN_SRC, MAX_SRC>::hi(),
            )),
    {
    }

    fn ranged_from(value: RangedU32<MIN_SRC, MAX_SRC>) -> (r: Self) {
        Self::new_unchecked(value.get() as i8)
    }
}

impl<
    const MIN_SRC: u64,
    const MAX_SRC: u64,
    const MIN_DST: u8,
    const MAX_DST: u8,
> RangedFrom<RangedU64<MIN_SRC, MAX_SRC>> for RangedI8<MIN_DST, MAX_DST> {
    open spec fn covers() -> bool {
        &&& Self::lo() <= RangedU64::<MIN_SRC, MAX_SRC>::lo()
        &&& RangedU64::<MIN_SRC, MAX_SRC>::hi() <= Self::hi()
    }

    proof fn law_covers()
        ensures
            RangedU64::<MIN_SRC, MAX_SRC>::valid() ==> (<Self as RangedFrom<
                RangedU64<MIN_SRC, MAX_SRC>,
            >>::covers() <==> Self::holds(RangedU64::<MIN_SRC, MAX_SRC>::lo()) && Self::holds(
                RangedU64::<MIN_SRC, MAX_SRC>::hi(),
            )),
    {
    }

    fn ranged_from(value: RangedU64<MIN_SRC, MAX_SRC>) -> (r: Self) {
        Self::new_unchecked(value.get() as i8)
    }
}

impl<
    const MIN_SRC: u128,
    const MAX_SRC: u128,
    const MIN_DST: u8,
    const MAX_DST: u8,
> RangedFrom<RangedU128<MIN_SRC, MAX_SRC>> for RangedI8<MIN_DST, MAX_DST> {
    open spec fn covers() -> bool {
        &&& Self::lo() <= RangedU128::<MIN_SRC, MAX_SRC>::lo()
        &&& RangedU128::<MIN_SRC, MAX_SRC>::hi() <= Self::hi()
    }

    proof fn law_covers()
        ensures
            RangedU128::<MIN_SRC, MAX_SRC>::valid() ==> (<Self as RangedFrom<
                RangedU128<MIN_SRC, MAX_SRC>,
            >>::covers() <==> Self::holds(RangedU128::<MIN_SRC, MAX_SRC>::lo()) && Self::holds(
                RangedU128::<MIN_SRC, MAX_SRC>::hi(),
            )),
    {
    }

    fn ranged_from(value: RangedU128<MIN_SRC, MAX_SRC>) -> (r: Self) {
        Self::new_unchecked(value.get() as i8)
    }
}

impl<
    const MIN_SRC: usize,
    const MAX_SRC: usize,
    const MIN_DST: u8,
    const MAX_DST: u8,
> RangedFrom<RangedUsize<MIN_SRC, MAX_SRC>> for RangedI8<MIN_DST, MAX_DST> {
    open spec fn covers() -> bool {
        &&& Self::lo() <= RangedUsize::<MIN_SRC, MAX_SRC>::lo()
        &&& RangedUsize::<MIN_SRC, MAX_SRC>::hi() <= Self::hi()
    }

    proof fn law_covers()
        ensures
            RangedUsize::<MIN_SRC, MAX_SRC>::valid() ==> (<Self as RangedFrom<
                RangedUsize<MIN_SRC, MAX_SRC>,
            >>::covers() <==> Self::holds(RangedUsize::<MIN_SRC, MAX_SRC>::lo()) && Self::holds(
                RangedUsize::<MIN_SRC, MAX_SRC>::hi(),
            )),
    {
    }

    fn ranged_from(value: RangedUsize<MIN_SRC, MAX_SRC>) -> (r: Self) {
        Self::new_unchecked(value.get() as i8)
    }
}

impl<
    const MIN_SRC: u16,
    const MAX_SRC: u16,
    const MIN_DST: u8,
    const MAX_DST: u8,
> RangedFrom<RangedI16<MIN_SRC, MAX_SRC>> for RangedI8<MIN_DST, MAX_DST> {
    open spec fn covers() -> bool {
        &&& Self::lo() <= RangedI16::<MIN_SRC, MAX_SRC>::lo()
        &&& RangedI16::<MIN_SRC, MAX_SRC>::hi() <= Self::hi()
    }

    proof fn law_covers()
        ensures
            RangedI16::<MIN_SRC, MAX_SRC>::valid() ==> (<Self as RangedFrom<
                RangedI16<MIN_SRC, MAX_SRC>,
            >>::covers() <==> Self::holds(RangedI16::<MIN_SRC, MAX_SRC>::lo()) && Self::holds(
                RangedI16::<MIN_SRC, MAX_SRC>::hi(),
            )),
    {
    }

    fn ranged_from(value: RangedI16<MIN_SRC, MAX_SRC>) -> (r: Self) {
        Self::new_unchecked(value.get() as i8)
    }
}

impl<
    const MIN_SRC: u32,
    const MAX_SRC: u32,
    const MIN_DST: u8,
    const MAX_DST: u8,
> RangedFrom<RangedI32<MIN_SRC, MAX_SRC>> for RangedI8<MIN_DST, MAX_DST> {
    open spec fn covers() -> bool {
        &&& Self::lo() <= RangedI32::<MIN_SRC, MAX_SRC>::lo()
        &&& RangedI32::<MIN_SRC, MAX_SRC>::hi() <= Self::hi()
    }

    proof fn law_covers()
        ensures
            RangedI32::<MIN_SRC, MAX_SRC>::valid() ==> (<Self as RangedFrom<
                RangedI32<MIN_SRC, MAX_SRC>,
            >>::covers() <==> Self::holds(RangedI32::<MIN_SRC, MAX_SRC>::lo()) && Self::holds(
                RangedI32::<MIN_SRC, MAX_SRC>::hi(),
            )),
    {
    }

    fn ranged_from(value: RangedI32<MIN_SRC, MAX_SRC>) -> (r: Self) {
        Self::new_unchecked(value.get() as i8)
    }
}

impl<
    const MIN_SRC: u64,
    const MAX_SRC: u64,
    const MIN_DST: u8,
    const MAX_DST: u8,
> RangedFrom<RangedI64<MIN_SRC, MAX_SRC>> for RangedI8<MIN_DST, MAX_DST> {
    open spec fn covers() -> bool {
        &&& Self::lo() <= RangedI64::<MIN_SRC, MAX_SRC>::lo()
        &&& RangedI64::<MIN_SRC, MAX_SRC>::hi() <= Self::hi()
    }

    proof fn law_covers()
        ensures
            RangedI64::<MIN_SRC, MAX_SRC>::valid() ==> (<Self as RangedFrom<
                RangedI64<MIN_SRC, MAX_SRC>,
            >>::covers() <==> Self::holds(RangedI64::<MIN_SRC, MAX_SRC>::lo()) && Self::holds(
                RangedI64::<MIN_SRC, MAX_SRC>::hi(),
            )),
    {
    }

    fn ranged_from(value: RangedI64<MIN_SRC, MAX_SRC>) -> (r: Self) {
        Self::new_unchecked(value.get() as i8)
    }
}

impl<
    const MIN_SRC: u128,
    const MAX_SRC: u128,
    const MIN_DST: u8,
    const MAX_DST: u8,
> RangedFrom<RangedI128<MIN_SRC, MAX_SRC>> for RangedI8<MIN_DST, MAX_DST> {
    open spec fn covers() -> bool {
        &&& Self::lo() <= RangedI128::<MIN_SRC, MAX_SRC>::lo()
        &&& RangedI128::<MIN_SRC, MAX_SRC>::hi() <= Self::hi()
    }

    proof fn law_covers()
        ensures
            RangedI128::<MIN_SRC, MAX_SRC>::valid() ==> (<Self as RangedFrom<
                RangedI128<MIN_SRC, MAX_SRC>,
            >>::covers() <==> Self::holds(RangedI128::<MIN_SRC, MAX_SRC>::lo()) && Self::holds(
                RangedI128::<MIN_SRC, MAX_SRC>::hi(),
            )),
    {
    }

    fn ranged_from(value: RangedI128<MIN_SRC, MAX_SRC>) -> (r: Self) {
        Self::new_unchecked(value.get() as i8)
    }
}

impl<
    const MIN_SRC: usize,
    const MAX_SRC: usize,
    const MIN_DST: u8,
    const MAX_DST: u8,
> RangedFrom<RangedIsize<MIN_SRC, MAX_SRC>> for RangedI8<MIN_DST, MAX_DST> {
    open spec fn covers() -> bool {
        &&& Self::lo() <= RangedIsize::<MIN_SRC, MAX_SRC>::lo()
        &&& RangedIsize::<MIN_SRC, MAX_SRC>::hi() <= Self::hi()
    }

    proof fn law_covers()
        ensures
            RangedIsize::<MIN_SRC, MAX_SRC>::valid() ==> (<Self as RangedFrom<
                RangedIsize<MIN_SRC, MAX_SRC>,
            >>::covers() <==> Self::holds(RangedIsize::<MIN_SRC, MAX_SRC>::lo()) && Self::holds(
                RangedIsize::<MIN_SRC, MAX_SRC>::hi(),
            )),
    {
    }

    fn ranged_from(value: RangedIsize<MIN_SRC, MAX_SRC>) -> (r: Self) {
        Self::new_unchecked(value.get() as i8)
    }
}

impl<
    const MIN_SRC: u8,
    const MAX_SRC: u8,
    const MIN_DST: u16,
    const MAX_DST: u16,
> RangedFrom<RangedU8<MIN_SRC, MAX_SRC>> for RangedI16<MIN_DST, MAX_DST> {
    open spec fn covers() -> bool {
        &&& Self::lo() <= RangedU8::<MIN_SRC, MAX_SRC>::lo()
        &&& RangedU8::<MIN_SRC, MAX_SRC>::hi() <= Self::hi()
    }

    proof fn law_covers()
        ensures
            RangedU8::<MIN_SRC, MAX_SRC>::valid() ==> (<Self as RangedFrom<
                RangedU8<MIN_SRC, MAX_SRC>,
            >>::covers() <==> Self::holds(RangedU8::<MIN_SRC, MAX_SRC>::lo()) && Self::holds(
                RangedU8::<MIN_SRC, MAX_SRC>::hi(),
            )),
    {
    }

    fn ranged_from(value: RangedU8<MIN_SRC, MAX_SRC>) -> (r: Self) {
        Self::new_unchecked(value.get() as i16)
    }
}

impl<
    const MIN_SRC: u16,
    const MAX_SRC: u16,
    const MIN_DST: u16,
    const MAX_DST: u16,
> RangedFrom<RangedU16<MIN_SRC, MAX_SRC>> for RangedI16<MIN_DST, MAX_DST> {
    open spec fn covers() -> bool {
        &&& Self::lo() <= RangedU16::<MIN_SRC, MAX_SRC>::lo()
        &&& RangedU16::<MIN_SRC, MAX_SRC>::hi() <= Self::hi()
    }

    proof fn law_covers()
        ensures
            RangedU16::<MIN_SRC, MAX_SRC>::valid() ==> (<Self as RangedFrom<
                RangedU16<MIN_SRC, MAX_SRC>,
            >>::covers() <==> Self::holds(RangedU16::<MIN_SRC, MAX_SRC>::lo()) && Self::holds(
                RangedU16::<MIN_SRC, MAX_SRC>::hi(),
            )),
    {
    }

    fn ranged_from(value: RangedU16<MIN_SRC, MAX_SRC>) -> (r: Self) {
        Self::new_unchecked(value.get() as i16)
    }
}

impl<
    const MIN_SRC: u32,
    const MAX_SRC: u32,
    const MIN_DST: u16,
    const MAX_DST: u16,
> RangedFrom<RangedU32<MIN_SRC, MAX_SRC>> for RangedI16<MIN_DST, MAX_DST> {
    open spec fn covers() -> bool {
        &&& Self::lo() <= RangedU32::<MIN_SRC, MAX_SRC>::lo()
        &&& RangedU32::<MIN_SRC, MAX_SRC>::hi() <= Self::hi()
    }

    proof fn law_covers()
        ensures
            RangedU32::<MIN_SRC, MAX_SRC>::valid() ==> (<Self as RangedFrom<
                RangedU32<MIN_SRC, MAX_SRC>,
            >>::covers() <==> Self::holds(RangedU32::<MIN_SRC, MAX_SRC>::lo()) && Self::holds(
                RangedU32::<MIN_SRC, MAX_SRC>::hi(),
            )),
    {
    }

    fn ranged_from(value: RangedU32<MIN_SRC, MAX_SRC>) -> (r: Self) {
        Self::new_unchecked(value.get() as i16)
    }
}

impl<
    const MIN_SRC: u64,
    const MAX_SRC: u64,
    const MIN_DST: u16,
    const MAX_DST: u16,
> RangedFrom<RangedU64<MIN_SRC, MAX_SRC>> for RangedI16<MIN_DST, MAX_DST> {
    open spec fn covers() -> bool {
        &&& Self::lo() <= RangedU64::<MIN_SRC, MAX_SRC>::lo()
        &&& RangedU64::<MIN_SRC, MAX_SRC>::hi() <= Self::hi()
    }

    proof fn law_covers()
        ensures
            RangedU64::<MIN_SRC, MAX_SRC>::valid() ==> (<Self as RangedFrom<
                RangedU64<MIN_SRC, MAX_SRC>,
            >>::covers() <==> Self::holds(RangedU64::<MIN_SRC, MAX_SRC>::lo()) && Self::holds(
                RangedU64::<MIN_SRC, MAX_SRC>::hi(),
            )),
    {
    }

    fn ranged_from(value: RangedU64<MIN_SRC, MAX_SRC>) -> (r: Self) {
        Self::new_unchecked(value.get() as i16)
    }
}

impl<
    const MIN_SRC: u128,
    const MAX_SRC: u128,
    const MIN_DST: u16,
    const MAX_DST: u16,
> RangedFrom<RangedU128<MIN_SRC, MAX_SRC>> for RangedI16<MIN_DST, MAX_DST> {
    open spec fn covers() -> bool {
        &&& Self::lo() <= RangedU128::<MIN_SRC, MAX_SRC>::lo()
        &&& RangedU128::<MIN_SRC, MAX_SRC>::hi() <= Self::hi()
    }

    proof fn law_covers()
        ensures
            RangedU128::<MIN_SRC, MAX_SRC>::valid() ==> (<Self as RangedFrom<
                RangedU128<MIN_SRC, MAX_SRC>,
            >>::covers() <==> Self::holds(RangedU128::<MIN_SRC, MAX_SRC>::lo()) && Self::holds(
                RangedU128::<MIN_SRC, MAX_SRC>::hi(),
            )),
    {
    }

    fn ranged_from(value: RangedU128<MIN_SRC, MAX_SRC>) -> (r: Self) {
        Self::new_unchecked(value.get() as i16)
    }
}

impl<
    const MIN_SRC: usize,
    const MAX_SRC: usize,
    const MIN_DST: u16,
    const MAX_DST: u16,
> RangedFrom<RangedUsize<MIN_SRC, MAX_SRC>> for RangedI16<MIN_DST, MAX_DST> {
    open spec fn covers() -> bool {
        &&& Self::lo() <= RangedUsize::<MIN_SRC, MAX_SRC>::lo()
        &&& RangedUsize::<MIN_SRC, MAX_SRC>::hi() <= Self::hi()
    }

    proof fn law_covers()
        ensures
            RangedUsize::<MIN_SRC, MAX_SRC>::valid() ==> (<Self as RangedFrom<
                RangedUsize<MIN_SRC, MAX_SRC>,
            >>::covers() <==> Self::holds(RangedUsize::<MIN_SRC, MAX_SRC>::lo()) && Self::holds(
                RangedUsize::<MIN_SRC, MAX_SRC>::hi(),
            )),
    {
    }

    fn ranged_from(value: RangedUsize<MIN_SRC, MAX_SRC>) -> (r: Self) {
        Self::new_unchecked(value.get() as i16)
    }
}

impl<
    const MIN_SRC: u8,
    const MAX_SRC: u8,
    const MIN_DST: u16,
    const MAX_DST: u16,
> RangedFrom<RangedI8<MIN_SRC, MAX_SRC>> for RangedI16<MIN_DST, MAX_DST> {
    open spec fn covers() -> bool {
        &&& Self::lo() <= RangedI8::<MIN_SRC, MAX_SRC>::lo()
        &&& RangedI8::<MIN_SRC, MAX_SRC>::hi() <= Self::hi()
    }

    proof fn law_covers()
        ensures
            RangedI8::<MIN_SRC, MAX_SRC>::valid() ==> (<Self as RangedFrom<
                RangedI8<MIN_SRC, MAX_SRC>,
            >>::covers() <==> Self::holds(RangedI8::<MIN_SRC, MAX_SRC>::lo()) && Self::holds(
                RangedI8::<MIN_SRC, MAX_SRC>::hi(),
            )),
    {
    }

    fn ranged_from(value: RangedI8<MIN_SRC, MAX_SRC>) -> (r: Self) {
        Self::new_unchecked(value.get() as i16)
    }
}

impl<
    const MIN_SRC: u32,
    const MAX_SRC: u32,
    const MIN_DST: u16,
    const MAX_DST: u16,
> RangedFrom<RangedI32<MIN_SRC, MAX_SRC>> for RangedI16<MIN_DST, MAX_DST> {
    open spec fn covers() -> bool {
        &&& Self::lo() <= RangedI32::<MIN_SRC, MAX_SRC>::lo()
        &&& RangedI32::<MIN_SRC, MAX_SRC>::hi() <= Self::hi()
    }

    proof fn law_covers()
        ensures
            RangedI32::<MIN_SRC, MAX_SRC>::valid() ==> (<Self as RangedFrom<
                RangedI32<MIN_SRC, MAX_SRC>,
            >>::covers() <==> Self::holds(RangedI32::<MIN_SRC, MAX_SRC>::lo()) && Self::holds(
                RangedI32::<MIN_SRC, MAX_SRC>::hi(),
            )),
    {
    }

    fn ranged_from(value: RangedI32<MIN_SRC, MAX_SRC>) -> (r: Self) {
        Self::new_unchecked(value.get() as i16)
    }
}

impl<
    const MIN_SRC: u64,
    const MAX_SRC: u64,
    const MIN_DST: u16,
    const MAX_DST: u16,
> RangedFrom<RangedI64<MIN_SRC, MAX_SRC>> for RangedI16<MIN_DST, MAX_DST> {
    open spec fn covers() -> bool {
        &&& Self::lo() <= RangedI64::<MIN_SRC, MAX_SRC>::lo()
        &&& RangedI64::<MIN_SRC, MAX_SRC>::hi() <= Self::hi()
    }

    proof fn law_covers()
        ensures
            RangedI64::<MIN_SRC, MAX_SRC>::valid() ==> (<Self as RangedFrom<
                RangedI64<MIN_SRC, MAX_SRC>,
            >>::covers() <==> Self::holds(RangedI64::<MIN_SRC, MAX_SRC>::lo()) && Self::holds(
                RangedI64::<MIN_SRC, MAX_SRC>::hi(),
            )),
    {
    }

    fn ranged_from(value: RangedI64<MIN_SRC, MAX_SRC>) -> (r: Self) {
        Self::new_unchecked(value.get() as i16)
    }
}

impl<
    const MIN_SRC: u128,
    const MAX_SRC: u128,
    const MIN_DST: u16,
    const MAX_DST: u16,
> RangedFrom<RangedI128<MIN_SRC, MAX_SRC>> for RangedI16<MIN_DST, MAX_DST> {
    open spec fn covers() -> bool {
        &&& Self::lo() <= RangedI128::<MIN_SRC, MAX_SRC>::lo()
        &&& RangedI128::<MIN_SRC, MAX_SRC>::hi() <= Self::hi()
    }

    proof fn law_covers()
        ensures
            RangedI128::<MIN_SRC, MAX_SRC>::valid() ==> (<Self as RangedFrom<
                RangedI128<MIN_SRC, MAX_SRC>,
            >>::covers() <==> Self::holds(RangedI128::<MIN_SRC, MAX_SRC>::lo()) && Self::holds(
                RangedI128::<MIN_SRC, MAX_SRC>::hi(),
            )),
    {
    }

    fn ranged_from(value: RangedI128<MIN_SRC, MAX_SRC>) -> (r: Self) {
        Self::new_unchecked(value.get() as i16)
    }
}

impl<
    const MIN_SRC: usize,
    const MAX_SRC: usize,
    const MIN_DST: u16,
    const MAX_DST: u16,
> RangedFrom<RangedIsize<MIN_SRC, MAX_SRC>> for RangedI16<MIN_DST, MAX_DST> {
    open spec fn covers() -> bool {
        &&& Self::lo() <= RangedIsize::<MIN_SRC, MAX_SRC>::lo()
        &&& RangedIsize::<MIN_SRC, MAX_SRC>::hi() <= Self::hi()
    }

    proof fn law_covers()
        ensures
            RangedIsize::<MIN_SRC, MAX_SRC>::valid() ==> (<Self as RangedFrom<
                RangedIsize<MIN_SRC, MAX_SRC>,
            >>::covers() <==> Self::holds(RangedIsize::<MIN_SRC, MAX_SRC>::lo()) && Self::holds(
                RangedIsize::<MIN_SRC, MAX_SRC>::hi(),
            )),
    {
    }

    fn ranged_from(value: RangedIsize<MIN_SRC, MAX_SRC>) -> (r: Self) {
        Self::new_unchecked(value.get() as i16)
    }
}

impl<
    const MIN_SRC: u8,
    const MAX_SRC: u8,
    const MIN_DST: u32,
    const MAX_DST: u32,
> RangedFrom<RangedU8<MIN_SRC, MAX_SRC>> for RangedI32<MIN_DST, MAX_DST> {
    open spec fn covers() -> bool {
        &&& Self::lo() <= RangedU8::<MIN_SRC, MAX_SRC>::lo()
        &&& RangedU8::<MIN_SRC, MAX_SRC>::hi() <= Self::hi()
    }

    proof fn law_covers()
        ensures
            RangedU8::<MIN_SRC, MAX_SRC>::valid() ==> (<Self as RangedFrom<
                RangedU8<MIN_SRC, MAX_SRC>,
            >>::covers() <==> Self::holds(RangedU8::<MIN_SRC, MAX_SRC>::lo()) && Self::holds(
                RangedU8::<MIN_SRC, MAX_SRC>::hi(),
            )),
    {
    }

    fn ranged_from(value: RangedU8<MIN_SRC, MAX_SRC>) -> (r: Self) {
        Self::new_unchecked(value.get() as i32)
    }
}

impl<
    const MIN_SRC: u16,
    const MAX_SRC: u16,
    const MIN_DST: u32,
    const MAX_DST: u32,
> RangedFrom<RangedU16<MIN_SRC, MAX_SRC>> for RangedI32<MIN_DST, MAX_DST> {
    open spec fn covers() -> bool {
        &&& Self::lo() <= RangedU16::<MIN_SRC, MAX_SRC>::lo()
        &&& RangedU16::<MIN_SRC, MAX_SRC>::hi() <= Self::hi()
    }

    proof fn law_covers()
        ensures
            RangedU16::<MIN_SRC, MAX_SRC>::valid() ==> (<Self as RangedFrom<
                RangedU16<MIN_SRC, MAX_SRC>,
            >>::covers() <==> Self::holds(RangedU16::<MIN_SRC, MAX_SRC>::lo()) && Self::holds(
                RangedU16::<MIN_SRC, MAX_SRC>::hi(),
            )),
    {
    }

    fn ranged_from(value: RangedU16<MIN_SRC, MAX_SRC>) -> (r: Self) {
        Self::new_unchecked(value.get() as i32)
    }
}

impl<
    const MIN_SRC: u32,
    const MAX_SRC: u32,
    const MIN_DST: u32,
    const MAX_DST: u32,
> RangedFrom<RangedU32<MIN_SRC, MAX_SRC>> for RangedI32<MIN_DST, MAX_DST> {
    open spec fn covers() -> bool {
        &&& Self::lo() <= RangedU32::<MIN_SRC, MAX_SRC>::lo()
        &&& RangedU32::<MIN_SRC, MAX_SRC>::hi() <= Self::hi()
    }

    proof fn law_covers()
        ensures
            RangedU32::<MIN_SRC, MAX_SRC>::valid() ==> (<Self as RangedFrom<
                RangedU32<MIN_SRC, MAX_SRC>,
            >>::covers() <==> Self::holds(RangedU32::<MIN_SRC, MAX_SRC>::lo()) && Self::holds(
                RangedU32::<MIN_SRC, MAX_SRC>::hi(),
            )),
    {
    }

    fn ranged_from(value: RangedU32<MIN_SRC, MAX_SRC>) -> (r: Self) {
        Self::new_unchecked(value.get() as i32)
    }
}

impl<
    const MIN_SRC: u64,
    const MAX_SRC: u64,
    const MIN_DST: u32,
    const MAX_DST: u32,
> RangedFrom<RangedU64<MIN_SRC, MAX_SRC>> for RangedI32<MIN_DST, MAX_DST> {
    open spec fn covers() -> bool {
        &&& Self::lo() <= RangedU64::<MIN_SRC, MAX_SRC>::lo()
        &&& RangedU64::<MIN_SRC, MAX_SRC>::hi() <= Self::hi()
    }

    proof fn law_covers()
        ensures
            RangedU64::<MIN_SRC, MAX_SRC>::valid() ==> (<Self as RangedFrom<
                RangedU64<MIN_SRC, MAX_SRC>,
            >>::covers() <==> Self::holds(RangedU64::<MIN_SRC, MAX_SRC>::lo()) && Self::holds(
                RangedU64::<MIN_SRC, MAX_SRC>::hi(),
            )),
    {
    }

    fn ranged_from(value: RangedU64<MIN_SRC, MAX_SRC>) -> (r: Self) {
        Self::new_unchecked(value.get() as i32)
    }
}

impl<
    const MIN_SRC: u128,
    const MAX_SRC: u128,
    const MIN_DST: u32,
    const MAX_DST: u32,
> RangedFrom<RangedU128<MIN_SRC, MAX_SRC>> for RangedI32<MIN_DST, MAX_DST> {
    open spec fn covers() -> bool {
        &&& Self::lo() <= RangedU128::<MIN_SRC, MAX_SRC>::lo()
        &&& RangedU128::<MIN_SRC, MAX_SRC>::hi() <= Self::hi()
    }

    proof fn law_covers()
        ensures
            RangedU128::<MIN_SRC, MAX_SRC>::valid() ==> (<Self as RangedFrom<
                RangedU128<MIN_SRC, MAX_SRC>,
            >>::covers() <==> Self::holds(RangedU128::<MIN_SRC, MAX_SRC>::lo()) && Self::holds(
                RangedU128::<MIN_SRC, MAX_SRC>::hi(),
            )),
    {
    }

    fn ranged_from(value: RangedU128<MIN_SRC, MAX_SRC>) -> (r: Self) {
        Self::new_unchecked(value.get() as i32)
    }
}

impl<
    const MIN_SRC: usize,
    const MAX_SRC: usize,
    const MIN_DST: u32,
    const MAX_DST: u32,
> RangedFrom<RangedUsize<MIN_SRC, MAX_SRC>> for RangedI32<MIN_DST, MAX_DST> {
    open spec fn covers() -> bool {
        &&& Self::lo() <= RangedUsize::<MIN_SRC, MAX_SRC>::lo()
        &&& RangedUsize::<MIN_SRC, MAX_SRC>::hi() <= Self::hi()
    }

    proof fn law_covers()
        ensures
            RangedUsize::<MIN_SRC, MAX_SRC>::valid() ==> (<Self as RangedFrom<
                RangedUsize<MIN_SRC, MAX_SRC>,
            >>::covers() <==> Self::holds(RangedUsize::<MIN_SRC, MAX_SRC>::lo()) && Self::holds(
                RangedUsize::<MIN_SRC, MAX_SRC>::hi(),
            )),
    {
    }

    fn ranged_from(value: RangedUsize<MIN_SRC, MAX_SRC>) -> (r: Self) {
        Self::new_unchecked(value.get() as i32)
    }
}

impl<
    const MIN_SRC: u8,
    const MAX_SRC: u8,
    const MIN_DST: u32,
    const MAX_DST: u32,
> RangedFrom<RangedI8<MIN_SRC, MAX_SRC>> for RangedI32<MIN_DST, MAX_DST> {
    open spec fn covers() -> bool {
        &&& Self::lo() <= RangedI8::<MIN_SRC, MAX_SRC>::lo()
        &&& RangedI8::<MIN_SRC, MAX_SRC>::hi() <= Self::hi()
    }

    proof fn law_covers()
        ensures
            RangedI8::<MIN_SRC, MAX_SRC>::valid() ==> (<Self as RangedFrom<
                RangedI8<MIN_SRC, MAX_SRC>,
            >>::covers() <==> Self::holds(RangedI8::<MIN_SRC, MAX_SRC>::lo()) && Self::holds(
                RangedI8::<MIN_SRC, MAX_SRC>::hi(),
            )),
    {
    }

    fn ranged_from(value: RangedI8<MIN_SRC, MAX_SRC>) -> (r: Self) {
        Self::new_unchecked(value.get() as i32)
    }
}

impl<
    const MIN_SRC: u16,
    const MAX_SRC: u16,
    const MIN_DST: u32,
    const MAX_DST: u32,
> RangedFrom<RangedI16<MIN_SRC, MAX_SRC>> for RangedI32<MIN_DST, MAX_DST> {
    open spec fn covers() -> bool {
        &&& Self::lo() <= RangedI16::<MIN_SRC, MAX_SRC>::lo()
        &&& RangedI16::<MIN_SRC, MAX_SRC>::hi() <= Self::hi()
    }

    proof fn law_covers()
        ensures
            RangedI16::<MIN_SRC, MAX_SRC>::valid() ==> (<Self as RangedFrom<
                RangedI16<MIN_SRC, MAX_SRC>,
            >>::covers() <==> Self::holds(RangedI16::<MIN_SRC, MAX_SRC>::lo()) && Self::holds(
                RangedI16::<MIN_SRC, MAX_SRC>::hi(),
            )),
    {
    }

    fn ranged_from(value: RangedI16<MIN_SRC, MAX_SRC>) -> (r: Self) {
        Self::new_unchecked(value.get() as i32)
    }
}

impl<
    const MIN_SRC: u64,
    const MAX_SRC: u64,
    const MIN_DST: u32,
    const MAX_DST: u32,
> RangedFrom<RangedI64<MIN_SRC, MAX_SRC>> for RangedI32<MIN_DST, MAX_DST> {
    open spec fn covers() -> bool {
        &&& Self::lo() <= RangedI64::<MIN_SRC, MAX_SRC>::lo()
        &&& RangedI64::<MIN_SRC, MAX_SRC>::hi() <= Self::hi()
    }

    proof fn law_covers()
        ensures
            RangedI64::<MIN_SRC, MAX_SRC>::valid() ==> (<Self as RangedFrom<
                RangedI64<MIN_SRC, MAX_SRC>,
            >>::covers() <==> Self::holds(RangedI64::<MIN_SRC, MAX_SRC>::lo()) && Self::holds(
                RangedI64::<MIN_SRC, MAX_SRC>::hi(),
            )),
    {
    }

    fn ranged_from(value: RangedI64<MIN_SRC, MAX_SRC>) -> (r: Self) {
        Self::new_unchecked(value.get() as i32)
    }
}

impl<
    const MIN_SRC: u128,
    const MAX_SRC: u128,
    const MIN_DST: u32,
    const MAX_DST: u32,
> RangedFrom<RangedI128<MIN_SRC, MAX_SRC>> for RangedI32<MIN_DST, MAX_DST> {
    open spec fn covers() -> bool {
        &&& Self::lo() <= RangedI128::<MIN_SRC, MAX_SRC>::lo()
        &&& RangedI128::<MIN_SRC, MAX_SRC>::hi() <= Self::hi()
    }

    proof fn law_covers()
        ensures
            RangedI128::<MIN_SRC, MAX_SRC>::valid() ==> (<Self as RangedFrom<
                RangedI128<MIN_SRC, MAX_SRC>,
            >>::covers() <==> Self::holds(RangedI128::<MIN_SRC, MAX_SRC>::lo()) && Self::holds(
                RangedI128::<MIN_SRC, MAX_SRC>::hi(),
            )),
    {
    }

    fn ranged_from(value: RangedI128<MIN_SRC, MAX_SRC>) -> (r: Self) {
        Self::new_unchecked(value.get() as i32)
    }
}

impl<
    const MIN_SRC: usize,
    const MAX_SRC: usize,
    const MIN_DST: u32,
    const MAX_DST: u32,
> RangedFrom<RangedIsize<MIN_SRC, MAX_SRC>> for RangedI32<MIN_DST, MAX_DST> {
    open spec fn covers() -> bool {
        &&& Self::lo() <= RangedIsize::<MIN_SRC, MAX_SRC>::lo()
        &&& RangedIsize::<MIN_SRC, MAX_SRC>::hi() <= Self::hi()
    }

    proof fn law_covers()
        ensures
            RangedIsize::<MIN_SRC, MAX_SRC>::valid() ==> (<Self as RangedFrom<
                RangedIsize<MIN_SRC, MAX_SRC>,
            >>::covers() <==> Self::holds(RangedIsize::<MIN_SRC, MAX_SRC>::lo()) && Self::holds(
                RangedIsize::<MIN_SRC, MAX_SRC>::hi(),
            )),
    {
    }

    fn ranged_from(value: RangedIsize<MIN_SRC, MAX_SRC>) -> (r: Self) {
        Self::new_unchecked(value.get() as i32)
    }
}

impl<
    const MIN_SRC: u8,
    const MAX_SRC: u8,
    const MIN_DST: u64,
    const MAX_DST: u64,
> RangedFrom<RangedU8<MIN_SRC, MAX_SRC>> for RangedI64<MIN_DST, MAX_DST> {
    open spec fn covers() -> bool {
        &&& Self::lo() <= RangedU8::<MIN_SRC, MAX_SRC>::lo()
        &&& RangedU8::<MIN_SRC, MAX_SRC>::hi() <= Self::hi()
    }

    proof fn law_covers()
        ensures
            RangedU8::<MIN_SRC, MAX_SRC>::valid() ==> (<Self as RangedFrom<
                RangedU8<MIN_SRC, MAX_SRC>,
            >>::covers() <==> Self::holds(RangedU8::<MIN_SRC, MAX_SRC>::lo()) && Self::holds(
                RangedU8::<MIN_SRC, MAX_SRC>::hi(),
            )),
    {
    }

    fn ranged_from(value: RangedU8<MIN_SRC, MAX_SRC>) -> (r: Self) {
        Self::new_unchecked(value.get() as i64)
    }
}

impl<
    const MIN_SRC: u16,
    const MAX_SRC: u16,
    const MIN_DST: u64,
    const MAX_DST: u64,
> RangedFrom<RangedU16<MIN_SRC, MAX_SRC>> for RangedI64<MIN_DST, MAX_DST> {
    open spec fn covers() -> bool {
        &&& Self::lo() <= RangedU16::<MIN_SRC, MAX_SRC>::lo()
        &&& RangedU16::<MIN_SRC, MAX_SRC>::hi() <= Self::hi()
    }

    proof fn law_covers()
        ensures
            RangedU16::<MIN_SRC, MAX_SRC>::valid() ==> (<Self as RangedFrom<
                RangedU16<MIN_SRC, MAX_SRC>,
            >>::covers() <==> Self::holds(RangedU16::<MIN_SRC, MAX_SRC>::lo()) && Self::holds(
                RangedU16::<MIN_SRC, MAX_SRC>::hi(),
            )),
    {
    }

    fn ranged_from(value: RangedU16<MIN_SRC, MAX_SRC>) -> (r: Self) {
        Self::new_unchecked(value.get() as i64)
    }
}

impl<
    const MIN_SRC: u32,
    const MAX_SRC: u32,
    const MIN_DST: u64,
    const MAX_DST: u64,
> RangedFrom<RangedU32<MIN_SRC, MAX_SRC>> for RangedI64<MIN_DST, MAX_DST> {
    open spec fn covers() -> bool {
        &&& Self::lo() <= RangedU32::<MIN_SRC, MAX_SRC>::lo()
        &&& RangedU32::<MIN_SRC, MAX_SRC>::hi() <= Self::hi()
    }

    proof fn law_covers()
        ensures
            RangedU32::<MIN_SRC, MAX_SRC>::valid() ==> (<Self as RangedFrom<
                RangedU32<MIN_SRC, MAX_SRC>,
            >>::covers() <==> Self::holds(RangedU32::<MIN_SRC, MAX_SRC>::lo()) && Self::holds(
                RangedU32::<MIN_SRC, MAX_SRC>::hi(),
            )),
    {
    }

    fn ranged_from(value: RangedU32<MIN_SRC, MAX_SRC>) -> (r: Self) {
        Self::new_unchecked(value.get() as i64)
    }
}

impl<
    const MIN_SRC: u64,
    const MAX_SRC: u64,
    const MIN_DST: u64,
    const MAX_DST: u64,
> RangedFrom<RangedU64<MIN_SRC, MAX_SRC>> for RangedI64<MIN_DST, MAX_DST> {
    open spec fn covers() -> bool {
        &&& Self::lo() <= RangedU64::<MIN_SRC, MAX_SRC>::lo()
        &&& RangedU64::<MIN_SRC, MAX_SRC>::hi() <= Self::hi()
    }

    proof fn law_covers()
        ensures
            RangedU64::<MIN_SRC, MAX_SRC>::valid() ==> (<Self as RangedFrom<
                RangedU64<MIN_SRC, MAX_SRC>,
            >>::covers() <==> Self::holds(RangedU64::<MIN_SRC, MAX_SRC>::lo()) && Self::holds(
                RangedU64::<MIN_SRC, MAX_SRC>::hi(),
            )),
    {
    }

    fn ranged_from(value: RangedU64<MIN_SRC, MAX_SRC>) -> (r: Self) {
        Self::new_unchecked(value.get() as i64)
    }
}

impl<
    const MIN_SRC: u128,
    const MAX_SRC: u128,
    const MIN_DST: u64,
    const MAX_DST: u64,
> RangedFrom<RangedU128<MIN_SRC, MAX_SRC>> for RangedI64<MIN_DST, MAX_DST> {
    open spec fn covers() -> bool {
        &&& Self::lo() <= RangedU128::<MIN_SRC, MAX_SRC>::lo()
        &&& RangedU128::<MIN_SRC, MAX_SRC>::hi() <= Self::hi()
    }

    proof fn law_covers()
        ensures
            RangedU128::<MIN_SRC, MAX_SRC>::valid() ==> (<Self as RangedFrom<
                RangedU128<MIN_SRC, MAX_SRC>,
            >>::covers() <==> Self::holds(RangedU128::<MIN_SRC, MAX_SRC>::lo()) && Self::holds(
                RangedU128::<MIN_SRC, MAX_SRC>::hi(),
            )),
    {
    }

    fn ranged_from(value: RangedU128<MIN_SRC, MAX_SRC>) -> (r: Self) {
        Self::new_unchecked(value.get() as i64)
    }
}

impl<
    const MIN_SRC: usize,
    const MAX_SRC: usize,
    const MIN_DST: u64,
    const MAX_DST: u64,
> RangedFrom<RangedUsize<MIN_SRC, MAX_SRC>> for RangedI64<MIN_DST, MAX_DST> {
    open spec fn covers() -> bool {
        &&& Self::lo() <= RangedUsize::<MIN_SRC, MAX_SRC>::lo()
        &&& RangedUsize::<MIN_SRC, MAX_SRC>::hi() <= Self::hi()
    }

    proof fn law_covers()
        ensures
            RangedUsize::<MIN_SRC, MAX_SRC>::valid() ==> (<Self as RangedFrom<
                RangedUsize<MIN_SRC, MAX_SRC>,
            >>::covers() <==> Self::holds(RangedUsize::<MIN_SRC, MAX_SRC>::lo()) && Self::holds(
                RangedUsize::<MIN_SRC, MAX_SRC>::hi(),
            )),
    {
    }

    fn ranged_from(value: RangedUsize<MIN_SRC, MAX_SRC>) -> (r: Self) {
        Self::new_unchecked(value.get() as i64)
    }
}

impl<
    const MIN_SRC: u8,
    const MAX_SRC: u8,
    const MIN_DST: u64,
    const MAX_DST: u64,
> RangedFrom<RangedI8<MIN_SRC, MAX_SRC>> for RangedI64<MIN_DST, MAX_DST> {
    open spec fn covers() -> bool {
        &&& Self::lo() <= RangedI8::<MIN_SRC, MAX_SRC>::lo()
        &&& RangedI8::<MIN_SRC, MAX_SRC>::hi() <= Self::hi()
    }

    proof fn law_covers()
        ensures
            RangedI8::<MIN_SRC, MAX_SRC>::valid() ==> (<Self as RangedFrom<
                RangedI8<MIN_SRC, MAX_SRC>,
            >>::covers() <==> Self::holds(RangedI8::<MIN_SRC, MAX_SRC>::lo()) && Self::holds(
                RangedI8::<MIN_SRC, MAX_SRC>::hi(),
            )),
    {
    }

    fn ranged_from(value: RangedI8<MIN_SRC, MAX_SRC>) -> (r: Self) {
        Self::new_unchecked(value.get() as i64)
    }
}

impl<
    const MIN_SRC: u16,
    const MAX_SRC: u16,
    const MIN_DST: u64,
    const MAX_DST: u64,
> RangedFrom<RangedI16<MIN_SRC, MAX_SRC>> for RangedI64<MIN_DST, MAX_DST> {
    open spec fn covers() -> bool {
        &&& Self::lo() <= RangedI16::<MIN_SRC, MAX_SRC>::lo()
        &&& RangedI16::<MIN_SRC, MAX_SRC>::hi() <= Self::hi()
    }

    proof fn law_covers()
        ensures
            RangedI16::<MIN_SRC, MAX_SRC>::valid() ==> (<Self as RangedFrom<
                RangedI16<MIN_SRC, MAX_SRC>,
            >>::covers() <==> Self::holds(RangedI16::<MIN_SRC, MAX_SRC>::lo()) && Self::holds(
                RangedI16::<MIN_SRC, MAX_SRC>::hi(),
            )),
    {
    }

    fn ranged_from(value: RangedI16<MIN_SRC, MAX_SRC>) -> (r: Self) {
        Self::new_unchecked(value.get() as i64)
    }
}

impl<
    const MIN_SRC: u32,
    const MAX_SRC: u32,
    const MIN_DST: u64,
    const MAX_DST: u64,
> RangedFrom<RangedI32<MIN_SRC, MAX_SRC>> for RangedI64<MIN_DST, MAX_DST> {
    open spec fn covers() -> bool {
        &&& Self::lo() <= RangedI32::<MIN_SRC, MAX_SRC>::lo()
        &&& RangedI32::<MIN_SRC, MAX_SRC>::hi() <= Self::hi()
    }

    proof fn law_covers()
        ensures
            RangedI32::<MIN_SRC, MAX_SRC>::valid() ==> (<Self as RangedFrom<
                RangedI32<MIN_SRC, MAX_SRC>,
            >>::covers() <==> Self::holds(RangedI32::<MIN_SRC, MAX_SRC>::lo()) && Self::holds(
                RangedI32::<MIN_SRC, MAX_SRC>::hi(),
            )),
    {
    }

    fn ranged_from(value: RangedI32<MIN_SRC, MAX_SRC>) -> (r: Self) {
        Self::new_unchecked(value.get() as i64)
    }
}

impl<
    const MIN_SRC: u128,
    const MAX_SRC: u128,
    const MIN_DST: u64,
    const MAX_DST: u64,
> RangedFrom<RangedI128<MIN_SRC, MAX_SRC>> for RangedI64<MIN_DST, MAX_DST> {
    open spec fn covers() -> bool {
        &&& Self::lo() <= RangedI128::<MIN_SRC, MAX_SRC>::lo()
        &&& RangedI128::<MIN_SRC, MAX_SRC>::hi() <= Self::hi()
    }

    proof fn law_covers()
        ensures
            RangedI128::<MIN_SRC, MAX_SRC>::valid() ==> (<Self as RangedFrom<
                RangedI128<MIN_SRC, MAX_SRC>,
            >>::covers() <==> Self::holds(RangedI128::<MIN_SRC, MAX_SRC>::lo()) && Self::holds(
                RangedI128::<MIN_SRC, MAX_SRC>::hi(),
            )),
    {
    }

    fn ranged_from(value: RangedI128<MIN_SRC, MAX_SRC>) -> (r: Self) {
        Self::new_unchecked(value.get() as i64)
    }
}

impl<
    const MIN_SRC: usize,
    const MAX_SRC: usize,
    const MIN_DST: u64,
    const MAX_DST: u64,
> RangedFrom<RangedIsize<MIN_SRC, MAX_SRC>> for RangedI64<MIN_DST, MAX_DST> {
    open spec fn covers() -> bool {
        &&& Self::lo() <= RangedIsize::<MIN_SRC, MAX_SRC>::lo()
        &&& RangedIsize::<MIN_SRC, MAX_SRC>::hi() <= Self::hi()
    }

    proof fn law_covers()
        ensures
            RangedIsize::<MIN_SRC, MAX_SRC>::valid() ==> (<Self as RangedFrom<
                RangedIsize<MIN_SRC, MAX_SRC>,
            >>::covers() <==> Self::holds(RangedIsize::<MIN_SRC, MAX_SRC>::lo()) && Self::holds(
                RangedIsize::<MIN_SRC, MAX_SRC>::hi(),
            )),
    {
    }

    fn ranged_from(value: RangedIsize<MIN_SRC, MAX_SRC>) -> (r: Self) {
        Self::new_unchecked(value.get() as i64)
    }
}

impl<
    const MIN_SRC: u8,
    const MAX_SRC: u8,
    const MIN_DST: u128,
    const MAX_DST: u128,
> RangedFrom<RangedU8<MIN_SRC, MAX_SRC>> for RangedI128<MIN_DST, MAX_DST> {
    open spec fn covers() -> bool {
        &&& Self::lo() <= RangedU8::<MIN_SRC, MAX_SRC>::lo()
        &&& RangedU8::<MIN_SRC, MAX_SRC>::hi() <= Self::hi()
    }

    proof fn law_covers()
        ensures
            RangedU8::<MIN_SRC, MAX_SRC>::valid() ==> (<Self as RangedFrom<
                RangedU8<MIN_SRC, MAX_SRC>,
            >>::covers() <==> Self::holds(RangedU8::<MIN_SRC, MAX_SRC>::lo()) && Self::holds(
                RangedU8::<MIN_SRC, MAX_SRC>::hi(),
            )),
    {
    }

    fn ranged_from(value: RangedU8<MIN_SRC, MAX_SRC>) -> (r: Self) {
        Self::new_unchecked(value.get() as i128)
    }
}

impl<
    const MIN_SRC: u16,
    const MAX_SRC: u16,
    const MIN_DST: u128,
    const MAX_DST: u128,
> RangedFrom<RangedU16<MIN_SRC, MAX_SRC>> for RangedI128<MIN_DST, MAX_DST> {
    open spec fn covers() -> bool {
        &&& Self::lo() <= RangedU16::<MIN_SRC, MAX_SRC>::lo()
        &&& RangedU16::<MIN_SRC, MAX_SRC>::hi() <= Self::hi()
    }

    proof fn law_covers()
        ensures
            RangedU16::<MIN_SRC, MAX_SRC>::valid() ==> (<Self as RangedFrom<
                RangedU16<MIN_SRC, MAX_SRC>,
            >>::covers() <==> Self::holds(RangedU16::<MIN_SRC, MAX_SRC>::lo()) && Self::holds(
                RangedU16::<MIN_SRC, MAX_SRC>::hi(),
            )),
    {
    }

    fn ranged_from(value: RangedU16<MIN_SRC, MAX_SRC>) -> (r: Self) {
        Self::new_unchecked(value.get() as i128)
    }
}

impl<
    const MIN_SRC: u32,
    const MAX_SRC: u32,
    const MIN_DST: u128,
    const MAX_DST: u128,
> RangedFrom<RangedU32<MIN_SRC, MAX_SRC>> for RangedI128<MIN_DST, MAX_DST> {
    open spec fn covers() -> bool {
        &&& Self::lo() <= RangedU32::<MIN_SRC, MAX_SRC>::lo()
        &&& RangedU32::<MIN_SRC, MAX_SRC>::hi() <= Self::hi()
    }

    proof fn law_covers()
        ensures
            RangedU32::<MIN_SRC, MAX_SRC>::valid() ==> (<Self as RangedFrom<
                RangedU32<MIN_SRC, MAX_SRC>,
            >>::covers() <==> Self::holds(RangedU32::<MIN_SRC, MAX_SRC>::lo()) && Self::holds(
                RangedU32::<MIN_SRC, MAX_SRC>::hi(),
            )),
    {
    }

    fn ranged_from(value: RangedU32<MIN_SRC, MAX_SRC>) -> (r: Self) {
        Self::new_unchecked(value.get() as i128)
    }
}

impl<
    const MIN_SRC: u64,
    const MAX_SRC: u64,
    const MIN_DST: u128,
    const MAX_DST: u128,
> RangedFrom<RangedU64<MIN_SRC, MAX_SRC>> for RangedI128<MIN_DST, MAX_DST> {
    open spec fn covers() -> bool {
        &&& Self::lo() <= RangedU64::<MIN_SRC, MAX_SRC>::lo()
        &&& RangedU64::<MIN_SRC, MAX_SRC>::hi() <= Self::hi()
    }

    proof fn law_covers()
        ensures
            RangedU64::<MIN_SRC, MAX_SRC>::valid() ==> (<Self as RangedFrom<
                RangedU64<MIN_SRC, MAX_SRC>,
            >>::covers() <==> Self::holds(RangedU64::<MIN_SRC, MAX_SRC>::lo()) && Self::holds(
                RangedU64::<MIN_SRC, MAX_SRC>::hi(),
            )),
    {
    }

    fn ranged_from(value: RangedU64<MIN_SRC, MAX_SRC>) -> (r: Self) {
        Self::new_unchecked(value.get() as i128)
    }
}

impl<
    const MIN_SRC: u128,
    const MAX_SRC: u128,
    const MIN_DST: u128,
    const MAX_DST: u128,
> RangedFrom<RangedU128<MIN_SRC, MAX_SRC>> for RangedI128<MIN_DST, MAX_DST> {
    open spec fn covers() -> bool {
        &&& Self::lo() <= RangedU128::<MIN_SRC, MAX_SRC>::lo()
        &&& RangedU128::<MIN_SRC, MAX_SRC>::hi() <= Self::hi()
    }

    proof fn law_covers()
        ensures
            RangedU128::<MIN_SRC, MAX_SRC>::valid() ==> (<Self as RangedFrom<
                RangedU128<MIN_SRC, MAX_SRC>,
            >>::covers() <==> Self::holds(RangedU128::<MIN_SRC, MAX_SRC>::lo()) && Self::holds(
                RangedU128::<MIN_SRC, MAX_SRC>::hi(),
            )),
    {
    }

    fn ranged_from(value: RangedU128<MIN_SRC, MAX_SRC>) -> (r: Self) {
        Self::new_unchecked(value.get() as i128)
    }
}

impl<
    const MIN_SRC: usize,
    const MAX_SRC: usize,
    const MIN_DST: u128,
    const MAX_DST: u128,
> RangedFrom<RangedUsize<MIN_SRC, MAX_SRC>> for RangedI128<MIN_DST, MAX_DST> {
    open spec fn covers() -> bool {
        &&& Self::lo() <= RangedUsize::<MIN_SRC, MAX_SRC>::lo()
        &&& RangedUsize::<MIN_SRC, MAX_SRC>::hi() <= Self::hi()
    }

    proof fn law_covers()
        ensures
            RangedUsize::<MIN_SRC, MAX_SRC>::valid() ==> (<Self as RangedFrom<
                RangedUsize<MIN_SRC, MAX_SRC>,
            >>::covers() <==> Self::holds(RangedUsize::<MIN_SRC, MAX_SRC>::lo()) && Self::holds(
                RangedUsize::<MIN_SRC, MAX_SRC>::hi(),
            )),
    {
    }

    fn ranged_from(value: RangedUsize<MIN_SRC, MAX_SRC>) -> (r: Self) {
        Self::new_unchecked(value.get() as i128)
    }
}

impl<
    const MIN_SRC: u8,
    const MAX_SRC: u8,
    const MIN_DST: u128,
    const MAX_DST: u128,
> RangedFrom<RangedI8<MIN_SRC, MAX_SRC>> for RangedI128<MIN_DST, MAX_DST> {
    open spec fn covers() -> bool {
        &&& Self::lo() <= RangedI8::<MIN_SRC, MAX_SRC>::lo()
        &&& RangedI8::<MIN_SRC, MAX_SRC>::hi() <= Self::hi()
    }

    proof fn law_covers()
        ensures
            RangedI8::<MIN_SRC, MAX_SRC>::valid() ==> (<Self as RangedFrom<
                RangedI8<MIN_SRC, MAX_SRC>,
            >>::covers() <==> Self::holds(RangedI8::<MIN_SRC, MAX_SRC>::lo()) && Self::holds(
                RangedI8::<MIN_SRC, MAX_SRC>::hi(),
            )),
    {
    }

    fn ranged_from(value: RangedI8<MIN_SRC, MAX_SRC>) -> (r: Self) {
        Self::new_unchecked(value.get() as i128)
    }
}

impl<
    const MIN_SRC: u16,
    const MAX_SRC: u16,
    const MIN_DST: u128,
    const MAX_DST: u128,
> RangedFrom<RangedI16<MIN_SRC, MAX_SRC>> for RangedI128<MIN_DST, MAX_DST> {
    open spec fn covers() -> bool {
        &&& Self::lo() <= RangedI16::<MIN_SRC, MAX_SRC>::lo()
        &&& RangedI16::<MIN_SRC, MAX_SRC>::hi() <= Self::hi()
    }

    proof fn law_covers()
        ensures
            RangedI16::<MIN_SRC, MAX_SRC>::valid() ==> (<Self as RangedFrom<
                RangedI16<MIN_SRC, MAX_SRC>,
            >>::covers() <==> Self::holds(RangedI16::<MIN_SRC, MAX_SRC>::lo()) && Self::holds(
                RangedI16::<MIN_SRC, MAX_SRC>::hi(),
            )),
    {
    }

    fn ranged_from(value: RangedI16<MIN_SRC, MAX_SRC>) -> (r: Self) {
        Self::new_unchecked(value.get() as i128)
    }
}

impl<
    const MIN_SRC: u32,
    const MAX_SRC: u32,
    const MIN_DST: u128,
    const MAX_DST: u128,
> RangedFrom<RangedI32<MIN_SRC, MAX_SRC>> for RangedI128<MIN_DST, MAX_DST> {
    open spec fn covers() -> bool {
        &&& Self::lo() <= RangedI32::<MIN_SRC, MAX_SRC>::lo()
        &&& RangedI32::<MIN_SRC, MAX_SRC>::hi() <= Self::hi()
    }

    proof fn law_covers()
        ensures
            RangedI32::<MIN_SRC, MAX_SRC>::valid() ==> (<Self as RangedFrom<
                RangedI32<MIN_SRC, MAX_SRC>,
            >>::covers() <==> Self::holds(RangedI32::<MIN_SRC, MAX_SRC>::lo()) && Self::holds(
                RangedI32::<MIN_SRC, MAX_SRC>::hi(),
            )),
    {
    }

    fn ranged_from(value: RangedI32<MIN_SRC, MAX_SRC>) -> (r: Self) {
        Self::new_unchecked(value.get() as i128)
    }
}

impl<
    const MIN_SRC: u64,
    const MAX_SRC: u64,
    const MIN_DST: u128,
    const MAX_DST: u128,
> RangedFrom<RangedI64<MIN_SRC, MAX_SRC>> for RangedI128<MIN_DST, MAX_DST> {
    open spec fn covers() -> bool {
        &&& Self::lo() <= RangedI64::<MIN_SRC, MAX_SRC>::lo()
        &&& RangedI64::<MIN_SRC, MAX_SRC>::hi() <= Self::hi()
    }

    proof fn law_covers()
        ensures
            RangedI64::<MIN_SRC, MAX_SRC>::valid() ==> (<Self as RangedFrom<
                RangedI64<MIN_SRC, MAX_SRC>,
            >>::covers() <==> Self::holds(RangedI64::<MIN_SRC, MAX_SRC>::lo()) && Self::holds(
                RangedI64::<MIN_SRC, MAX_SRC>::hi(),
            )),
    {
    }

    fn ranged_from(value: RangedI64<MIN_SRC, MAX_SRC>) -> (r: Self) {
        Self::new_unchecked(value.get() as i128)
    }
}

impl<
    const MIN_SRC: usize,
    const MAX_SRC: usize,
    const MIN_DST: u128,
    const MAX_DST: u128,
> RangedFrom<RangedIsize<MIN_SRC, MAX_SRC>> for RangedI128<MIN_DST, MAX_DST> {
    open spec fn covers() -> bool {
        &&& Self::lo() <= RangedIsize::<MIN_SRC, MAX_SRC>::lo()
        &&& RangedIsize::<MIN_SRC, MAX_SRC>::hi() <= Self::hi()
    }

    proof fn law_covers()
        ensures
            RangedIsize::<MIN_SRC, MAX_SRC>::valid() ==> (<Self as RangedFrom<
                RangedIsize<MIN_SRC, MAX_SRC>,
            >>::covers() <==> Self::holds(RangedIsize::<MIN_SRC, MAX_SRC>::lo()) && Self::holds(
                RangedIsize::<MIN_SRC, MAX_SRC>::hi(),
            )),
    {
    }

    fn ranged_from(value: RangedIsize<MIN_SRC, MAX_SRC>) -> (r: Self) {
        Self::new_unchecked(value.get() as i128)
    }
}

impl<
    const MIN_SRC: u8,
    const MAX_SRC: u8,
    const MIN_DST: usize,
    const MAX_DST: usize,
> RangedFrom<RangedU8<MIN_SRC, MAX_SRC>> for RangedIsize<MIN_DST, MAX_DST> {
    open spec fn covers() -> bool {
        &&& Self::lo() <= RangedU8::<MIN_SRC, MAX_SRC>::lo()
        &&& RangedU8::<MIN_SRC, MAX_SRC>::hi() <= Self::hi()
    }

    proof fn law_covers()
        ensures
            RangedU8::<MIN_SRC, MAX_SRC>::valid() ==> (<Self as RangedFrom<
                RangedU8<MIN_SRC, MAX_SRC>,
            >>::covers() <==> Self::holds(RangedU8::<MIN_SRC, MAX_SRC>::lo()) && Self::holds(
                RangedU8::<MIN_SRC, MAX_SRC>::hi(),
            )),
    {
    }

    fn ranged_from(value: RangedU8<MIN_SRC, MAX_SRC>) -> (r: Self) {
        Self::new_unchecked(value.get() as isize)
    }
}

impl<
    const MIN_SRC: u16,
    const MAX_SRC: u16,
    const MIN_DST: usize,
    const MAX_DST: usize,
> RangedFrom<RangedU16<MIN_SRC, MAX_SRC>> for RangedIsize<MIN_DST, MAX_DST> {
    open spec fn covers() -> bool {
        &&& Self::lo() <= RangedU16::<MIN_SRC, MAX_SRC>::lo()
        &&& RangedU16::<MIN_SRC, MAX_SRC>::hi() <= Self::hi()
    }

    proof fn law_covers()
        ensures
            RangedU16::<MIN_SRC, MAX_SRC>::valid() ==> (<Self as RangedFrom<
                RangedU16<MIN_SRC, MAX_SRC>,
            >>::covers() <==> Self::holds(RangedU16::<MIN_SRC, MAX_SRC>::lo()) && Self::holds(
                RangedU16::<MIN_SRC, MAX_SRC>::hi(),
            )),
    {
    }

    fn ranged_from(value: RangedU16<MIN_SRC, MAX_SRC>) -> (r: Self) {
        Self::new_unchecked(value.get() as isize)
    }
}

impl<
    const MIN_SRC: u32,
    const MAX_SRC: u32,
    const MIN_DST: usize,
    const MAX_DST: usize,
> RangedFrom<RangedU32<MIN_SRC, MAX_SRC>> for RangedIsize<MIN_DST, MAX_DST> {
    open spec fn covers() -> bool {
        &&& Self::lo() <= RangedU32::<MIN_SRC, MAX_SRC>::lo()
        &&& RangedU32::<MIN_SRC, MAX_SRC>::hi() <= Self::hi()
    }

    proof fn law_covers()
        ensures
            RangedU32::<MIN_SRC, MAX_SRC>::valid() ==> (<Self as RangedFrom<
                RangedU32<MIN_SRC, MAX_SRC>,
            >>::covers() <==> Self::holds(RangedU32::<MIN_SRC, MAX_SRC>::lo()) && Self::holds(
                RangedU32::<MIN_SRC, MAX_SRC>::hi(),
            )),
    {
    }

    fn ranged_from(value: RangedU32<MIN_SRC, MAX_SRC>) -> (r: Self) {
        Self::new_unchecked(value.get() as isize)
    }
}

impl<
    const MIN_SRC: u64,
    const MAX_SRC: u64,
    const MIN_DST: usize,
    const MAX_DST: usize,
> RangedFrom<RangedU64<MIN_SRC, MAX_SRC>> for RangedIsize<MIN_DST, MAX_DST> {
    open spec fn covers() -> bool {
        &&& Self::lo() <= RangedU64::<MIN_SRC, MAX_SRC>::lo()
        &&& RangedU64::<MIN_SRC, MAX_SRC>::hi() <= Self::hi()
    }

    proof fn law_covers()
        ensures
            RangedU64::<MIN_SRC, MAX_SRC>::valid() ==> (<Self as RangedFrom<
                RangedU64<MIN_SRC, MAX_SRC>,
            >>::covers() <==> Self::holds(RangedU64::<MIN_SRC, MAX_SRC>::lo()) && Self::holds(
                RangedU64::<MIN_SRC, MAX_SRC>::hi(),
            )),
    {
    }

    fn ranged_from(value: RangedU64<MIN_SRC, MAX_SRC>) -> (r: Self) {
        Self::new_unchecked(value.get() as isize)
    }
}

impl<
    const MIN_SRC: u128,
    const MAX_SRC: u128,
    const MIN_DST: usize,
    const MAX_DST: usize,
> RangedFrom<RangedU128<MIN_SRC, MAX_SRC>> for RangedIsize<MIN_DST, MAX_DST> {
    open spec fn covers() -> bool {
        &&& Self::lo() <= RangedU128::<MIN_SRC, MAX_SRC>::lo()
        &&& RangedU128::<MIN_SRC, MAX_SRC>::hi() <= Self::hi()
    }

    proof fn law_covers()
        ensures
            RangedU128::<MIN_SRC, MAX_SRC>::valid() ==> (<Self as RangedFrom<
                RangedU128<MIN_SRC, MAX_SRC>,
            >>::covers() <==> Self::holds(RangedU128::<MIN_SRC, MAX_SRC>::lo()) && Self::holds(
                RangedU128::<MIN_SRC, MAX_SRC>::hi(),
            )),
    {
    }

    fn ranged_from(value: RangedU128<MIN_SRC, MAX_SRC>) -> (r: Self) {
        Self::new_unchecked(value.get() as isize)
    }
}

impl<
    const MIN_SRC: usize,
    const MAX_SRC: usize,
    const MIN_DST: usize,
    const MAX_DST: usize,
> RangedFrom<RangedUsize<MIN_SRC, MAX_SRC>> for RangedIsize<MIN_DST, MAX_DST> {
    open spec fn covers() -> bool {
        &&& Self::lo() <= RangedUsize::<MIN_SRC, MAX_SRC>::lo()
        &&& RangedUsize::<MIN_SRC, MAX_SRC>::hi() <= Self::hi()
    }

    proof fn law_covers()
        ensures
            RangedUsize::<MIN_SRC, MAX_SRC>::valid() ==> (<Self as RangedFrom<
                RangedUsize<MIN_SRC, MAX_SRC>,
            >>::covers() <==> Self::holds(RangedUsize::<MIN_SRC, MAX_SRC>::lo()) && Self::holds(
                RangedUsize::<MIN_SRC, MAX_SRC>::hi(),
            )),
    {
    }

    fn ranged_from(value: RangedUsize<MIN_SRC, MAX_SRC>) -> (r: Self) {
        Self::new_unchecked(value.get() as isize)
    }
}

impl<
    const MIN_SRC: u8,
    const MAX_SRC: u8,
    const MIN_DST: usize,
    const MAX_DST: usize,
> RangedFrom<RangedI8<MIN_SRC, MAX_SRC>> for RangedIsize<MIN_DST, MAX_DST> {
    open spec fn covers() -> bool {
        &&& Self::lo() <= RangedI8::<MIN_SRC, MAX_SRC>::lo()
        &&& RangedI8::<MIN_SRC, MAX_SRC>::hi() <= Self::hi()
    }

    proof fn law_covers()
        ensures
            RangedI8::<MIN_SRC, MAX_SRC>::valid() ==> (<Self as RangedFrom<
                RangedI8<MIN_SRC, MAX_SRC>,
            >>::covers() <==> Self::holds(RangedI8::<MIN_SRC, MAX_SRC>::lo()) && Self::holds(
                RangedI8::<MIN_SRC, MAX_SRC>::hi(),
            )),
    {
    }

    fn ranged_from(value: RangedI8<MIN_SRC, MAX_SRC>) -> (r: Self) {
        Self::new_unchecked(value.get() as isize)
    }
}

impl<
    const MIN_SRC: u16,
    const MAX_SRC: u16,
    const MIN_DST: usize,
    const MAX_DST: usize,
> RangedFrom<RangedI16<MIN_SRC, MAX_SRC>> for RangedIsize<MIN_DST, MAX_DST> {
    open spec fn covers() -> bool {
        &&& Self::lo() <= RangedI16::<MIN_SRC, MAX_SRC>::lo()
        &&& RangedI16::<MIN_SRC, MAX_SRC>::hi() <= Self::hi()
    }

    proof fn law_covers()
        ensures
            RangedI16::<MIN_SRC, MAX_SRC>::valid() ==> (<Self as RangedFrom<
                RangedI16<MIN_SRC, MAX_SRC>,
            >>::covers() <==> Self::holds(RangedI16::<MIN_SRC, MAX_SRC>::lo()) && Self::holds(
                RangedI16::<MIN_SRC, MAX_SRC>::hi(),
            )),
    {
    }

    fn ranged_from(value: RangedI16<MIN_SRC, MAX_SRC>) -> (r: Self) {
        Self::new_unchecked(value.get() as isize)
    }
}

impl<
    const MIN_SRC: u32,
    const MAX_SRC: u32,
    const MIN_DST: usize,
    const MAX_DST: usize,
> RangedFrom<RangedI32<MIN_SRC, MAX_SRC>> for RangedIsize<MIN_DST, MAX_DST> {
    open spec fn covers() -> bool {
        &&& Self::lo() <= RangedI32::<MIN_SRC, MAX_SRC>::lo()
        &&& RangedI32::<MIN_SRC, MAX_SRC>::hi() <= Self::hi()
    }

    proof fn law_covers()
        ensures
            RangedI32::<MIN_SRC, MAX_SRC>::valid() ==> (<Self as RangedFrom<
                RangedI32<MIN_SRC, MAX_SRC>,
            >>::covers() <==> Self::holds(RangedI32::<MIN_SRC, MAX_SRC>::lo()) && Self::holds(
                RangedI32::<MIN_SRC, MAX_SRC>::hi(),
            )),
    {
    }

    fn ranged_from(value: RangedI32<MIN_SRC, MAX_SRC>) -> (r: Self) {
        Self::new_unchecked(value.get() as isize)
    }
}

impl<
    const MIN_SRC: u64,
    const MAX_SRC: u64,
    const MIN_DST: usize,
    const MAX_DST: usize,
> RangedFrom<RangedI64<MIN_SRC, MAX_SRC>> for RangedIsize<MIN_DST, MAX_DST> {
    open spec fn covers() -> bool {
        &&& Self::lo() <= RangedI64::<MIN_SRC, MAX_SRC>::lo()
        &&& RangedI64::<MIN_SRC, MAX_SRC>::hi() <= Self::hi()
    }

    proof fn law_covers()
        ensures
            RangedI64::<MIN_SRC, MAX_SRC>::valid() ==> (<Self as RangedFrom<
                RangedI64<MIN_SRC, MAX_SRC>,
            >>::covers() <==> Self::holds(RangedI64::<MIN_SRC, MAX_SRC>::lo()) && Self::holds(
                RangedI64::<MIN_SRC, MAX_SRC>::hi(),
            )),
    {
    }

    fn ranged_from(value: RangedI64<MIN_SRC, MAX_SRC>) -> (r: Self) {
        Self::new_unchecked(value.get() as isize)
    }
}

impl<
    const MIN_SRC: u128,
    const MAX_SRC: u128,
    const MIN_DST: usize,
    const MAX_DST: usize,
> RangedFrom<RangedI128<MIN_SRC, MAX_SRC>> for RangedIsize<MIN_DST, MAX_DST> {
    open spec fn covers() -> bool {
        &&& Self::lo() <= RangedI128::<MIN_SRC, MAX_SRC>::lo()
        &&& RangedI128::<MIN_SRC, MAX_SRC>::hi() <= Self::hi()
    }

    proof fn law_covers()
        ensures
            RangedI128::<MIN_SRC, MAX_SRC>::valid() ==> (<Self as RangedFrom<
                RangedI128<MIN_SRC, MAX_SRC>,
            >>::covers() <==> Self::holds(RangedI128::<MIN_SRC, MAX_SRC>::lo()) && Self::holds(
                RangedI128::<MIN_SRC, MAX_SRC>::hi(),
            )),
    {
    }

    fn ranged_from(value: RangedI128<MIN_SRC, MAX_SRC>) -> (r: Self) {
        Self::new_unchecked(value.get() as isize)
    }
}

} // verus!
