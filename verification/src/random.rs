//! Random integers and their shrinking, by the `quickcheck` crate.

use quickcheck::{Arbitrary, Gen};
use vstd::prelude::*;

use crate::math::magnitude;

verus! {

/// The `quickcheck` crate's random generator.
#[verifier::external_type_specification]
#[verifier::external_body]
pub struct ExGen(quickcheck::Gen);

/// Half of a step, rounded towards zero.
pub open spec fn halved(step: int) -> int {
    if step < 0 {
        -((-step) / 2)
    } else {
        step / 2
    }
}

/// What is `step` away from `v`, then half a step, and so on until the step is zero.
pub open spec fn approaching(v: int, step: int) -> Seq<int>
    decreases magnitude(step),
{
    if step == 0 {
        Seq::empty()
    } else {
        seq![v - step] + approaching(v, halved(step))
    }
}

/// The integers to try in the place of `v` in a word whose least value is `least`: zero, the opposite
/// of one below minus one if the word holds it, then those that approach `v` in halving steps.
pub open spec fn shrink_candidates(v: int, least: int) -> Seq<int> {
    if v == 0 {
        Seq::empty()
    } else {
        seq![0int] + (if v < -1 && v != least {
            seq![-v]
        } else {
            Seq::empty()
        }) + approaching(v, halved(v))
    }
}

/// What approaches a value is between zero and the value, without them.
proof fn lemma_approaching(v: int, step: int, i: int)
    requires
        0 <= i < approaching(v, step).len(),
        0 < step < v || v < step < 0 || step == 0,
    ensures
        0 < approaching(v, step)[i] < v || v < approaching(v, step)[i] < 0,
    decreases magnitude(step),
{
    if i > 0 {
        assert(approaching(v, step)[i] == approaching(v, halved(step))[i - 1]);
        lemma_approaching(v, halved(step), i - 1);
    }
}

/// Each step towards a value is half of the one before, rounded towards zero, and the last one is one.
proof fn lemma_approaching_steps(v: int, step: int, i: int)
    requires
        0 <= i < approaching(v, step).len(),
    ensures
        i == 0 ==> v - approaching(v, step)[i] == step,
        i > 0 ==> v - approaching(v, step)[i] == halved(v - approaching(v, step)[i - 1]),
        i == approaching(v, step).len() - 1 ==> magnitude(v - approaching(v, step)[i]) == 1,
    decreases magnitude(step),
{
    let rest = approaching(v, halved(step));
    if i > 0 {
        assert(approaching(v, step)[i] == rest[i - 1]);
        lemma_approaching_steps(v, halved(step), i - 1);
        if i > 1 {
            assert(approaching(v, step)[i - 1] == rest[i - 2]);
        }
    } else if rest.len() == 0 {
        assert(halved(step) == 0);
    }
}

/// Half of a step, rounded towards zero, has its sign; twice the half is the step, or one short of it.
pub proof fn law_halved(step: int)
    ensures
        step >= 0 ==> 2 * halved(step) <= step <= 2 * halved(step) + 1,
        step <= 0 ==> 2 * halved(step) - 1 <= step <= 2 * halved(step),
{
}

/// Zero has no candidates. Those of another value begin with zero and, for one below minus one whose
/// opposite the word holds, the opposite. Of the rest the first is half the value away from it, each is
/// half as far as the one before, and the last is next to the value.
pub proof fn law_candidates(v: int, least: int, i: int)
    ensures
        v == 0 ==> shrink_candidates(v, least).len() == 0,
        v != 0 ==> shrink_candidates(v, least).len() >= 1 && shrink_candidates(v, least)[0] == 0,
        v == 1 || v == -1 ==> shrink_candidates(v, least).len() == 1,
        v < -1 && v != least ==> shrink_candidates(v, least).len() >= 3 && shrink_candidates(
            v,
            least,
        )[1] == -v && v - shrink_candidates(v, least)[2] == halved(v),
        v > 1 || (v < -1 && v == least) ==> shrink_candidates(v, least).len() >= 2 && v
            - shrink_candidates(v, least)[1] == halved(v),
        2 <= i < shrink_candidates(v, least).len() && (i > 2 || v > 1 || v == least) ==> v
            - shrink_candidates(v, least)[i] == halved(v - shrink_candidates(v, least)[i - 1]),
        v > 1 ==> v - shrink_candidates(v, least).last() == 1,
        v < -1 ==> shrink_candidates(v, least).last() - v == 1,
{
    let near = approaching(v, halved(v));
    let all = shrink_candidates(v, least);
    let first = (all.len() - near.len()) as int;
    if v > 1 || v < -1 {
        assert(near.len() > 0);
        assert(all[first] == near[0]);
        lemma_approaching_steps(v, halved(v), 0);
        assert(all.last() == near.last());
        lemma_approaching_steps(v, halved(v), near.len() - 1);
        lemma_approaching(v, halved(v), near.len() - 1);
        if first < i < all.len() {
            assert(all[i] == near[i - first]);
            assert(all[i - 1] == near[i - first - 1]);
            lemma_approaching_steps(v, halved(v), i - first);
        }
    }
}

/// No candidate is the value itself, and none is farther from zero.
pub proof fn law_candidates_are_smaller(v: int, least: int, i: int)
    requires
        0 <= i < shrink_candidates(v, least).len(),
    ensures
        shrink_candidates(v, least)[i] != v,
        magnitude(shrink_candidates(v, least)[i]) <= magnitude(v),
{
    let near = approaching(v, halved(v));
    let first = (shrink_candidates(v, least).len() - near.len()) as int;
    if i >= first {
        assert(shrink_candidates(v, least)[i] == near[i - first]);
        lemma_approaching(v, halved(v), i - first);
    }
}

/// `<bool as quickcheck::Arbitrary>::arbitrary`: a random boolean. Nothing more is known of it.
#[verifier::external_body]
pub(crate) fn random_bool(g: &mut Gen) -> bool {
    bool::arbitrary(g)
}

/// `<u8 as quickcheck::Arbitrary>::arbitrary`: a random `u8`. Nothing more is known of it.
#[verifier::external_body]
pub(crate) fn random_u8(g: &mut Gen) -> u8 {
    u8::arbitrary(g)
}

/// `<u8 as quickcheck::Arbitrary>::shrink`: the integers to try in the place of `v`.
#[verifier::external_body]
pub(crate) fn shrink_u8(v: u8) -> (r: Vec<u8>)
    ensures
        r@.map_values(|c: u8| c as int) == shrink_candidates(v as int, u8::MIN as int),
{
    v.shrink().collect()
}

/// `<u16 as quickcheck::Arbitrary>::arbitrary`: a random `u16`. Nothing more is known of it.
#[verifier::external_body]
pub(crate) fn random_u16(g: &mut Gen) -> u16 {
    u16::arbitrary(g)
}

/// `<u16 as quickcheck::Arbitrary>::shrink`: the integers to try in the place of `v`.
#[verifier::external_body]
pub(crate) fn shrink_u16(v: u16) -> (r: Vec<u16>)
    ensures
        r@.map_values(|c: u16| c as int) == shrink_candidates(v as int, u16::MIN as int),
{
    v.shrink().collect()
}

/// `<u32 as quickcheck::Arbitrary>::arbitrary`: a random `u32`. Nothing more is known of it.
#[verifier::external_body]
pub(crate) fn random_u32(g: &mut Gen) -> u32 {
    u32::arbitrary(g)
}

/// `<u32 as quickcheck::Arbitrary>::shrink`: the integers to try in the place of `v`.
#[verifier::external_body]
pub(crate) fn shrink_u32(v: u32) -> (r: Vec<u32>)
    ensures
        r@.map_values(|c: u32| c as int) == shrink_candidates(v as int, u32::MIN as int),
{
    v.shrink().collect()
}

/// `<u64 as quickcheck::Arbitrary>::arbitrary`: a random `u64`. Nothing more is known of it.
#[verifier::external_body]
pub(crate) fn random_u64(g: &mut Gen) -> u64 {
    u64::arbitrary(g)
}

/// `<u64 as quickcheck::Arbitrary>::shrink`: the integers to try in the place of `v`.
#[verifier::external_body]
pub(crate) fn shrink_u64(v: u64) -> (r: Vec<u64>)
    ensures
        r@.map_values(|c: u64| c as int) == shrink_candidates(v as int, u64::MIN as int),
{
    v.shrink().collect()
}

/// `<u128 as quickcheck::Arbitrary>::arbitrary`: a random `u128`. Nothing more is known of it.
#[verifier::external_body]
pub(crate) fn random_u128(g: &mut Gen) -> u128 {
    u128::arbitrary(g)
}

/// `<u128 as quickcheck::Arbitrary>::shrink`: the integers to try in the place of `v`.
#[verifier::external_body]
pub(crate) fn shrink_u128(v: u128) -> (r: Vec<u128>)
    ensures
        r@.map_values(|c: u128| c as int) == shrink_candidates(v as int, u128::MIN as int),
{
    v.shrink().collect()
}

/// `<usize as quickcheck::Arbitrary>::arbitrary`: a random `usize`. Nothing more is known of it.
#[verifier::external_body]
pub(crate) fn random_usize(g: &mut Gen) -> usize {
    usize::arbitrary(g)
}

/// `<usize as quickcheck::Arbitrary>::shrink`: the integers to try in the place of `v`.
#[verifier::external_body]
pub(crate) fn shrink_usize(v: usize) -> (r: Vec<usize>)
    ensures
        r@.map_values(|c: usize| c as int) == shrink_candidates(v as int, usize::MIN as int),
{
    v.shrink().collect()
}

/// `<i8 as quickcheck::Arbitrary>::arbitrary`: a random `i8`. Nothing more is known of it.
#[verifier::external_body]
pub(crate) fn random_i8(g: &mut Gen) -> i8 {
    i8::arbitrary(g)
}

/// `<i8 as quickcheck::Arbitrary>::shrink`: the integers to try in the place of `v`.
#[verifier::external_body]
pub(crate) fn shrink_i8(v: i8) -> (r: Vec<i8>)
    ensures
        r@.map_values(|c: i8| c as int) == shrink_candidates(v as int, i8::MIN as int),
{
    v.shrink().collect()
}

/// `<i16 as quickcheck::Arbitrary>::arbitrary`: a random `i16`. Nothing more is known of it.
#[verifier::external_body]
pub(crate) fn random_i16(g: &mut Gen) -> i16 {
    i16::arbitrary(g)
}

/// `<i16 as quickcheck::Arbitrary>::shrink`: the integers to try in the place of `v`.
#[verifier::external_body]
pub(crate) fn shrink_i16(v: i16) -> (r: Vec<i16>)
    ensures
        r@.map_values(|c: i16| c as int) == shrink_candidates(v as int, i16::MIN as int),
{
    v.shrink().collect()
}

/// `<i32 as quickcheck::Arbitrary>::arbitrary`: a random `i32`. Nothing more is known of it.
#[verifier::external_body]
pub(crate) fn random_i32(g: &mut Gen) -> i32 {
    i32::arbitrary(g)
}

/// `<i32 as quickcheck::Arbitrary>::shrink`: the integers to try in the place of `v`.
#[verifier::external_body]
pub(crate) fn shrink_i32(v: i32) -> (r: Vec<i32>)
    ensures
        r@.map_values(|c: i32| c as int) == shrink_candidates(v as int, i32::MIN as int),
{
    v.shrink().collect()
}

/// `<i64 as quickcheck::Arbitrary>::arbitrary`: a random `i64`. Nothing more is known of it.
#[verifier::external_body]
pub(crate) fn random_i64(g: &mut Gen) -> i64 {
    i64::arbitrary(g)
}

/// `<i64 as quickcheck::Arbitrary>::shrink`: the integers to try in the place of `v`.
#[verifier::external_body]
pub(crate) fn shrink_i64(v: i64) -> (r: Vec<i64>)
    ensures
        r@.map_values(|c: i64| c as int) == shrink_candidates(v as int, i64::MIN as int),
{
    v.shrink().collect()
}

/// `<i128 as quickcheck::Arbitrary>::arbitrary`: a random `i128`. Nothing more is known of it.
#[verifier::external_body]
pub(crate) fn random_i128(g: &mut Gen) -> i128 {
    i128::arbitrary(g)
}

/// `<i128 as quickcheck::Arbitrary>::shrink`: the integers to try in the place of `v`.
#[verifier::external_body]
pub(crate) fn shrink_i128(v: i128) -> (r: Vec<i128>)
    ensures
        r@.map_values(|c: i128| c as int) == shrink_candidates(v as int, i128::MIN as int),
{
    v.shrink().collect()
}

/// `<isize as quickcheck::Arbitrary>::arbitrary`: a random `isize`. Nothing more is known of it.
#[verifier::external_body]
pub(crate) fn random_isize(g: &mut Gen) -> isize {
    isize::arbitrary(g)
}

/// `<isize as quickcheck::Arbitrary>::shrink`: the integers to try in the place of `v`.
#[verifier::external_body]
pub(crate) fn shrink_isize(v: isize) -> (r: Vec<isize>)
    ensures
        r@.map_values(|c: isize| c as int) == shrink_candidates(v as int, isize::MIN as int),
{
    v.shrink().collect()
}

} // verus!
