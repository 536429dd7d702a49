# deranged

Ranged integers, verified with Verus: integers that are known to be in a range `MIN..=MAX`, and
optional ones that take no more space than the integer.

For each primitive integer type there is a ranged type (`RangedU8` ... `RangedIsize`) and an optional
one (`OptionRangedU8` ... `OptionRangedIsize`). The bounds of the signed types are given by their
two's complement patterns, because const parameters are unsigned here: `RangedI8<251, 5>` holds
`-5..=5`. `words::i8_to_bits` and its like give the pattern of a negative bound.

## Layout

- `src/math.rs`: the integer model of the contracts (clamping, wrapping, rounding, two's complement)
  and its laws.
- `src/parse.rs`, `src/decimal.rs`: integers from and to text.
- `src/bytes.rs`: the stored form, the lowest byte first.
- `src/json.rs`: the human-readable form and its schema.
- `src/shift.rs`, `src/words.rs`: what shifts do to integers, and words as signed integers.
- `src/numeric.rs`, `src/unstructured.rs`, `src/random.rs`: the calls into the crates `bigdecimal`,
  `arbitrary` and `quickcheck`, with what is trusted of them.
- `src/ranged_*.rs`: the types, one file for each primitive integer.
- `src/convert.rs`: conversions between the types.
- `tests/`: tests on concrete values, also against the primitive integers and the outside crates.
- `app/`: words that implement the traits of other crates by calling the library.
