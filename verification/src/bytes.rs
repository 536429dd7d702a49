//! The little-endian byte form of integers, in which they are stored.

use vstd::arithmetic::div_mod::lemma_div_denominator;
use vstd::arithmetic::power::{lemma_pow0, lemma_pow_positive, pow};
use vstd::prelude::*;

verus! {

/// Why stored bytes are no value of a type.
#[derive(Debug, Clone, Copy, PartialEq, Eq, Structural)]
pub enum StoredBytesError {
    /// There are not as many bytes as the integer takes.
    Width,
    /// The integer that the bytes stand for is out of range.
    Range,
}

/// The `width` lowest bytes of `n`, the lowest one first.
pub open spec fn le_bytes(n: nat, width: nat) -> Seq<u8>
    decreases width,
{
    if width == 0 {
        Seq::empty()
    } else {
        seq![(n % 256) as u8] + le_bytes(n / 256, (width - 1) as nat)
    }
}

/// The integer whose bytes these are, the lowest one first.
pub open spec fn le_value(bytes: Seq<u8>) -> nat
    decreases bytes.len(),
{
    if bytes.len() == 0 {
        0
    } else {
        bytes[0] as nat + 256 * le_value(bytes.skip(1))
    }
}

/// There are `width` bytes, and reading them gives the integer back, if it fits into them.
pub proof fn law_le_value_reads_bytes(n: nat, width: nat)
    ensures
        le_bytes(n, width).len() == width,
        n < pow(256, width) ==> le_value(le_bytes(n, width)) == n,
    decreases width,
{
    reveal(pow);
    let bytes = le_bytes(n, width);
    if width > 0 {
        law_le_value_reads_bytes(n / 256, (width - 1) as nat);
        assert(bytes.skip(1) =~= le_bytes(n / 256, (width - 1) as nat));
        if n < pow(256, width) {
            assert(n / 256 < pow(256, (width - 1) as nat));
        }
    } else {
        lemma_pow0(256);
    }
}

/// The byte at each place is the digit of the integer at that place, to the base 256.
pub proof fn law_byte_at(n: nat, width: nat, i: nat)
    requires
        i < width,
    ensures
        le_bytes(n, width).len() == width,
        le_bytes(n, width)[i as int] == ((n as int) / pow(256, i)) % 256,
    decreases width,
{
    reveal(pow);
    law_le_value_reads_bytes(n, width);
    let rest = le_bytes(n / 256, (width - 1) as nat);
    law_le_value_reads_bytes(n / 256, (width - 1) as nat);
    assert(le_bytes(n, width) == seq![(n % 256) as u8] + rest);
    if i > 0 {
        law_byte_at(n / 256, (width - 1) as nat, (i - 1) as nat);
        lemma_pow_positive(256, (i - 1) as nat);
        lemma_div_denominator(n as int, 256, pow(256, (i - 1) as nat));
    } else {
        lemma_pow0(256);
    }
}

/// Bytes stand for an integer that fits into them, and they are the bytes of that integer.
pub proof fn law_le_bytes_of_value(bytes: Seq<u8>)
    ensures
        le_value(bytes) < pow(256, bytes.len()),
        le_bytes(le_value(bytes), bytes.len()) == bytes,
    decreases bytes.len(),
{
    reveal(pow);
    if bytes.len() > 0 {
        let rest = bytes.skip(1);
        law_le_bytes_of_value(rest);
        let n = le_value(bytes);
        assert(n / 256 == le_value(rest));
        assert(n % 256 == bytes[0]);
        assert(le_bytes(n, bytes.len()) =~= bytes);
    } else {
        lemma_pow0(256);
        assert(le_bytes(0, 0) =~= bytes);
    }
}

/// The number of states of a word of so many bytes.
pub(crate) proof fn lemma_word_states()
    ensures
        pow(256, 1) == 0x100,
        pow(256, 2) == 0x1_0000,
        pow(256, 4) == 0x1_0000_0000,
        pow(256, 8) == 0x1_0000_0000_0000_0000,
        pow(256, 16) == 0x1_0000_0000_0000_0000_0000_0000_0000_0000,
{
    reveal_with_fuel(pow, 17);
}

/// The lowest bytes of a value.
pub(crate) fn write_le(n: u128, width: usize) -> (r: Vec<u8>)
    requires
        width <= 16,
    ensures
        r@ == le_bytes(n as nat, width as nat),
{
    let mut bytes: Vec<u8> = Vec::new();
    let mut rest: u128 = n;
    let mut i: usize = 0;
    while i < width
        invariant
            i <= width,
            bytes@ + le_bytes(rest as nat, (width - i) as nat) == le_bytes(n as nat, width as nat),
        decreases width - i,
    {
        let ghost before = bytes@;
        bytes.push((rest % 256) as u8);
        proof {
            let tail = le_bytes((rest / 256) as nat, (width - i - 1) as nat);
            assert(before + le_bytes(rest as nat, (width - i) as nat) =~= bytes@ + tail);
        }
        rest = rest / 256;
        i = i + 1;
    }
    assert(bytes@ + le_bytes(rest as nat, 0) =~= bytes@);
    bytes
}

/// The value of at most sixteen bytes.
pub(crate) fn read_le(bytes: &[u8]) -> (r: u128)
    requires
        bytes@.len() <= 16,
    ensures
        r == le_value(bytes@),
{
    let mut n: u128 = 0;
    let mut i: usize = bytes.len();
    assert(bytes@.skip(i as int) =~= Seq::<u8>::empty());
    while i > 0
        invariant
            i <= bytes@.len() <= 16,
            n == le_value(bytes@.skip(i as int)),
        decreases i,
    {
        proof {
            let longer = bytes@.skip(i - 1);
            assert(longer.skip(1) =~= bytes@.skip(i as int));
            law_le_bytes_of_value(longer);
            lemma_word_states();
            lemma_states_monotonic(longer.len(), 16);
        }
        i = i - 1;
        n = n * 256 + bytes[i] as u128;
    }
    assert(bytes@.skip(0) =~= bytes@);
    n
}

/// A wider word has no fewer states.
proof fn lemma_states_monotonic(a: nat, b: nat)
    requires
        a <= b,
    ensures
        pow(256, a) <= pow(256, b),
    decreases b,
{
    reveal(pow);
    if a < b {
        lemma_states_monotonic(a, (b - 1) as nat);
        lemma_pow_positive(256, (b - 1) as nat);
    }
}

} // verus!
