//! Writing integers as decimal text.

use vstd::arithmetic::power::{lemma_pow1, pow};
use vstd::prelude::*;
use vstd::string::*;

use crate::error::IntErrorKind;
use crate::parse::{digit_value, digits_value, parsed, DigitFault};

verus! {

/// The digit for a value below ten.
pub open spec fn digit_char(d: int) -> char {
    if d == 0 {
        '0'
    } else if d == 1 {
        '1'
    } else if d == 2 {
        '2'
    } else if d == 3 {
        '3'
    } else if d == 4 {
        '4'
    } else if d == 5 {
        '5'
    } else if d == 6 {
        '6'
    } else if d == 7 {
        '7'
    } else if d == 8 {
        '8'
    } else {
        '9'
    }
}

/// The decimal digits of `n`, the most significant one first, without leading zeros.
pub open spec fn decimal_digits(n: nat) -> Seq<char>
    decreases n,
{
    if n < 10 {
        seq![digit_char(n as int)]
    } else {
        decimal_digits(n / 10).push(digit_char((n % 10) as int))
    }
}

/// The decimal text of `v`: its digits, after a `-` sign where it is negative.
pub open spec fn decimal(v: int) -> Seq<char> {
    if v < 0 {
        seq!['-'] + decimal_digits((-v) as nat)
    } else {
        decimal_digits(v as nat)
    }
}

/// The length of the longer of two decimal texts.
pub open spec fn longest_decimal(a: int, b: int) -> nat {
    if decimal(a).len() > decimal(b).len() {
        decimal(a).len()
    } else {
        decimal(b).len()
    }
}

/// Whether `c` is a decimal digit.
pub open spec fn is_digit(c: char) -> bool {
    '0' <= c && c <= '9'
}

/// Whether `text` is `0`, or digits of which the first is not `0`.
pub open spec fn is_canonical_unsigned(text: Seq<char>) -> bool {
    &&& text.len() >= 1
    &&& forall|i: int| 0 <= i < text.len() ==> is_digit(#[trigger] text[i])
    &&& text.len() > 1 ==> text[0] != '0'
}

/// Whether `text` is a canonical unsigned decimal, or one after a `-` sign.
pub open spec fn is_canonical_signed(text: Seq<char>) -> bool {
    if text.len() >= 1 && text[0] == '-' {
        is_canonical_unsigned(text.skip(1))
    } else {
        is_canonical_unsigned(text)
    }
}

/// The digits of an unsigned value are canonical; only those of zero begin with `0`.
pub proof fn law_digits_canonical(n: nat)
    ensures
        is_canonical_unsigned(decimal_digits(n)),
        n > 0 ==> decimal_digits(n)[0] != '0',
    decreases n,
{
    if n >= 10 {
        law_digits_canonical(n / 10);
    }
}

/// The decimal text of any integer is canonical.
pub proof fn law_decimal_canonical(v: int)
    ensures
        is_canonical_signed(decimal(v)),
        v >= 0 ==> is_canonical_unsigned(decimal(v)),
{
    if v < 0 {
        law_digits_canonical((-v) as nat);
        assert(decimal(v).skip(1) =~= decimal_digits((-v) as nat));
    } else {
        law_digits_canonical(v as nat);
    }
}

/// The decimal text of an integer is a `-` sign if it is negative, then digits, the first of which is
/// `0` only if it is the last.
pub proof fn law_decimal_form(v: int)
    ensures
        v >= 0 ==> decimal(v).len() >= 1 && (decimal(v).len() == 1 || decimal(v)[0] != '0')
            && forall|i: int|
            0 <= i < decimal(v).len() ==> '0' <= #[trigger] decimal(v)[i] && decimal(v)[i] <= '9',
        v < 0 ==> decimal(v).len() >= 2 && decimal(v)[0] == '-' && decimal(v)[1] != '0'
            && forall|i: int|
            1 <= i < decimal(v).len() ==> '0' <= #[trigger] decimal(v)[i] && decimal(v)[i] <= '9',
{
    if v < 0 {
        let digits = decimal_digits((-v) as nat);
        law_digits_canonical((-v) as nat);
        assert(decimal(v)[1] == digits[0]);
        assert forall|i: int| 1 <= i < decimal(v).len() implies '0' <= #[trigger] decimal(v)[i]
            && decimal(v)[i] <= '9' by {
            assert(decimal(v)[i] == digits[i - 1]);
            assert(is_digit(digits[i - 1]));
        }
    } else {
        law_digits_canonical(v as nat);
        assert forall|i: int| 0 <= i < decimal(v).len() implies '0' <= #[trigger] decimal(v)[i]
            && decimal(v)[i] <= '9' by {
            assert(is_digit(decimal_digits(v as nat)[i]));
        }
    }
}

/// The longer of two decimal texts is as long as one of them, and no shorter than the other.
pub proof fn law_longest_decimal(a: int, b: int)
    ensures
        longest_decimal(a, b) >= decimal(a).len(),
        longest_decimal(a, b) >= decimal(b).len(),
        longest_decimal(a, b) == decimal(a).len() || longest_decimal(a, b) == decimal(b).len(),
{
}

/// A greater value has no fewer digits.
proof fn lemma_digits_len_monotonic(m: nat, n: nat)
    requires
        m <= n,
    ensures
        1 <= decimal_digits(m).len() <= decimal_digits(n).len(),
    decreases n,
{
    if n >= 10 {
        if m >= 10 {
            lemma_digits_len_monotonic(m / 10, n / 10);
        } else {
            lemma_digits_len_monotonic(0, n / 10);
        }
    }
}

/// No integer of a range has a longer decimal text than both ends of the range.
pub proof fn law_decimal_len_in_range(lo: int, hi: int, v: int)
    requires
        lo <= v <= hi,
    ensures
        1 <= decimal(v).len(),
        decimal(v).len() <= longest_decimal(lo, hi),
{
    if v < 0 {
        lemma_digits_len_monotonic((-v) as nat, (-lo) as nat);
    } else {
        lemma_digits_len_monotonic(v as nat, hi as nat);
    }
}

/// The digits of a value have that value.
proof fn lemma_digits_read_back(n: nat, bound: int)
    requires
        n <= bound,
    ensures
        digits_value(decimal_digits(n), 10, bound) == Ok::<int, DigitFault>(n as int),
    decreases n,
{
    let text = decimal_digits(n);
    reveal_with_fuel(digits_value, 2);
    if n < 10 {
        assert(text.drop_last() =~= Seq::<char>::empty());
        assert(digit_value(text.last(), 10) == Some(n as int));
    } else {
        lemma_digits_read_back(n / 10, bound);
        assert(text.drop_last() =~= decimal_digits(n / 10));
        assert(digit_value(text.last(), 10) == Some((n % 10) as int));
    }
}

/// Parsing the decimal text of an integer that the word holds gives the integer.
pub proof fn law_parse_reads_decimal(v: int, min: int, max: int)
    requires
        min <= v <= max,
        min <= 0,
    ensures
        parsed(decimal(v), 10, min, max) == Ok::<int, IntErrorKind>(v),
{
    let text = decimal(v);
    if v < 0 {
        law_digits_canonical((-v) as nat);
        lemma_digits_read_back((-v) as nat, -min);
        assert(text.skip(1) =~= decimal_digits((-v) as nat));
    } else {
        law_digits_canonical(v as nat);
        lemma_digits_read_back(v as nat, max);
        assert(is_digit(text[0]));
    }
}

/// Different integers have different decimal texts.
pub proof fn law_decimal_injective(v: int, w: int)
    requires
        decimal(v) == decimal(w),
    ensures
        v == w,
{
    let min: int = if v < w {
        if v < 0 {
            v
        } else {
            0
        }
    } else {
        if w < 0 {
            w
        } else {
            0
        }
    };
    let max: int = if v < w {
        w
    } else {
        v
    };
    law_parse_reads_decimal(v, min, max);
    law_parse_reads_decimal(w, min, max);
}

/// The text of one digit.
fn digit_text(d: u128) -> (r: &'static str)
    requires
        d < 10,
    ensures
        r@ == seq![digit_char(d as int)],
{
    proof {
        reveal_strlit("0");
        reveal_strlit("1");
        reveal_strlit("2");
        reveal_strlit("3");
        reveal_strlit("4");
        reveal_strlit("5");
        reveal_strlit("6");
        reveal_strlit("7");
        reveal_strlit("8");
        reveal_strlit("9");
    }
    let text: &'static str = if d == 0 {
        "0"
    } else if d == 1 {
        "1"
    } else if d == 2 {
        "2"
    } else if d == 3 {
        "3"
    } else if d == 4 {
        "4"
    } else if d == 5 {
        "5"
    } else if d == 6 {
        "6"
    } else if d == 7 {
        "7"
    } else if d == 8 {
        "8"
    } else {
        "9"
    };
    assert(text@ =~= seq![digit_char(d as int)]);
    text
}

/// Appends the decimal digits of an unsigned value.
fn append_digits(text: &mut String, n: u128)
    ensures
        final(text)@ == old(text)@ + decimal_digits(n as nat),
    decreases n,
{
    if n < 10 {
        text.append(digit_text(n));
    } else {
        append_digits(text, n / 10);
        text.append(digit_text(n % 10));
    }
    assert(text@ =~= old(text)@ + decimal_digits(n as nat));
}

/// Appends the decimal text of an unsigned value.
pub(crate) fn append_unsigned(text: &mut String, v: u128)
    ensures
        final(text)@ == old(text)@ + decimal(v as int),
{
    append_digits(text, v);
}

/// Appends the decimal text of a signed value.
pub(crate) fn append_signed(text: &mut String, v: i128)
    ensures
        final(text)@ == old(text)@ + decimal(v as int),
{
    if v < 0 {
        proof {
            reveal_strlit("-");
        }
        text.append("-");
        append_digits(text, (-(v + 1)) as u128 + 1);
        assert(text@ =~= old(text)@ + decimal(v as int));
    } else {
        append_digits(text, v as u128);
    }
}

/// The decimal text of an unsigned value.
pub(crate) fn unsigned_text(v: u128) -> (r: String)
    ensures
        r@ == decimal(v as int),
{
    let mut text = String::new();
    append_unsigned(&mut text, v);
    assert(text@ =~= decimal(v as int));
    text
}

/// The decimal text of a signed value.
pub(crate) fn signed_text(v: i128) -> (r: String)
    ensures
        r@ == decimal(v as int),
{
    let mut text = String::new();
    append_signed(&mut text, v);
    assert(text@ =~= decimal(v as int));
    text
}

/// A value below the `k`th power of ten has at most `k` digits.
proof fn lemma_digits_len_bound(n: nat, k: nat)
    requires
        n < pow(10, k),
        k >= 1,
    ensures
        decimal_digits(n).len() <= k,
    decreases k,
{
    reveal(pow);
    if n >= 10 {
        if k == 1 {
            lemma_pow1(10);
        } else {
            assert(n / 10 < pow(10, (k - 1) as nat));
            lemma_digits_len_bound(n / 10, (k - 1) as nat);
        }
    }
}

/// How many decimal digits an unsigned value has.
fn digit_count(n: u128) -> (r: usize)
    ensures
        r == decimal_digits(n as nat).len(),
        1 <= r <= 39,
{
    proof {
        assert(u128::MAX < pow(10, 39)) by {
            reveal_with_fuel(pow, 40);
        }
        lemma_digits_len_bound(n as nat, 39);
    }
    let mut rest: u128 = n;
    let mut count: usize = 1;
    while rest >= 10
        invariant
            count >= 1,
            count - 1 + decimal_digits(rest as nat).len() == decimal_digits(n as nat).len(),
            decimal_digits(n as nat).len() <= 39,
        decreases rest,
    {
        rest = rest / 10;
        count = count + 1;
        proof {
            lemma_digits_len_monotonic(rest as nat, rest as nat);
        }
    }
    count
}

/// The length of the decimal text of an unsigned value.
pub(crate) fn unsigned_len(v: u128) -> (r: usize)
    ensures
        r == decimal(v as int).len(),
        1 <= r <= 39,
{
    digit_count(v)
}

/// The length of the decimal text of a signed value.
pub(crate) fn signed_len(v: i128) -> (r: usize)
    ensures
        r == decimal(v as int).len(),
        1 <= r <= 40,
{
    if v < 0 {
        1 + digit_count((-(v + 1)) as u128 + 1)
    } else {
        digit_count(v as u128)
    }
}

} // verus!
