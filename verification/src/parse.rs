//! Reading integers from text in a given radix.

use vstd::arithmetic::div_mod::{lemma_fundamental_div_mod, lemma_mod_bound};
use vstd::arithmetic::mul::lemma_mul_is_commutative;
use vstd::prelude::*;

use crate::error::IntErrorKind;

verus! {

/// Why a run of digits has no value below its bound.
#[derive(Clone, Copy)]
pub enum DigitFault {
    /// A character is no digit of the radix.
    Invalid,
    /// The digits so far stand for a value above the bound.
    Overflow,
}

/// The value of `c` as a digit: `0-9`, then `a-z` or `A-Z`, as far as `radix` goes.
pub open spec fn digit_value(c: char, radix: int) -> Option<int> {
    let d = if '0' <= c && c <= '9' {
        c as int - '0' as int
    } else if 'a' <= c && c <= 'z' {
        c as int - 'a' as int + 10
    } else if 'A' <= c && c <= 'Z' {
        c as int - 'A' as int + 10
    } else {
        radix
    };
    if d < radix {
        Some(d)
    } else {
        None
    }
}

/// The value that a run of digits stands for, or the fault of the first character with which the
/// run stops being one, or stops being at most `bound`.
pub open spec fn digits_value(digits: Seq<char>, radix: int, bound: int) -> Result<int, DigitFault>
    decreases digits.len(),
{
    if digits.len() == 0 {
        Ok(0)
    } else {
        match digits_value(digits.drop_last(), radix, bound) {
            Err(fault) => Err(fault),
            Ok(before) => match digit_value(digits.last(), radix) {
                None => Err(DigitFault::Invalid),
                Some(digit) => if before * radix + digit > bound {
                    Err(DigitFault::Overflow)
                } else {
                    Ok(before * radix + digit)
                },
            },
        }
    }
}

/// The integer of `min..=max` that `text` stands for in `radix`, or the kind of error that it is:
/// an optional `+` sign, or a `-` sign where there are negative integers, then digits.
pub open spec fn parsed(text: Seq<char>, radix: int, min: int, max: int) -> Result<
    int,
    IntErrorKind,
> {
    if text.len() == 0 {
        Err(IntErrorKind::Empty)
    } else if text.len() == 1 && (text[0] == '+' || text[0] == '-') {
        Err(IntErrorKind::InvalidDigit)
    } else if text[0] == '-' && min < 0 {
        match digits_value(text.skip(1), radix, -min) {
            Ok(size) => Ok(-size),
            Err(DigitFault::Invalid) => Err(IntErrorKind::InvalidDigit),
            Err(DigitFault::Overflow) => Err(IntErrorKind::NegOverflow),
        }
    } else {
        match digits_value(
            if text[0] == '+' {
                text.skip(1)
            } else {
                text
            },
            radix,
            max,
        ) {
            Ok(size) => Ok(size),
            Err(DigitFault::Invalid) => Err(IntErrorKind::InvalidDigit),
            Err(DigitFault::Overflow) => Err(IntErrorKind::PosOverflow),
        }
    }
}

/// The integer of `lo..=hi` that `text` stands for in `radix`, or the kind of error that it is,
/// where the words of the type hold `min..=max`.
pub open spec fn parsed_in_range(
    text: Seq<char>,
    radix: int,
    min: int,
    max: int,
    lo: int,
    hi: int,
) -> Result<int, IntErrorKind> {
    match parsed(text, radix, min, max) {
        Err(kind) => Err(kind),
        Ok(v) => if v > hi {
            Err(IntErrorKind::PosOverflow)
        } else if v < lo {
            Err(IntErrorKind::NegOverflow)
        } else {
            Ok(v)
        },
    }
}

/// A fault stays whatever follows it.
proof fn lemma_fault_stays(digits: Seq<char>, n: int, radix: int, bound: int)
    requires
        0 <= n <= digits.len(),
        digits_value(digits.take(n), radix, bound) is Err,
    ensures
        digits_value(digits, radix, bound) == digits_value(digits.take(n), radix, bound),
    decreases digits.len(),
{
    if n < digits.len() {
        assert(digits.drop_last().take(n) =~= digits.take(n));
        lemma_fault_stays(digits.drop_last(), n, radix, bound);
    } else {
        assert(digits.take(n) =~= digits);
    }
}

/// The value of a run of digits is no less than nothing and no more than the bound.
pub(crate) proof fn lemma_digits_value_bounds(digits: Seq<char>, radix: int, bound: int)
    requires
        2 <= radix,
        0 <= bound,
    ensures
        digits_value(digits, radix, bound) matches Ok(v) ==> 0 <= v <= bound,
    decreases digits.len(),
{
    if digits.len() > 0 {
        lemma_digits_value_bounds(digits.drop_last(), radix, bound);
        if let Ok(before) = digits_value(digits.drop_last(), radix, bound) {
            assert(before * radix >= 0) by (nonlinear_arith)
                requires
                    before >= 0,
                    radix >= 2,
            ;
        }
    }
}

/// A text that parses stands for an integer that the word holds.
pub proof fn law_parsed_fits(text: Seq<char>, radix: int, min: int, max: int)
    requires
        2 <= radix,
        min <= 0 <= max,
    ensures
        parsed(text, radix, min, max) matches Ok(v) ==> min <= v <= max,
{
    lemma_digits_value_bounds(text.skip(1), radix, -min);
    lemma_digits_value_bounds(text.skip(1), radix, max);
    lemma_digits_value_bounds(text, radix, max);
}

/// The characters of a text.
pub(crate) fn chars_of(text: &str) -> (r: Vec<char>)
    ensures
        r@ == text@,
{
    let mut chars: Vec<char> = Vec::new();
    for c in it: text.chars()
        invariant
            chars@ == it.seq().take(it.index()),
            it.seq() == text@,
    {
        chars.push(c);
        assert(it.seq().take(it.index() + 1) =~= it.seq().take(it.index()).push(c));
    }
    assert(text@.take(text@.len() as int) =~= text@);
    chars
}

/// The value of a character as a digit.
fn digit(c: char, radix: u32) -> (r: Option<u32>)
    requires
        2 <= radix <= 36,
    ensures
        match r {
            Some(d) => digit_value(c, radix as int) == Some(d as int),
            None => digit_value(c, radix as int) is None,
        },
{
    let d: u32 = if '0' <= c && c <= '9' {
        c as u32 - '0' as u32
    } else if 'a' <= c && c <= 'z' {
        c as u32 - 'a' as u32 + 10
    } else if 'A' <= c && c <= 'Z' {
        c as u32 - 'A' as u32 + 10
    } else {
        radix
    };
    if d < radix {
        Some(d)
    } else {
        None
    }
}

/// The value of the digits from `start` on.
fn parse_digits(chars: &Vec<char>, start: usize, radix: u32, bound: u128) -> (r: Result<
    u128,
    DigitFault,
>)
    requires
        start <= chars.len(),
        2 <= radix <= 36,
    ensures
        match r {
            Ok(v) => digits_value(chars@.skip(start as int), radix as int, bound as int) == Ok::<
                int,
                DigitFault,
            >(v as int),
            Err(fault) => digits_value(chars@.skip(start as int), radix as int, bound as int)
                == Err::<int, DigitFault>(fault),
        },
{
    let ghost digits = chars@.skip(start as int);
    let ghost top = bound as int;
    let mut size: u128 = 0;
    let mut i: usize = start;
    assert(digits.take(0) =~= Seq::<char>::empty());
    while i < chars.len()
        invariant
            start <= i <= chars.len(),
            2 <= radix <= 36,
            digits == chars@.skip(start as int),
            top == bound,
            digits_value(digits.take(i - start), radix as int, top) == Ok::<int, DigitFault>(
                size as int,
            ),
        decreases chars.len() - i,
    {
        let ghost n = i - start;
        proof {
            assert(digits.take(n + 1).drop_last() =~= digits.take(n));
            assert(digits.take(n + 1).last() == chars@[i as int]);
        }
        match digit(chars[i], radix) {
            None => {
                proof {
                    lemma_fault_stays(digits, n + 1, radix as int, top);
                }
                return Err(DigitFault::Invalid);
            },
            Some(d) => {
                let next: Option<u128> = match size.checked_mul(radix as u128) {
                    None => None,
                    Some(p) => p.checked_add(d as u128),
                };
                match next {
                    Some(v) if v <= bound => {
                        size = v;
                    },
                    _ => {
                        proof {
                            lemma_fault_stays(digits, n + 1, radix as int, top);
                        }
                        return Err(DigitFault::Overflow);
                    },
                }
            },
        }
        i = i + 1;
    }
    assert(digits.take(digits.len() as int) =~= digits);
    Ok(size)
}

/// Reads an unsigned integer of at most `max`.
pub(crate) fn parse_unsigned(text: &str, radix: u32, max: u128) -> (r: Result<u128, IntErrorKind>)
    requires
        2 <= radix <= 36,
    ensures
        match r {
            Ok(v) => parsed(text@, radix as int, 0, max as int) == Ok::<int, IntErrorKind>(
                v as int,
            ),
            Err(kind) => parsed(text@, radix as int, 0, max as int) == Err::<int, IntErrorKind>(
                kind,
            ),
        },
{
    let chars = chars_of(text);
    if chars.len() == 0 {
        return Err(IntErrorKind::Empty);
    }
    if chars.len() == 1 && (chars[0] == '+' || chars[0] == '-') {
        return Err(IntErrorKind::InvalidDigit);
    }
    let start: usize = if chars[0] == '+' {
        1
    } else {
        0
    };
    assert(chars@.skip(0) =~= chars@);
    match parse_digits(&chars, start, radix, max) {
        Ok(v) => Ok(v),
        Err(DigitFault::Invalid) => Err(IntErrorKind::InvalidDigit),
        Err(DigitFault::Overflow) => Err(IntErrorKind::PosOverflow),
    }
}

/// Reads a signed integer of `min..=max`.
pub(crate) fn parse_signed(text: &str, radix: u32, min: i128, max: i128) -> (r: Result<
    i128,
    IntErrorKind,
>)
    requires
        2 <= radix <= 36,
        min < 0 <= max,
    ensures
        match r {
            Ok(v) => parsed(text@, radix as int, min as int, max as int) == Ok::<
                int,
                IntErrorKind,
            >(v as int),
            Err(kind) => parsed(text@, radix as int, min as int, max as int) == Err::<
                int,
                IntErrorKind,
            >(kind),
        },
{
    let chars = chars_of(text);
    if chars.len() == 0 {
        return Err(IntErrorKind::Empty);
    }
    if chars.len() == 1 && (chars[0] == '+' || chars[0] == '-') {
        return Err(IntErrorKind::InvalidDigit);
    }
    assert(chars@.skip(0) =~= chars@);
    if chars[0] == '-' {
        let bound: u128 = (-(min + 1)) as u128 + 1;
        proof {
            lemma_digits_value_bounds(chars@.skip(1), radix as int, bound as int);
        }
        match parse_digits(&chars, 1, radix, bound) {
            Ok(v) => if v == 0 {
                Ok(0)
            } else {
                Ok(-((v - 1) as i128) - 1)
            },
            Err(DigitFault::Invalid) => Err(IntErrorKind::InvalidDigit),
            Err(DigitFault::Overflow) => Err(IntErrorKind::NegOverflow),
        }
    } else {
        let start: usize = if chars[0] == '+' {
            1
        } else {
            0
        };
        proof {
            lemma_digits_value_bounds(chars@.skip(start as int), radix as int, max as int);
        }
        match parse_digits(&chars, start, radix, max as u128) {
            Ok(v) => Ok(v as i128),
            Err(DigitFault::Invalid) => Err(IntErrorKind::InvalidDigit),
            Err(DigitFault::Overflow) => Err(IntErrorKind::PosOverflow),
        }
    }
}

/// The digits stand in the order of their values.
proof fn lemma_alphabet(d: int)
    requires
        0 <= d < 36,
    ensures
        "0123456789abcdefghijklmnopqrstuvwxyz"@[d] as int == if d < 10 {
            '0' as int + d
        } else {
            'a' as int + d - 10
        },
        "0123456789ABCDEFGHIJKLMNOPQRSTUVWXYZ"@[d] as int == if d < 10 {
            '0' as int + d
        } else {
            'A' as int + d - 10
        },
{
    reveal_strlit("0123456789abcdefghijklmnopqrstuvwxyz");
    reveal_strlit("0123456789ABCDEFGHIJKLMNOPQRSTUVWXYZ");
    assert(d == 0 || d == 1 || d == 2 || d == 3 || d == 4 || d == 5 || d == 6 || d == 7 || d == 8
        || d == 9 || d == 10 || d == 11 || d == 12 || d == 13 || d == 14 || d == 15 || d == 16 || d == 17
        || d == 18 || d == 19 || d == 20 || d == 21 || d == 22 || d == 23 || d == 24 || d == 25 || d == 26
        || d == 27 || d == 28 || d == 29 || d == 30 || d == 31 || d == 32 || d == 33 || d == 34 || d == 35);
}

/// In every radix, the digits of a value below the radix are the character at its place in the
/// alphabet of digits, in lower and in upper case, and no other character.
pub proof fn law_digit(c: char, d: int, radix: int)
    requires
        2 <= radix <= 36,
    ensures
        digit_value(c, radix) == Some(d) <==> 0 <= d < radix && (c
            == "0123456789abcdefghijklmnopqrstuvwxyz"@[d] || c
            == "0123456789ABCDEFGHIJKLMNOPQRSTUVWXYZ"@[d]),
{
    if 0 <= d < radix {
        lemma_alphabet(d);
    }
}

/// A run of digits that writes an integer has its value, as far as it is not above the bound.
proof fn lemma_digits_value(
    body: Seq<char>,
    radix: int,
    bound: int,
    quotients: Seq<int>,
    n: int,
)
    requires
        2 <= radix,
        0 <= bound,
        0 <= n <= body.len(),
        n < quotients.len(),
        quotients[0] == 0,
        forall|i: int|
            0 <= i < n ==> digit_value(#[trigger] body[i], radix) == Some(
                quotients[i + 1] - quotients[i] * radix,
            ),
    ensures
        quotients[n] >= 0,
        digits_value(body.take(n), radix, bound) == if quotients[n] <= bound {
            Ok::<int, DigitFault>(quotients[n])
        } else {
            Err(DigitFault::Overflow)
        },
    decreases n,
{
    if n > 0 {
        lemma_digits_value(body, radix, bound, quotients, n - 1);
        assert(body.take(n).drop_last() =~= body.take(n - 1));
        assert(body.take(n).last() == body[n - 1]);
        let before = quotients[n - 1];
        assert(digit_value(body[n - 1], radix) == Some(quotients[n - 1 + 1] - before * radix));
        assert(before * radix >= before) by (nonlinear_arith)
            requires
                before >= 0,
                radix >= 2,
        ;
    }
}

/// A text of nothing but digits, alone or after a sign, stands for the integer that the digits write:
/// `quotients` are the integers that the digits up to each place write. Where there are no negative
/// integers, `-` is no sign.
pub proof fn law_parsed_digits(
    body: Seq<char>,
    radix: int,
    min: int,
    max: int,
    quotients: Seq<int>,
)
    requires
        2 <= radix <= 36,
        min <= 0 <= max,
        body.len() > 0,
        quotients.len() == body.len() + 1,
        quotients[0] == 0,
        forall|i: int|
            0 <= i < body.len() ==> digit_value(#[trigger] body[i], radix) == Some(
                quotients[i + 1] - quotients[i] * radix,
            ),
    ensures
        quotients.last() >= 0,
        parsed(body, radix, min, max) == if quotients.last() <= max {
            Ok::<int, IntErrorKind>(quotients.last())
        } else {
            Err(IntErrorKind::PosOverflow)
        },
        parsed(seq!['+'] + body, radix, min, max) == parsed(body, radix, min, max),
        min < 0 ==> parsed(seq!['-'] + body, radix, min, max) == if -quotients.last() >= min {
            Ok::<int, IntErrorKind>(-quotients.last())
        } else {
            Err(IntErrorKind::NegOverflow)
        },
        min == 0 ==> parsed(seq!['-'] + body, radix, min, max) == Err::<int, IntErrorKind>(
            IntErrorKind::InvalidDigit,
        ),
{
    lemma_digits_value(body, radix, max, quotients, body.len() as int);
    lemma_digits_value(body, radix, -min, quotients, body.len() as int);
    assert(body.take(body.len() as int) =~= body);
    assert(digit_value(body[0], radix) is Some);
    assert((seq!['+'] + body).skip(1) =~= body);
    assert((seq!['-'] + body).skip(1) =~= body);
    lemma_invalid_at(seq!['-'] + body, radix, max, 0);
}

/// A character that is no digit makes a run of digits faulty, unless the run is too large before it.
proof fn lemma_invalid_at(digits: Seq<char>, radix: int, bound: int, n: int)
    requires
        0 <= n < digits.len(),
        digit_value(digits[n], radix) is None,
    ensures
        digits_value(digits, radix, bound) == match digits_value(digits.take(n), radix, bound) {
            Ok(_) => Err::<int, DigitFault>(DigitFault::Invalid),
            Err(fault) => Err(fault),
        },
{
    assert(digits.take(n + 1).drop_last() =~= digits.take(n));
    assert(digits.take(n + 1).last() == digits[n]);
    lemma_fault_stays(digits, n + 1, radix, bound);
}

/// A text whose first character that is no digit stands at the last place of `quotients` is faulty for
/// that character, unless the digits before it are too large for the word already.
pub proof fn law_parsed_fault(
    body: Seq<char>,
    radix: int,
    min: int,
    max: int,
    quotients: Seq<int>,
)
    requires
        2 <= radix <= 36,
        min <= 0 <= max,
        1 <= quotients.len() <= body.len(),
        quotients[0] == 0,
        digit_value(body[quotients.len() - 1], radix) is None,
        forall|i: int|
            0 <= i < quotients.len() - 1 ==> digit_value(#[trigger] body[i], radix) == Some(
                quotients[i + 1] - quotients[i] * radix,
            ),
    ensures
        body[0] != '+' && body[0] != '-' ==> parsed(body, radix, min, max) == parsed(
            seq!['+'] + body,
            radix,
            min,
            max,
        ),
        parsed(seq!['+'] + body, radix, min, max) == if quotients.last() <= max {
            Err::<int, IntErrorKind>(IntErrorKind::InvalidDigit)
        } else {
            Err(IntErrorKind::PosOverflow)
        },
        min < 0 ==> parsed(seq!['-'] + body, radix, min, max) == if -quotients.last() >= min {
            Err::<int, IntErrorKind>(IntErrorKind::InvalidDigit)
        } else {
            Err(IntErrorKind::NegOverflow)
        },
        min == 0 ==> parsed(seq!['-'] + body, radix, min, max) == Err::<int, IntErrorKind>(
            IntErrorKind::InvalidDigit,
        ),
{
    let n = quotients.len() - 1;
    lemma_digits_value(body, radix, max, quotients, n);
    lemma_digits_value(body, radix, -min, quotients, n);
    lemma_invalid_at(body, radix, max, n);
    lemma_invalid_at(body, radix, -min, n);
    assert((seq!['+'] + body).skip(1) =~= body);
    assert((seq!['-'] + body).skip(1) =~= body);
    lemma_invalid_at(seq!['-'] + body, radix, max, 0);
    assert((seq!['-'] + body).take(0) =~= Seq::<char>::empty());
}

/// The digit for the remainder of an integer by the radix, in lower or in upper case, has the value that
/// the integer has over the multiple of the radix below it.
pub proof fn law_remainder_digit(c: char, q: int, radix: int)
    requires
        2 <= radix <= 36,
        c == "0123456789abcdefghijklmnopqrstuvwxyz"@[q % radix] || c == "0123456789ABCDEFGHIJKLMNOPQRSTUVWXYZ"@[q % radix],
    ensures
        digit_value(c, radix) == Some(q - (q / radix) * radix),
{
    lemma_fundamental_div_mod(q, radix);
    lemma_mod_bound(q, radix);
    lemma_mul_is_commutative(radix, q / radix);
    law_digit(c, q % radix, radix);
}

} // verus!
