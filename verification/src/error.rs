//! The errors of the library.

use vstd::prelude::*;

verus! {

/// The error type returned when a checked integral type conversion fails.
#[derive(Debug, Clone, Copy, PartialEq, Eq, Structural)]
pub struct TryFromIntError;

impl TryFromIntError {
    /// The message that describes the error to a person.
    pub fn message(&self) -> (r: &'static str)
        ensures
            r@ == "out of range integral type conversion attempted"@,
    {
        "out of range integral type conversion attempted"
    }
}

/// The ways in which parsing an integer can fail.
#[derive(Debug, Clone, Copy, PartialEq, Eq, Structural)]
pub enum IntErrorKind {
    /// The text to parse is empty.
    Empty,
    /// The text holds a character that is no digit of the radix where a digit is due.
    InvalidDigit,
    /// The integer is too large for the target type.
    PosOverflow,
    /// The integer is too small for the target type.
    NegOverflow,
    /// The integer is zero, and the target type has no zero.
    Zero,
}

/// The error type returned when parsing an integer fails.
#[derive(Debug, Clone, Copy, PartialEq, Eq, Structural)]
pub struct ParseIntError {
    kind: IntErrorKind,
}

impl View for ParseIntError {
    type V = IntErrorKind;

    closed spec fn view(&self) -> IntErrorKind {
        self.kind
    }
}

impl ParseIntError {
    /// The way in which parsing failed.
    pub fn kind(&self) -> (r: &IntErrorKind)
        ensures
            *r == self@,
    {
        &self.kind
    }
}

/// Constructs a parse error with the provided kind.
pub fn parse_int_error_from_kind(kind: IntErrorKind) -> (r: ParseIntError)
    ensures
        r@ == kind,
{
    ParseIntError { kind }
}

/// Errors of one kind are equal, so that an error is the one that its kind constructs.
pub proof fn law_error_is_its_kind(a: ParseIntError, b: ParseIntError)
    requires
        a@ == b@,
    ensures
        a == b,
{
}

/// Whether a parse result failed with the expected error kind.
pub fn failed_with<T: Copy>(result: Result<T, ParseIntError>, expected: IntErrorKind) -> (r: bool)
    ensures
        r <==> (result matches Err(error) && error@ == expected),
{
    match result {
        Ok(_) => false,
        Err(error) => error == parse_int_error_from_kind(expected),
    }
}

/// Asserts that a parse result failed with the expected error kind. Where it did not, the call does
/// not verify.
pub fn assert_error_kind<T: Copy>(result: Result<T, ParseIntError>, expected: IntErrorKind)
    requires
        result matches Err(error) && error@ == expected,
{
    let failed: bool = failed_with(result, expected);
    assert(failed);
}

} // verus!
