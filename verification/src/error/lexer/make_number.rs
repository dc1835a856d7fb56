//! Failures of numeric-literal scanning.

use vstd::prelude::*;
use vstd::string::StringExecFns;

use crate::decimal::{decimal_digits, usize_to_string};
use crate::error::CompilerError;

verus! {

/// Any failure of the numeric-literal scanner. The parse variants carry
/// the literal text that failed to convert to a value.
#[derive(Debug)]
pub enum MakeNumberError {
    /// The digit run exceeded the signed 32-bit range; carries the text.
    ParseInt(String),
    /// The literal text could not convert to a 32-bit float; carries the text.
    ParseFloat(String),
    InvalidDigit(InvalidDigitError),
    DoubleDot(DoubleDotError),
}

/// A second decimal point appeared inside one numeric literal; carries
/// the offsets of the first and the second point.
#[derive(Debug)]
pub struct DoubleDotError {
    first_dot: usize,
    second_dot: usize,
}

impl DoubleDotError {
    /// The offset of the first decimal point of the literal.
    pub closed spec fn spec_first_dot(&self) -> usize {
        self.first_dot
    }

    /// The offset of the second decimal point, where scanning stopped.
    pub closed spec fn spec_second_dot(&self) -> usize {
        self.second_dot
    }

    pub fn new(first_dot: usize, second_dot: usize) -> (r: Self)
        ensures
            r.spec_first_dot() == first_dot,
            r.spec_second_dot() == second_dot,
    {
        Self { first_dot, second_dot }
    }
}

impl CompilerError for DoubleDotError {
    open spec fn message_spec(&self) -> Seq<char> {
        "DoubleDotError at char "@ + decimal_digits(self.spec_second_dot() as nat)
            + ", first char at "@ + decimal_digits(self.spec_first_dot() as nat)
    }

    fn get_message(&self) -> (r: String)
        ensures
            r@ == self.message_spec(),
    {
        let second = usize_to_string(self.second_dot);
        let first = usize_to_string(self.first_dot);
        "DoubleDotError at char ".to_owned()
            .concat(second.as_str())
            .concat(", first char at ")
            .concat(first.as_str())
    }
}

/// A character that is neither a digit, a decimal point nor a terminator
/// appeared inside a numeric literal; carries its offset.
#[derive(Debug)]
pub struct InvalidDigitError {
    position: usize,
}

impl InvalidDigitError {
    /// The offset of the offending character.
    pub closed spec fn spec_position(&self) -> usize {
        self.position
    }

    pub fn new(pos: usize) -> (r: Self)
        ensures
            r.spec_position() == pos,
    {
        Self { position: pos }
    }
}

impl CompilerError for InvalidDigitError {
    open spec fn message_spec(&self) -> Seq<char> {
        "InvalidDecimalLiteralError at char "@ + decimal_digits(self.spec_position() as nat)
    }

    fn get_message(&self) -> (r: String)
        ensures
            r@ == self.message_spec(),
    {
        let digits = usize_to_string(self.position);
        "InvalidDecimalLiteralError at char ".to_owned().concat(digits.as_str())
    }
}

} // verus!
