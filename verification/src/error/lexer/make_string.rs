//! Failures of string-literal scanning.

use vstd::prelude::*;
use vstd::string::StringExecFns;

use crate::decimal::{decimal_digits, usize_to_string};
use crate::error::CompilerError;

verus! {

/// Any failure of the string-literal scanner.
#[derive(Debug)]
pub enum MakeStringError {
    StringNotClosed(StringNotClosedError),
}

/// The input ended while a string literal was still open; carries the
/// offset of the opening quote.
#[derive(Debug)]
pub struct StringNotClosedError {
    first_position: usize,
}

impl StringNotClosedError {
    /// The offset of the opening quote this error points at.
    pub closed spec fn spec_position(&self) -> usize {
        self.first_position
    }

    pub fn new(pos: usize) -> (r: Self)
        ensures
            r.spec_position() == pos,
    {
        Self { first_position: pos }
    }
}

impl CompilerError for StringNotClosedError {
    open spec fn message_spec(&self) -> Seq<char> {
        "StringNotClosedError at char "@ + decimal_digits(self.spec_position() as nat)
    }

    fn get_message(&self) -> (r: String)
        ensures
            r@ == self.message_spec(),
    {
        let digits = usize_to_string(self.first_position);
        "StringNotClosedError at char ".to_owned().concat(digits.as_str())
    }
}

} // verus!
