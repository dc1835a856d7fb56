//! Error taxonomy of the scanner: each variant carries the source offsets
//! needed to point a diagnostic at the offending input.

use vstd::prelude::*;

pub mod make_number;
pub mod make_string;

use self::make_number::MakeNumberError;
use self::make_string::MakeStringError;

verus! {

/// Any failure the scanner can report in place of a token.
#[derive(Debug)]
pub enum LexerError {
    MakeString(MakeStringError),
    MakeNumber(MakeNumberError),
}

} // verus!
