//! Diagnostic capability shared by every positioned error value.

use vstd::prelude::*;

pub mod lexer;

verus! {

/// A failure value that can render a one-line human-readable message
/// embedding the source offsets it carries.
pub trait CompilerError {
    /// The exact character sequence of the rendered message.
    spec fn message_spec(&self) -> Seq<char>;

    /// Renders the message; formatting only, it cannot fail.
    fn get_message(&self) -> (r: String)
        ensures
            r@ == self.message_spec(),
    ;
}

} // verus!
