//! The scanner: a character cursor over an immutable source text,
//! dispatching to per-category sub-scanners.

use vstd::prelude::*;

use crate::error::lexer::make_number::{DoubleDotError, InvalidDigitError, MakeNumberError};
use crate::error::lexer::make_string::{MakeStringError, StringNotClosedError};
use crate::error::lexer::LexerError;
use crate::scan::{
    digits_val, ident_end, is_alphabetic_char, is_digit_char, is_ignore_char,
    is_non_ascii_alphabetic, is_terminator_char, lemma_digits_val_prefix_le, lemma_ident_end,
    lemma_none_end, lemma_quote_end, lemma_scan_number_all_digits, none_end, quote_end,
    scan_number, spec_step, NumScan, SpecItem,
};
use vstd::string::StrSliceExecFns;

verus! {

/// Relies on char::is_alphabetic: whether the character is a Unicode
/// letter, a property of the character alone. Below 128 the letters
/// are exactly the ASCII letters, so the result there is
/// [`crate::scan::is_ascii_letter`]; only the classification of the
/// characters above is taken on trust, under the name
/// [`is_non_ascii_alphabetic`].
#[verifier::external_body]
fn char_is_alphabetic(c: char) -> (r: bool)
    ensures
        r == is_alphabetic_char(c),
        (c as int) >= 128 ==> r == is_non_ascii_alphabetic(c),
{
    c.is_alphabetic()
}

/// A decimal digit, as char::is_digit(10) classifies it.
fn char_is_digit(c: char) -> (r: bool)
    ensures
        r == is_digit_char(c),
{
    let u = c as u32;
    48 <= u && u <= 57
}

/// The model-level value of the scanner's record of the first decimal
/// point seen in the numeric literal being scanned.
pub open spec fn dot_view(d: Option<usize>) -> Option<int> {
    match d {
        Option::Some(p) => Option::Some(p as int),
        Option::None => Option::None,
    }
}

/// Parses a non-empty run of decimal digits as a signed 32-bit integer,
/// reporting exactly whether the value fits.
fn parse_i32_digits(s: &str) -> (r: Option<i32>)
    requires
        s@.len() >= 1,
        forall|j: int| 0 <= j < s@.len() ==> is_digit_char(s@[j]),
    ensures
        match r {
            Option::Some(v) => digits_val(s@) <= i32::MAX && v as int == digits_val(s@),
            Option::None => digits_val(s@) > i32::MAX,
        },
{
    let n = s.unicode_len();
    let mut val: i32 = 0;
    let mut k: usize = 0;
    while k < n
        invariant
            n == s@.len(),
            forall|j: int| 0 <= j < s@.len() ==> is_digit_char(s@[j]),
            0 <= k <= n,
            0 <= val,
            val as int == digits_val(s@.subrange(0, k as int)),
        decreases n - k,
    {
        let c = s.get_char(k);
        let d = ((c as u32) - 48) as i32;
        proof {
            let q = s@.subrange(0, k + 1 as int);
            assert(q.drop_last() =~= s@.subrange(0, k as int));
            assert(digits_val(q) == val as int * 10 + d as int);
        }
        if val > 214748364 || (val == 214748364 && d > 7) {
            proof {
                lemma_digits_val_prefix_le(s@, k + 1 as int);
            }
            return Option::None;
        }
        val = val * 10 + d;
        k = k + 1;
    }
    proof {
        assert(s@.subrange(0, n as int) =~= s@);
    }
    Option::Some(val)
}

/// A member of the terminator set that ends identifiers and numbers.
fn char_is_terminator(c: char) -> (r: bool)
    ensures
        r == is_terminator_char(c),
{
    c == ' ' || c == ')' || c == '(' || c == ',' || c == '\n'
}

/// A whitespace character that an ignorable run consists of.
fn char_is_ignore(c: char) -> (r: bool)
    ensures
        r == is_ignore_char(c),
{
    c == ' ' || c == '\n' || c == '\t'
}

/// The typed value carried by a literal token.
///
/// A float literal carries its exact source text rather than a computed
/// floating-point value: the digit run with its single decimal point is
/// the verified core's representation, and materializing a float from it
/// is left to unverified callers.
#[derive(Debug, PartialEq)]
pub enum Literal {
    String(String),
    Integer(i32),
    Float(String),
}

/// The category of one lexical unit. `NoneToken` is the ignorable
/// category: a whitespace run, or a single character no other category
/// claims.
#[derive(Debug, PartialEq)]
pub enum TokenType {
    NoneToken,
    Literal(Literal),
    Identifier(String),
    FunctionStart,
    FunctionEnd,
    Comma,
    Terminator,
}

/// One classified unit of lexical input: its category plus the exact
/// slice of the source text it was derived from.
#[derive(Debug)]
pub struct Token<'a> {
    pub token_type: TokenType,
    pub slice: &'a str,
}

impl<'a> Token<'a> {
    pub fn new(token_type: TokenType, slice: &'a str) -> (r: Self)
        ensures
            r.token_type == token_type,
            r.slice == slice,
    {
        Self { token_type, slice }
    }
}

/// Whether the produced item `x` realizes the model item `item` over
/// the source text: the same category, the payload and span the model
/// prescribes (for a string literal the span keeps both quotes and the
/// payload is the interior), or the same error with the same offsets.
pub open spec fn item_matches(text: Seq<char>, item: SpecItem, x: Result<Token, LexerError>) -> bool {
    match item {
        SpecItem::NoneTok { lo, hi } => x matches Ok(t) && t.token_type is NoneToken
            && t.slice@ == text.subrange(lo, hi),
        SpecItem::IdentTok { lo, hi } => x matches Ok(t)
            && t.token_type matches TokenType::Identifier(s)
            && s@ == text.subrange(lo, hi)
            && t.slice@ == s@,
        SpecItem::IntTok { lo, hi } => x matches Ok(t)
            && t.token_type matches TokenType::Literal(Literal::Integer(v))
            && v as int == digits_val(text.subrange(lo, hi))
            && t.slice@ == text.subrange(lo, hi),
        SpecItem::FloatTok { lo, hi } => x matches Ok(t)
            && t.token_type matches TokenType::Literal(Literal::Float(s))
            && s@ == text.subrange(lo, hi)
            && t.slice@ == s@,
        SpecItem::StrTok { lo, hi } => x matches Ok(t)
            && t.token_type matches TokenType::Literal(Literal::String(s))
            && s@ == text.subrange(lo + 1, hi - 1)
            && t.slice@ == text.subrange(lo, hi),
        SpecItem::OpenTok { at } => x matches Ok(t) && t.token_type is FunctionStart
            && t.slice@ == text.subrange(at, at + 1),
        SpecItem::CloseTok { at } => x matches Ok(t) && t.token_type is FunctionEnd
            && t.slice@ == text.subrange(at, at + 1),
        SpecItem::CommaTok { at } => x matches Ok(t) && t.token_type is Comma
            && t.slice@ == text.subrange(at, at + 1),
        SpecItem::TermTok { at } => x matches Ok(t) && t.token_type is Terminator
            && t.slice@ == text.subrange(at, at + 1),
        SpecItem::ErrNotClosed { open } => x matches Err(LexerError::MakeString(
            MakeStringError::StringNotClosed(e),
        )) && e.spec_position() as int == open,
        SpecItem::ErrDoubleDot { first, second } => x matches Err(LexerError::MakeNumber(
            MakeNumberError::DoubleDot(e),
        )) && e.spec_first_dot() as int == first && e.spec_second_dot() as int == second,
        SpecItem::ErrInvalidDigit { at } => x matches Err(LexerError::MakeNumber(
            MakeNumberError::InvalidDigit(e),
        )) && e.spec_position() as int == at,
        SpecItem::ErrIntRange { lo, hi } => x matches Err(LexerError::MakeNumber(
            MakeNumberError::ParseInt(s),
        )) && s@ == text.subrange(lo, hi),
    }
}

/// The scanner. It borrows the source text for its whole lifetime and
/// owns the cursor: `pos` is the index of the next unconsumed character.
pub struct Lexer<'a> {
    pub original: &'a str,
    pub pos: usize,
}

impl<'a> Lexer<'a> {
    /// The cursor never leaves the text.
    pub open spec fn wf(&self) -> bool {
        self.pos <= self.original@.len()
    }

    /// A fresh scanner over `text`, with the cursor at the start.
    pub fn new(text: &'a str) -> (r: Self)
        ensures
            r.original@ == text@,
            r.pos == 0,
            r.wf(),
    {
        Self { original: text, pos: 0 }
    }

    /// Scans an identifier whose first character, at `starting_index`,
    /// the dispatcher has already consumed: the cursor advances to the
    /// first terminator character (left unconsumed) or to the end of the
    /// text, and the whole run becomes the token's payload and span.
    fn make_identifier(&mut self, starting_index: usize) -> (r: Result<Token<'a>, LexerError>)
        requires
            old(self).wf(),
            starting_index + 1 == old(self).pos,
        ensures
            final(self).original == old(self).original,
            final(self).wf(),
            final(self).pos == ident_end(old(self).original@, old(self).pos as int),
            (r matches Ok(t) && t.token_type matches TokenType::Identifier(s)
                && s@ == old(self).original@.subrange(
                    starting_index as int,
                    final(self).pos as int,
                )
                && t.slice@ == s@),
    {
        let text = self.original;
        let n = text.unicode_len();
        proof {
            lemma_ident_end(text@, self.pos as int);
        }
        while self.pos < n && !char_is_terminator(text.get_char(self.pos))
            invariant
                self.original == text,
                n == text@.len(),
                starting_index < self.pos <= n,
                ident_end(text@, self.pos as int) == ident_end(text@, old(self).pos as int),
            decreases n - self.pos,
        {
            self.pos = self.pos + 1;
        }
        let slice = text.substring_char(starting_index, self.pos);
        Ok(Token::new(TokenType::Identifier(slice.to_owned()), slice))
    }

    /// Scans an ignorable run whose first character, at `starting_index`,
    /// the dispatcher has already consumed: the cursor advances over
    /// whitespace and stops at the first other character (left
    /// unconsumed) or at the end of the text.
    fn make_none(&mut self, starting_index: usize) -> (t: Token<'a>)
        requires
            old(self).wf(),
            starting_index + 1 == old(self).pos,
        ensures
            final(self).original == old(self).original,
            final(self).wf(),
            final(self).pos == none_end(old(self).original@, old(self).pos as int),
            t.token_type is NoneToken,
            t.slice@ == old(self).original@.subrange(starting_index as int, final(self).pos as int),
    {
        let text = self.original;
        let n = text.unicode_len();
        proof {
            lemma_none_end(text@, self.pos as int);
        }
        while self.pos < n && char_is_ignore(text.get_char(self.pos))
            invariant
                self.original == text,
                n == text@.len(),
                starting_index < self.pos <= n,
                none_end(text@, self.pos as int) == none_end(text@, old(self).pos as int),
            decreases n - self.pos,
        {
            self.pos = self.pos + 1;
        }
        let slice = text.substring_char(starting_index, self.pos);
        Token::new(TokenType::NoneToken, slice)
    }

    /// Scans a string literal whose opening quote, at `starting_index`,
    /// the dispatcher has already consumed: the cursor consumes every
    /// character up to and including the closing quote. The token's
    /// payload is the interior strictly between the quotes; its span is
    /// the whole quoted substring, both quotes included. If the text
    /// ends first, the whole remainder is consumed and the error
    /// carries the opening quote's offset.
    fn make_string(&mut self, starting_index: usize) -> (r: Result<Token<'a>, LexerError>)
        requires
            old(self).wf(),
            starting_index + 1 == old(self).pos,
        ensures
            final(self).original == old(self).original,
            final(self).wf(),
            ({
                let q = quote_end(old(self).original@, old(self).pos as int);
                if q < old(self).original@.len() {
                    &&& final(self).pos == q + 1
                    &&& (r matches Ok(t)
                        && t.token_type matches TokenType::Literal(Literal::String(s))
                        && s@ == old(self).original@.subrange(old(self).pos as int, q)
                        && t.slice@ == old(self).original@.subrange(starting_index as int, q + 1))
                } else {
                    &&& final(self).pos == old(self).original@.len()
                    &&& (r matches Err(LexerError::MakeString(
                        MakeStringError::StringNotClosed(e),
                    )) && e.spec_position() == starting_index)
                }
            }),
    {
        let text = self.original;
        let n = text.unicode_len();
        proof {
            lemma_quote_end(text@, self.pos as int);
        }
        loop
            invariant_except_break
                self.original == text,
                text == old(self).original,
                n == text@.len(),
                starting_index + 1 == old(self).pos,
                old(self).pos <= self.pos <= n,
                quote_end(text@, self.pos as int) == quote_end(text@, old(self).pos as int),
            ensures
                self.original == text,
                text == old(self).original,
                starting_index + 1 == old(self).pos,
                old(self).pos <= self.pos <= n,
                self.pos - 1 == quote_end(text@, old(self).pos as int),
                quote_end(text@, old(self).pos as int) < n,
            decreases n - self.pos,
        {
            if self.pos == n {
                return Err(LexerError::MakeString(MakeStringError::StringNotClosed(
                    StringNotClosedError::new(starting_index),
                )));
            }
            let c = text.get_char(self.pos);
            self.pos = self.pos + 1;
            if c == '"' {
                break;
            }
        }
        let interior = text.substring_char(starting_index + 1, self.pos - 1);
        let slice = text.substring_char(starting_index, self.pos);
        Ok(Token::new(TokenType::Literal(Literal::String(interior.to_owned())), slice))
    }

    /// Scans a numeric literal whose first digit, at `starting_index`,
    /// the dispatcher has already consumed, running the state machine of
    /// [`scan_number`]: a first decimal point is consumed and remembered,
    /// a second one aborts with both offsets, a foreign character aborts
    /// at its offset, and a terminator or the end of the text closes the
    /// literal, which is then an integer exactly when no point was seen.
    fn make_number(&mut self, starting_index: usize) -> (r: Result<Token<'a>, LexerError>)
        requires
            old(self).wf(),
            starting_index + 1 == old(self).pos,
            is_digit_char(old(self).original@[starting_index as int]),
        ensures
            final(self).original == old(self).original,
            final(self).wf(),
            ({
                let text = old(self).original@;
                let start = starting_index as int;
                match scan_number(text, old(self).pos as int, Option::None) {
                    NumScan::Done { end, dot } => {
                        let lit = text.subrange(start, end);
                        &&& final(self).pos == end
                        &&& (dot is None ==> digits_val(lit) <= i32::MAX ==> (r matches Ok(t)
                            && t.token_type matches TokenType::Literal(Literal::Integer(v))
                            && v as int == digits_val(lit)
                            && t.slice@ == lit))
                        &&& (dot is None ==> digits_val(lit) > i32::MAX ==> (r matches Err(
                            LexerError::MakeNumber(MakeNumberError::ParseInt(s)),
                        ) && s@ == lit))
                        &&& (dot is Some ==> (r matches Ok(t)
                            && t.token_type matches TokenType::Literal(Literal::Float(s))
                            && s@ == lit
                            && t.slice@ == lit))
                    },
                    NumScan::DoubleDot { first, second } => {
                        &&& final(self).pos == second
                        &&& (r matches Err(LexerError::MakeNumber(MakeNumberError::DoubleDot(e)))
                            && e.spec_first_dot() as int == first
                            && e.spec_second_dot() as int == second)
                    },
                    NumScan::Invalid { at } => {
                        &&& final(self).pos == at
                        &&& (r matches Err(LexerError::MakeNumber(
                            MakeNumberError::InvalidDigit(e),
                        )) && e.spec_position() as int == at)
                    },
                }
            }),
    {
        let text = self.original;
        let n = text.unicode_len();
        let mut first_dot: Option<usize> = None;
        loop
            invariant_except_break
                self.original == text,
                text == old(self).original,
                n == text@.len(),
                starting_index + 1 == old(self).pos,
                old(self).pos <= self.pos <= n,
                scan_number(text@, self.pos as int, dot_view(first_dot)) == scan_number(
                    text@,
                    old(self).pos as int,
                    Option::None,
                ),
            ensures
                self.original == text,
                text == old(self).original,
                starting_index + 1 == old(self).pos,
                old(self).pos <= self.pos <= n,
                scan_number(text@, old(self).pos as int, Option::None) == (NumScan::Done {
                    end: self.pos as int,
                    dot: dot_view(first_dot),
                }),
            decreases n - self.pos,
        {
            if self.pos == n {
                break;
            }
            let c = text.get_char(self.pos);
            if c == '.' {
                match first_dot {
                    Some(it) => {
                        return Err(LexerError::MakeNumber(MakeNumberError::DoubleDot(
                            DoubleDotError::new(it, self.pos),
                        )));
                    },
                    None => {
                        first_dot = Some(self.pos);
                    },
                }
            } else if char_is_terminator(c) {
                break;
            } else if !char_is_digit(c) {
                return Err(LexerError::MakeNumber(MakeNumberError::InvalidDigit(
                    InvalidDigitError::new(self.pos),
                )));
            }
            self.pos = self.pos + 1;
        }
        let slice = text.substring_char(starting_index, self.pos);
        match first_dot {
            None => {
                proof {
                    lemma_scan_number_all_digits(text@, old(self).pos as int);
                    assert forall|j: int| 0 <= j < slice@.len() implies is_digit_char(
                        slice@[j],
                    ) by {
                        assert(slice@[j] == text@[starting_index + j]);
                    }
                }
                match parse_i32_digits(slice) {
                    Some(it) => Ok(Token::new(TokenType::Literal(Literal::Integer(it)), slice)),
                    None => Err(LexerError::MakeNumber(MakeNumberError::ParseInt(
                        slice.to_owned(),
                    ))),
                }
            },
            Some(_) => Ok(Token::new(TokenType::Literal(Literal::Float(slice.to_owned())), slice)),
        }
    }

    /// Produces the next item of the scan, or `None` once the text is
    /// exhausted. One character is consumed to decide the dispatch; the
    /// matching sub-scanner then advances the cursor to the end of its
    /// token category. An error item leaves the cursor where the
    /// sub-scanner stopped, and a later call simply continues from
    /// there: the sequence does not halt on errors.
    pub fn next(&mut self) -> (r: Option<Result<Token<'a>, LexerError>>)
        requires
            old(self).wf(),
        ensures
            final(self).original == old(self).original,
            final(self).wf(),
            old(self).pos == old(self).original@.len() ==> r is None && final(self).pos == old(
                self,
            ).pos,
            old(self).pos < old(self).original@.len() ==> ({
                let (item, next) = spec_step(old(self).original@, old(self).pos as int);
                &&& final(self).pos == next
                &&& (r matches Some(x) && item_matches(old(self).original@, item, x))
            }),
    {
        let text = self.original;
        let n = text.unicode_len();
        if self.pos == n {
            return None;
        }
        let index = self.pos;
        let c = text.get_char(index);
        self.pos = self.pos + 1;
        if c == '"' {
            return Some(self.make_string(index));
        }
        if c == '(' {
            return Some(Ok(Token::new(TokenType::FunctionStart, text.substring_char(index, index + 1))));
        }
        if c == ')' {
            return Some(Ok(Token::new(TokenType::FunctionEnd, text.substring_char(index, index + 1))));
        }
        if c == ',' {
            return Some(Ok(Token::new(TokenType::Comma, text.substring_char(index, index + 1))));
        }
        if c == ';' {
            return Some(Ok(Token::new(TokenType::Terminator, text.substring_char(index, index + 1))));
        }
        if char_is_digit(c) {
            return Some(self.make_number(index));
        }
        if char_is_alphabetic(c) {
            return Some(self.make_identifier(index));
        }
        Some(Ok(self.make_none(index)))
    }
}

} // verus!
