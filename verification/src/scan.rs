//! Mathematical model of the scanner.
//!
//! Every exec scanning function in [`crate::lexer`] is specified against
//! the functions here: character classes, the end position each
//! sub-scanner stops at, the state machine of numeric-literal scanning,
//! and [`spec_step`], which describes one whole production step of the
//! cursor. [`crate::laws`] builds the stream-level properties on top.

use vstd::prelude::*;

verus! {

/// The fixed set of characters that end an identifier or a numeric
/// literal without being consumed as part of it.
pub open spec fn is_terminator_char(c: char) -> bool {
    c == ' ' || c == ')' || c == '(' || c == ',' || c == '\n'
}

/// The whitespace characters an ignorable run consists of.
pub open spec fn is_ignore_char(c: char) -> bool {
    c == ' ' || c == '\n' || c == '\t'
}

/// A decimal digit.
pub open spec fn is_digit_char(c: char) -> bool {
    '0' as int <= c as int && c as int <= '9' as int
}

/// An ASCII letter.
pub open spec fn is_ascii_letter(c: char) -> bool {
    ('a' as int <= c as int && c as int <= 'z' as int)
        || ('A' as int <= c as int && c as int <= 'Z' as int)
}

/// Whether a character above the ASCII range is a Unicode letter: the
/// part of the alphabetic classification named rather than defined,
/// because its full statement (the Unicode letter categories) is
/// outside this model.
pub uninterp spec fn is_non_ascii_alphabetic(c: char) -> bool;

/// Whether the scanner dispatches `c` to the identifier scanner: the
/// alphabetic test of the host language. Below 128 the letters are
/// exactly the ASCII letters; above, the Unicode letter property
/// decides.
pub open spec fn is_alphabetic_char(c: char) -> bool {
    if (c as int) < 128 {
        is_ascii_letter(c)
    } else {
        is_non_ascii_alphabetic(c)
    }
}

/// The position where an identifier that is being scanned from `i` ends:
/// the first position at or after `i` holding a terminator character, or
/// the end of the text.
pub open spec fn ident_end(text: Seq<char>, i: int) -> int
    decreases text.len() - i when 0 <= i <= text.len()
{
    if i >= text.len() {
        i
    } else if is_terminator_char(text[i]) {
        i
    } else {
        ident_end(text, i + 1)
    }
}

/// The position where an ignorable run that is being scanned from `i`
/// ends: the first position at or after `i` holding a non-whitespace
/// character, or the end of the text.
pub open spec fn none_end(text: Seq<char>, i: int) -> int
    decreases text.len() - i when 0 <= i <= text.len()
{
    if i >= text.len() {
        i
    } else if !is_ignore_char(text[i]) {
        i
    } else {
        none_end(text, i + 1)
    }
}

/// The position of the closing quote of a string literal whose interior
/// starts at `i`: the first position at or after `i` holding `'"'`, or
/// the end of the text if the literal is never closed.
pub open spec fn quote_end(text: Seq<char>, i: int) -> int
    decreases text.len() - i when 0 <= i <= text.len()
{
    if i >= text.len() {
        i
    } else if text[i] == '"' {
        i
    } else {
        quote_end(text, i + 1)
    }
}

/// Outcome of the numeric-literal scanning state machine.
pub enum NumScan {
    /// Scanning stopped normally at `end` (a terminator or the end of the
    /// text); `dot` is the offset of the single decimal point, if one was
    /// seen.
    Done { end: int, dot: Option<int> },
    /// A second decimal point was seen; scanning stopped at the second.
    DoubleDot { first: int, second: int },
    /// A character that is neither digit, point nor terminator was seen.
    Invalid { at: int },
}

/// The numeric-literal state machine, examining characters from `i` with
/// `dot` recording the decimal point already seen, if any. Mirrors the
/// cursor exactly: a terminator or the end of the text stops the scan, a
/// first point is recorded and consumed, a second point or a foreign
/// character aborts at its own offset.
pub open spec fn scan_number(text: Seq<char>, i: int, dot: Option<int>) -> NumScan
    decreases text.len() - i when 0 <= i <= text.len()
{
    if i >= text.len() {
        NumScan::Done { end: i, dot }
    } else if text[i] == '.' {
        match dot {
            Some(first) => NumScan::DoubleDot { first, second: i },
            None => scan_number(text, i + 1, Some(i)),
        }
    } else if is_terminator_char(text[i]) {
        NumScan::Done { end: i, dot }
    } else if !is_digit_char(text[i]) {
        NumScan::Invalid { at: i }
    } else {
        scan_number(text, i + 1, dot)
    }
}

/// The numeric value of a run of decimal digits, most significant first.
pub open spec fn digits_val(s: Seq<char>) -> int
    decreases s.len(),
{
    if s.len() == 0 {
        0
    } else {
        digits_val(s.drop_last()) * 10 + (s.last() as int - '0' as int)
    }
}

/// `ident_end` stays within the text and everything before it is
/// non-terminator; if it stops short of the end it stops on a terminator.
pub proof fn lemma_ident_end(text: Seq<char>, i: int)
    requires
        0 <= i <= text.len(),
    ensures
        i <= ident_end(text, i) <= text.len(),
        forall|j: int| i <= j < ident_end(text, i) ==> !is_terminator_char(text[j]),
        ident_end(text, i) < text.len() ==> is_terminator_char(text[ident_end(text, i)]),
    decreases text.len() - i,
{
    if i < text.len() && !is_terminator_char(text[i]) {
        lemma_ident_end(text, i + 1);
    }
}

/// `none_end` stays within the text and everything before it is
/// whitespace; if it stops short of the end it stops on non-whitespace.
pub proof fn lemma_none_end(text: Seq<char>, i: int)
    requires
        0 <= i <= text.len(),
    ensures
        i <= none_end(text, i) <= text.len(),
        forall|j: int| i <= j < none_end(text, i) ==> is_ignore_char(text[j]),
        none_end(text, i) < text.len() ==> !is_ignore_char(text[none_end(text, i)]),
    decreases text.len() - i,
{
    if i < text.len() && is_ignore_char(text[i]) {
        lemma_none_end(text, i + 1);
    }
}

/// `quote_end` stays within the text, everything before it is not a
/// quote, and if it stops short of the end it stops on a quote.
pub proof fn lemma_quote_end(text: Seq<char>, i: int)
    requires
        0 <= i <= text.len(),
    ensures
        i <= quote_end(text, i) <= text.len(),
        forall|j: int| i <= j < quote_end(text, i) ==> text[j] != '"',
        quote_end(text, i) < text.len() ==> text[quote_end(text, i)] == '"',
    decreases text.len() - i,
{
    if i < text.len() && text[i] != '"' {
        lemma_quote_end(text, i + 1);
    }
}

/// Bounds of the numeric-literal state machine: a normal stop lies
/// between `i` and the end of the text, an abort lies on a character of
/// the text at or after `i`, and a recorded point lies before the stop.
pub proof fn lemma_scan_number_bounds(text: Seq<char>, i: int, dot: Option<int>)
    requires
        0 <= i <= text.len(),
    ensures
        match scan_number(text, i, dot) {
            NumScan::Done { end, dot: d } => {
                &&& i <= end <= text.len()
                &&& (end < text.len() ==> is_terminator_char(text[end]))
                &&& (dot is Some ==> d == dot)
            },
            NumScan::DoubleDot { first, second } => {
                &&& i <= second < text.len()
                &&& text[second] == '.'
                &&& (dot is Some ==> dot == Some(first))
            },
            NumScan::Invalid { at } => {
                &&& i <= at < text.len()
                &&& !is_digit_char(text[at])
                &&& text[at] != '.'
                &&& !is_terminator_char(text[at])
            },
        },
    decreases text.len() - i,
{
    if i < text.len() {
        if text[i] == '.' {
            if dot is None {
                lemma_scan_number_bounds(text, i + 1, Some(i));
            }
        } else if !is_terminator_char(text[i]) && is_digit_char(text[i]) {
            lemma_scan_number_bounds(text, i + 1, dot);
        }
    }
}

/// When the state machine stops normally without ever recording a
/// decimal point, every character it walked over is a digit.
pub proof fn lemma_scan_number_all_digits(text: Seq<char>, i: int)
    requires
        0 <= i <= text.len(),
        scan_number(text, i, None) matches NumScan::Done { dot: Option::None, .. },
    ensures
        forall|j: int|
            i <= j < scan_number(text, i, None)->Done_end ==> is_digit_char(text[j]),
    decreases text.len() - i,
{
    if i < text.len() {
        if text[i] == '.' {
            lemma_scan_number_dot_stays(text, i + 1, i);
        } else if !is_terminator_char(text[i]) && is_digit_char(text[i]) {
            lemma_scan_number_all_digits(text, i + 1);
        }
    }
}

/// Once a decimal point has been recorded, a normal stop still carries
/// it: the machine never forgets the point.
pub proof fn lemma_scan_number_dot_stays(text: Seq<char>, i: int, first: int)
    requires
        0 <= i <= text.len(),
    ensures
        !(scan_number(text, i, Some(first)) matches NumScan::Done {
            dot: Option::None,
            ..
        }),
    decreases text.len() - i,
{
    if i < text.len() && text[i] != '.' && !is_terminator_char(text[i])
        && is_digit_char(text[i]) {
        lemma_scan_number_dot_stays(text, i + 1, first);
    }
}

/// Model-level description of one item the cursor can produce: a token
/// of some category with its span, or a positioned error. Spans are
/// half-open character ranges into the source text; a string literal's
/// span runs from its opening quote up to and past its closing quote,
/// while its payload is the interior strictly between them.
pub enum SpecItem {
    NoneTok { lo: int, hi: int },
    IdentTok { lo: int, hi: int },
    IntTok { lo: int, hi: int },
    FloatTok { lo: int, hi: int },
    StrTok { lo: int, hi: int },
    OpenTok { at: int },
    CloseTok { at: int },
    CommaTok { at: int },
    TermTok { at: int },
    ErrNotClosed { open: int },
    ErrDoubleDot { first: int, second: int },
    ErrInvalidDigit { at: int },
    ErrIntRange { lo: int, hi: int },
}

/// One whole production step of the cursor standing at `i`: the item it
/// yields and the position the cursor stands at afterwards. The first
/// character decides the dispatch: a quote starts a string literal, the
/// four punctuation marks are single-character tokens, a digit starts a
/// numeric literal, an alphabetic character an identifier, and anything
/// else an ignorable run.
pub open spec fn spec_step(text: Seq<char>, i: int) -> (SpecItem, int)
    recommends
        0 <= i < text.len(),
{
    let c = text[i];
    if c == '"' {
        let q = quote_end(text, i + 1);
        if q < text.len() {
            (SpecItem::StrTok { lo: i, hi: q + 1 }, q + 1)
        } else {
            (SpecItem::ErrNotClosed { open: i }, text.len() as int)
        }
    } else if c == '(' {
        (SpecItem::OpenTok { at: i }, i + 1)
    } else if c == ')' {
        (SpecItem::CloseTok { at: i }, i + 1)
    } else if c == ',' {
        (SpecItem::CommaTok { at: i }, i + 1)
    } else if c == ';' {
        (SpecItem::TermTok { at: i }, i + 1)
    } else if is_digit_char(c) {
        match scan_number(text, i + 1, Option::None) {
            NumScan::Done { end, dot } => {
                if dot is Some {
                    (SpecItem::FloatTok { lo: i, hi: end }, end)
                } else if digits_val(text.subrange(i, end)) <= i32::MAX {
                    (SpecItem::IntTok { lo: i, hi: end }, end)
                } else {
                    (SpecItem::ErrIntRange { lo: i, hi: end }, end)
                }
            },
            NumScan::DoubleDot { first, second } => (
                SpecItem::ErrDoubleDot { first, second },
                second,
            ),
            NumScan::Invalid { at } => (SpecItem::ErrInvalidDigit { at }, at),
        }
    } else if is_alphabetic_char(c) {
        (SpecItem::IdentTok { lo: i, hi: ident_end(text, i + 1) }, ident_end(text, i + 1))
    } else {
        (SpecItem::NoneTok { lo: i, hi: none_end(text, i + 1) }, none_end(text, i + 1))
    }
}

/// The span of the token an item describes, or nothing for an error.
pub open spec fn item_span(item: SpecItem) -> Option<(int, int)> {
    match item {
        SpecItem::NoneTok { lo, hi } => Option::Some((lo, hi)),
        SpecItem::IdentTok { lo, hi } => Option::Some((lo, hi)),
        SpecItem::IntTok { lo, hi } => Option::Some((lo, hi)),
        SpecItem::FloatTok { lo, hi } => Option::Some((lo, hi)),
        SpecItem::StrTok { lo, hi } => Option::Some((lo, hi)),
        SpecItem::OpenTok { at } => Option::Some((at, at + 1)),
        SpecItem::CloseTok { at } => Option::Some((at, at + 1)),
        SpecItem::CommaTok { at } => Option::Some((at, at + 1)),
        SpecItem::TermTok { at } => Option::Some((at, at + 1)),
        SpecItem::ErrNotClosed { .. } => Option::None,
        SpecItem::ErrDoubleDot { .. } => Option::None,
        SpecItem::ErrInvalidDigit { .. } => Option::None,
        SpecItem::ErrIntRange { .. } => Option::None,
    }
}

/// A production step always makes progress and stays within the text,
/// and a token's span is exactly the range of positions the step
/// consumed.
pub proof fn lemma_spec_step(text: Seq<char>, i: int)
    requires
        0 <= i < text.len(),
    ensures
        ({
            let (item, next) = spec_step(text, i);
            &&& i < next <= text.len()
            &&& (item_span(item) matches Some(sp) ==> sp.0 == i && sp.1 == next)
        }),
{
    let c = text[i];
    if c == '"' {
        lemma_quote_end(text, i + 1);
    } else if c == '(' || c == ')' || c == ',' || c == ';' {
    } else if is_digit_char(c) {
        lemma_scan_number_bounds(text, i + 1, Option::None);
    } else if is_alphabetic_char(c) {
        lemma_ident_end(text, i + 1);
    } else {
        lemma_none_end(text, i + 1);
    }
}

/// The value of a digit run is non-negative.
pub proof fn lemma_digits_val_nonneg(s: Seq<char>)
    requires
        forall|j: int| 0 <= j < s.len() ==> is_digit_char(s[j]),
    ensures
        digits_val(s) >= 0,
    decreases s.len(),
{
    if s.len() > 0 {
        lemma_digits_val_nonneg(s.drop_last());
    }
}

/// Extending a digit run never decreases its value: the value of any
/// prefix is at most the value of the whole run.
pub proof fn lemma_digits_val_prefix_le(s: Seq<char>, m: int)
    requires
        forall|j: int| 0 <= j < s.len() ==> is_digit_char(s[j]),
        0 <= m <= s.len(),
    ensures
        digits_val(s.subrange(0, m)) <= digits_val(s),
    decreases s.len() - m,
{
    if m < s.len() {
        lemma_digits_val_prefix_le(s, m + 1);
        let p = s.subrange(0, m);
        let q = s.subrange(0, m + 1);
        assert(q.drop_last() =~= p);
        lemma_digits_val_nonneg(p);
        assert(digits_val(q) == digits_val(p) * 10 + (q.last() as int - '0' as int));
        assert(digits_val(p) * 10 >= digits_val(p)) by (nonlinear_arith)
            requires digits_val(p) >= 0;
    } else {
        assert(s.subrange(0, m) =~= s);
    }
}

} // verus!
