//! Stream-level properties of the scan.
//!
//! [`lex_trace`] iterates the single-step model [`crate::scan::spec_step`]
//! that the exec scanner is verified against, collecting the tokens
//! produced up to the end of the text or the first error. The proof
//! functions here state what holds of that stream as a whole: the
//! round-trip property of token spans and the totality of the
//! classification.

use vstd::prelude::*;

use crate::scan::{
    is_ascii_letter, is_digit_char, item_span, lemma_spec_step, spec_step, SpecItem,
};

verus! {

/// One entry of a scan trace: the item produced, the position the
/// cursor stood at before the step, and the position after it.
pub struct TraceEntry {
    pub item: SpecItem,
    pub start: int,
    pub next: int,
}

/// The trace of the scan from position `i`: the sequence of tokens
/// produced before the text is exhausted or an error item is yielded,
/// and the position the cursor stands at then. `fuel` bounds the number
/// of steps; any fuel of at least the remaining length completes the
/// scan, since every step consumes at least one character.
pub open spec fn lex_trace(text: Seq<char>, i: int, fuel: nat) -> (Seq<TraceEntry>, int)
    decreases fuel,
{
    if fuel == 0 || i < 0 || i >= text.len() {
        (Seq::<TraceEntry>::empty(), i)
    } else {
        let (item, next) = spec_step(text, i);
        if item_span(item) is None {
            (Seq::<TraceEntry>::empty(), i)
        } else {
            let (rest, end) = lex_trace(text, next, (fuel - 1) as nat);
            ((seq![TraceEntry { item, start: i, next }]) + rest, end)
        }
    }
}

/// The concatenation of the source slices of the token spans of a
/// trace, in emission order.
pub open spec fn concat_spans(text: Seq<char>, entries: Seq<TraceEntry>) -> Seq<char>
    decreases entries.len(),
{
    if entries.len() == 0 {
        Seq::<char>::empty()
    } else {
        (match item_span(entries[0].item) {
            Option::Some(sp) => text.subrange(sp.0, sp.1),
            Option::None => Seq::<char>::empty(),
        }) + concat_spans(text, entries.drop_first())
    }
}

/// **Round trip.** For any input text, concatenating the source spans
/// of every token produced, in emission order — the trace stopping at
/// the first error, if any — reproduces exactly the prefix of the
/// input that the cursor walked over; when the scan reaches the end of
/// the text without an error, it reproduces the whole input.
pub proof fn lemma_round_trip(text: Seq<char>, i: int, fuel: nat)
    requires
        0 <= i <= text.len(),
    ensures
        i <= lex_trace(text, i, fuel).1 <= text.len(),
        concat_spans(text, lex_trace(text, i, fuel).0) == text.subrange(
            i,
            lex_trace(text, i, fuel).1,
        ),
    decreases fuel,
{
    let (entries, end) = lex_trace(text, i, fuel);
    if fuel == 0 || i >= text.len() {
        assert(concat_spans(text, entries) =~= text.subrange(i, end));
    } else {
        let (item, next) = spec_step(text, i);
        lemma_spec_step(text, i);
        if item_span(item) is None {
            assert(concat_spans(text, entries) =~= text.subrange(i, end));
        } else {
            let first = TraceEntry { item, start: i, next };
            let (rest, _) = lex_trace(text, next, (fuel - 1) as nat);
            assert(entries == seq![first] + rest);
            assert(entries[0] == first);
            lemma_round_trip(text, next, (fuel - 1) as nat);
            assert(entries.drop_first() =~= rest);
            let sp = item_span(item)->Some_0;
            assert(text.subrange(sp.0, sp.1) + text.subrange(next, end) =~= text.subrange(
                i,
                end,
            ));
        }
    }
}

/// The characters over which the classification is total: ASCII
/// letters, decimal digits, the quote, the parentheses, the apostrophe,
/// the comma, the semicolon, space, tab and newline.
pub open spec fn classification_alphabet(c: char) -> bool {
    ||| is_ascii_letter(c)
    ||| is_digit_char(c)
    ||| c == '"'
    ||| c == '('
    ||| c == ')'
    ||| c == '\''
    ||| c == ','
    ||| c == ';'
    ||| c == ' '
    ||| c == '\t'
    ||| c == '\n'
}

/// Whether trace entry `en` accounts for position `j`: the step that
/// produced it consumed the character there.
pub open spec fn entry_claims(en: TraceEntry, j: int) -> bool {
    en.start <= j < en.next
}

/// Whether some token of the scan from `i` accounts for position `j`.
pub open spec fn covered(text: Seq<char>, i: int, fuel: nat, j: int) -> bool {
    exists|k: int|
        0 <= k < lex_trace(text, i, fuel).0.len() && entry_claims(
            #[trigger] lex_trace(text, i, fuel).0[k],
            j,
        )
}

/// **Classification totality**, generalized to any start position: when
/// a scan runs to the end of the text without an error, every character
/// the cursor walked over is consumed by exactly one token — no gaps,
/// no overlaps — and each token's span is exactly the range it
/// consumed; in particular a string literal's interior and both its
/// quotes are covered by that single literal token.
pub proof fn lemma_totality_from(text: Seq<char>, i: int, fuel: nat)
    requires
        0 <= i <= text.len(),
        lex_trace(text, i, fuel).1 == text.len(),
    ensures
        forall|j: int| i <= j < text.len() ==> #[trigger] covered(text, i, fuel, j),
        forall|k: int|
            0 <= k < lex_trace(text, i, fuel).0.len() ==> i <= #[trigger] lex_trace(
                text,
                i,
                fuel,
            ).0[k].start < lex_trace(text, i, fuel).0[k].next <= text.len(),
        forall|k1: int, k2: int, j: int|
            0 <= k1 < lex_trace(text, i, fuel).0.len() && 0 <= k2 < lex_trace(
                text,
                i,
                fuel,
            ).0.len() && #[trigger] entry_claims(lex_trace(text, i, fuel).0[k1], j)
                && #[trigger] entry_claims(lex_trace(text, i, fuel).0[k2], j) ==> k1 == k2,
        forall|k: int|
            0 <= k < lex_trace(text, i, fuel).0.len() ==> ({
                let en = #[trigger] lex_trace(text, i, fuel).0[k];
                match item_span(en.item) {
                    Option::Some(sp) => sp.0 == en.start && sp.1 == en.next,
                    Option::None => false,
                }
            }),
    decreases fuel,
{
    let (entries, end) = lex_trace(text, i, fuel);
    if fuel == 0 || i >= text.len() {
    } else {
        let (item, next) = spec_step(text, i);
        lemma_spec_step(text, i);
        if item_span(item) is None {
        } else {
            let first = TraceEntry { item, start: i, next };
            let (rest, _) = lex_trace(text, next, (fuel - 1) as nat);
            assert(entries == seq![first] + rest);
            assert(entries[0] == first);
            lemma_totality_from(text, next, (fuel - 1) as nat);
            assert forall|k: int| 0 <= k < rest.len() implies entries[k + 1] == rest[k] by {}
            assert forall|j: int| i <= j < text.len() implies #[trigger] covered(
                text,
                i,
                fuel,
                j,
            ) by {
                if j < next {
                    assert(entry_claims(entries[0], j));
                } else {
                    assert(covered(text, next, (fuel - 1) as nat, j));
                    let k0 = choose|k0: int|
                        0 <= k0 < rest.len() && entry_claims(#[trigger] rest[k0], j);
                    assert(entry_claims(entries[k0 + 1], j));
                }
            }
        }
    }
}

/// **Classification totality.** For an input composed only of the
/// characters of [`classification_alphabet`] — or indeed any input —
/// whose scan runs to the end without an error, every character is
/// covered by exactly one token's span — no gaps, no overlaps — each
/// span being exactly the run its step consumed; a string literal's
/// interior and quotes are covered by that single literal token.
pub proof fn lemma_classification_totality(text: Seq<char>, fuel: nat)
    requires
        forall|j: int| 0 <= j < text.len() ==> classification_alphabet(#[trigger] text[j]),
        lex_trace(text, 0, fuel).1 == text.len(),
    ensures
        forall|j: int| 0 <= j < text.len() ==> #[trigger] covered(text, 0, fuel, j),
        forall|k1: int, k2: int, j: int|
            0 <= k1 < lex_trace(text, 0, fuel).0.len() && 0 <= k2 < lex_trace(
                text,
                0,
                fuel,
            ).0.len() && #[trigger] entry_claims(lex_trace(text, 0, fuel).0[k1], j)
                && #[trigger] entry_claims(lex_trace(text, 0, fuel).0[k2], j) ==> k1 == k2,
        forall|k: int|
            0 <= k < lex_trace(text, 0, fuel).0.len() ==> ({
                let en = #[trigger] lex_trace(text, 0, fuel).0[k];
                match item_span(en.item) {
                    Option::Some(sp) => sp.0 == en.start && sp.1 == en.next,
                    Option::None => false,
                }
            }),
{
    lemma_totality_from(text, 0, fuel);
}

} // verus!
