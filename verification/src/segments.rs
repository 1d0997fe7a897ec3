//! How a text is cut into the pieces that become atoms.
//!
//! A text in which every character is read falls into segments: each run of
//! digits that cannot be made longer is one segment, and every other
//! character is a segment of its own. The tokenizer gives one atom for each
//! segment, which is what the lemmas in this crate prove of it.

use crate::atom::ExpressionAtom;
use crate::tokenizer::{atom_of, digit_value, is_digit, saturated};
use vstd::prelude::*;

verus! {

/// Whether a character gives an atom, alone or as part of a number.
pub open spec fn is_read(character: char) -> bool {
    atom_of(character) is Some
}

/// The characters of `text` that are read, in their order.
pub open spec fn read_characters(text: Seq<char>) -> Seq<char> {
    text.filter(|character: char| is_read(character))
}

/// Whether every character of `text` is read.
pub open spec fn all_read(text: Seq<char>) -> bool {
    forall|i: int| 0 <= i < text.len() ==> is_read(#[trigger] text[i])
}

/// Whether every character of `text` is a decimal digit.
pub open spec fn all_digits(text: Seq<char>) -> bool {
    forall|i: int| 0 <= i < text.len() ==> is_digit(#[trigger] text[i])
}

/// The number that a sequence of digits writes in base ten, the first digit
/// being the most significant. It has no upper bound.
pub open spec fn decimal_value(digits: Seq<char>) -> nat
    decreases digits.len(),
{
    if digits.len() == 0 {
        0
    } else {
        decimal_value(digits.drop_last()) * 10 + digit_value(digits.last()) as nat
    }
}

/// Whether a text ends in a digit, so that a digit that follows belongs to
/// the same run.
pub open spec fn ends_in_digit(text: Seq<char>) -> bool {
    text.len() > 0 && is_digit(text.last())
}

/// The segments of a text: a digit joins the segment of the digit before it,
/// and every other character starts a new segment.
pub open spec fn segments(text: Seq<char>) -> Seq<Seq<char>>
    decreases text.len(),
{
    if text.len() == 0 {
        Seq::empty()
    } else {
        let before = segments(text.drop_last());
        if is_digit(text.last()) && ends_in_digit(text.drop_last()) {
            before.drop_last().push(before.last().push(text.last()))
        } else {
            before.push(seq![text.last()])
        }
    }
}

/// Whether a segment is a run of digits.
pub open spec fn is_digit_run(segment: Seq<char>) -> bool {
    segment.len() > 0 && all_digits(segment)
}

/// Whether a segment is one character that is read and is no digit: an
/// operation symbol or a parenthesis.
pub open spec fn is_symbol(segment: Seq<char>) -> bool {
    segment.len() == 1 && is_read(segment[0]) && !is_digit(segment[0])
}

/// The atom of a segment: for a run of digits the number that they write,
/// cut off at `u32::MAX`; for a symbol its atom.
pub open spec fn segment_atom(segment: Seq<char>) -> ExpressionAtom {
    if is_digit(segment[0]) {
        ExpressionAtom::Number(saturated(decimal_value(segment) as int))
    } else {
        atom_of(segment[0])->0
    }
}

/// The atoms of a sequence of segments.
pub open spec fn segment_atoms(pieces: Seq<Seq<char>>) -> Seq<ExpressionAtom> {
    pieces.map_values(|segment: Seq<char>| segment_atom(segment))
}

} // verus!
