//! What holds of the tokenizer on every text, stated over its spec functions
//! and proved.

use crate::atom::ExpressionAtom;
use crate::operation::{operation_of, symbol_of};
use crate::segments::{
    all_read, decimal_value, ends_in_digit, is_digit_run, is_read, is_symbol, read_characters,
    segment_atom, segment_atoms, segments,
};
use crate::tokenizer::{
    atom_of, digit_value, ends_in_number, is_digit, merged_runs, provisional_atoms, saturated,
    token_sequence,
};
use vstd::prelude::*;

verus! {

/// The first pass reads a text character by character: the atoms of a text
/// with one more character are the atoms of the text, followed by the atom of
/// that character if it has one.
pub proof fn lemma_atoms_of_push(text: Seq<char>, character: char)
    ensures
        provisional_atoms(text.push(character)) == match atom_of(character) {
            Some(atom) => provisional_atoms(text).push(atom),
            None => provisional_atoms(text),
        },
{
    assert(text.push(character).drop_last() == text);
}

/// A text in which every character is read has one provisional atom for each
/// character: the atom of that character.
pub proof fn lemma_atoms_of_read_text(text: Seq<char>)
    requires
        all_read(text),
    ensures
        provisional_atoms(text).len() == text.len(),
        forall|i: int|
            0 <= i < text.len() ==> atom_of(text[i]) == Some(#[trigger] provisional_atoms(text)[i]),
    decreases text.len(),
{
    if text.len() > 0 {
        lemma_atoms_of_read_text(text.drop_last());
        lemma_atoms_of_push(text.drop_last(), text.last());
    }
}

/// The second pass never gives nothing for something, and what it gives ends
/// in a number exactly where what it was given does.
pub proof fn lemma_merged_runs_end(atoms: Seq<ExpressionAtom>)
    requires
        atoms.len() > 0,
    ensures
        merged_runs(atoms).len() > 0,
        merged_runs(atoms).last() is Number <==> atoms.last() is Number,
    decreases atoms.len(),
{
    if atoms.len() > 1 {
        lemma_merged_runs_end(atoms.drop_last());
    }
}

/// Cutting a value off before the next digit is appended changes nothing in
/// the value that is cut off after it.
pub proof fn lemma_saturation_is_sticky(value: nat, digit: nat)
    ensures
        saturated(saturated(value as int) * 10 + digit) == saturated((value * 10 + digit) as int),
{
}

/// The segments of a text cover it: put one after the other they are the
/// text again, so every character lies in exactly one segment. Each segment
/// is a run of digits or one character that is no digit, and no run of digits
/// is followed by another, so that every run is as long as it can be.
pub proof fn lemma_segments_cover_the_text(text: Seq<char>)
    ensures
        segments(text).flatten() == text,
        forall|k: int|
            0 <= k < segments(text).len() ==> {
                let segment = #[trigger] segments(text)[k];
                is_digit_run(segment) || (segment.len() == 1 && !is_digit(segment[0]))
            },
        forall|k: int|
            0 < k < segments(text).len() ==> !(is_digit_run(segments(text)[k - 1]) && is_digit_run(
                #[trigger] segments(text)[k],
            )),
        text.len() > 0 ==> segments(text).len() > 0 && segments(text).last().len() > 0
            && segments(text).last().last() == text.last(),
        all_read(text) ==> forall|k: int|
            0 <= k < segments(text).len() ==> all_read(#[trigger] segments(text)[k]),
    decreases text.len(),
{
    if text.len() > 0 {
        let before = text.drop_last();
        let character = text.last();
        let pieces = segments(before);
        let result = segments(text);
        lemma_segments_cover_the_text(before);
        if all_read(text) {
            assert forall|i: int| 0 <= i < before.len() implies is_read(#[trigger] before[i]) by {
                assert(before[i] == text[i]);
            }
            assert forall|k: int| 0 <= k < result.len() implies all_read(
                #[trigger] result[k],
            ) by {
                if k < result.len() - 1 {
                    assert(result[k] == pieces[k]);
                }
            }
        }
        if is_digit(character) && ends_in_digit(before) {
            // The character makes the last run one digit longer.
            let run = pieces.last();
            assert(result.flatten() == text) by {
                pieces.lemma_flatten_and_flatten_alt_are_equivalent();
                result.lemma_flatten_and_flatten_alt_are_equivalent();
                assert(result.drop_last() == pieces.drop_last());
                assert(pieces.drop_last().flatten_alt() + run.push(character) == (
                pieces.drop_last().flatten_alt() + run).push(character));
            }
            assert forall|k: int| 0 < k < result.len() implies !(is_digit_run(result[k - 1])
                && is_digit_run(#[trigger] result[k])) by {
                assert(result[k - 1] == pieces[k - 1]);
            }
        } else {
            // The character is a segment of its own.
            assert(result.flatten() == text) by {
                pieces.lemma_flatten_push(seq![character]);
            }
            assert forall|k: int| 0 < k < result.len() implies !(is_digit_run(result[k - 1])
                && is_digit_run(#[trigger] result[k])) by {
                assert(result[k - 1] == pieces[k - 1]);
                if k == result.len() - 1 && !is_digit(character) {
                    assert(!is_digit(result[k][0]));
                }
            }
        }
    }
}

/// The tokenizer gives one atom for each segment of a text in which every
/// character is read, in the order of the segments: for a run of digits the
/// number that the digits write, first digit first, cut off at `u32::MAX`,
/// and for any other character its atom.
pub proof fn lemma_one_atom_for_each_segment(text: Seq<char>)
    requires
        all_read(text),
    ensures
        token_sequence(text) == segment_atoms(segments(text)),
    decreases text.len(),
{
    if text.len() > 0 {
        let before = text.drop_last();
        let character = text.last();
        let pieces = segments(before);
        let atoms = provisional_atoms(before);
        lemma_one_atom_for_each_segment(before);
        lemma_segments_cover_the_text(before);
        lemma_atoms_of_read_text(before);
        lemma_atoms_of_push(before, character);
        assert(provisional_atoms(text).drop_last() == atoms);
        if before.len() > 0 {
            lemma_merged_runs_end(atoms);
        }
        if is_digit(character) && ends_in_digit(before) {
            let run = pieces.last();
            assert(run.push(character).drop_last() == run);
            lemma_saturation_is_sticky(decimal_value(run), digit_value(character) as nat);
            assert(segment_atoms(segments(text)) == segment_atoms(pieces).drop_last().push(
                segment_atom(run.push(character)),
            ));
        } else {
            assert(decimal_value(seq![character].drop_last()) == 0);
        }
    }
}

/// Characters that are not read leave no trace: a text and the text without
/// them have the same atoms. What is left is a text in which every character
/// is read.
pub proof fn lemma_skipped_characters_change_nothing(text: Seq<char>)
    ensures
        all_read(read_characters(text)),
        provisional_atoms(read_characters(text)) == provisional_atoms(text),
        token_sequence(read_characters(text)) == token_sequence(text),
    decreases text.len(),
{
    let keep = |character: char| is_read(character);
    if text.len() > 0 {
        let before = text.drop_last();
        let character = text.last();
        lemma_skipped_characters_change_nothing(before);
        assert(before.push(character) == text);
        before.lemma_filter_push(character, keep);
        lemma_atoms_of_push(before, character);
        if is_read(character) {
            lemma_atoms_of_push(read_characters(before), character);
        }
    } else {
        assert(read_characters(text) == text) by {
            reveal(Seq::filter);
        }
    }
}

/// The atoms of any text are the atoms of the segments of its read
/// characters.
pub proof fn lemma_tokens_are_the_segment_atoms(text: Seq<char>)
    ensures
        token_sequence(text) == segment_atoms(segments(read_characters(text))),
{
    lemma_skipped_characters_change_nothing(text);
    lemma_one_atom_for_each_segment(read_characters(text));
}

/// In a text of digits, operation symbols and parentheses alone no character
/// is skipped. The segments of the text, one after the other, are the text
/// again; each is a run of digits that cannot be made longer, or one symbol;
/// and the atoms of the text are the atoms of its segments, one for one. So
/// every character gives exactly one atom or is part of exactly one number.
pub proof fn lemma_no_character_is_skipped(text: Seq<char>)
    requires
        all_read(text),
    ensures
        segments(text).flatten() == text,
        forall|k: int|
            0 <= k < segments(text).len() ==> is_digit_run(#[trigger] segments(text)[k])
                || is_symbol(segments(text)[k]),
        forall|k: int|
            0 < k < segments(text).len() ==> !(is_digit_run(segments(text)[k - 1]) && is_digit_run(
                #[trigger] segments(text)[k],
            )),
        token_sequence(text).len() == segments(text).len(),
        forall|k: int|
            0 <= k < segments(text).len() ==> #[trigger] token_sequence(text)[k] == segment_atom(
                segments(text)[k],
            ),
{
    lemma_segments_cover_the_text(text);
    lemma_one_atom_for_each_segment(text);
    assert forall|k: int| 0 <= k < segments(text).len() implies is_digit_run(
        #[trigger] segments(text)[k],
    ) || is_symbol(segments(text)[k]) by {
        assert(all_read(segments(text)[k]));
    }
}

/// A run of digits is one segment, and so one number: the value that the
/// digits write with the first digit as the most significant, cut off at
/// `u32::MAX`.
pub proof fn lemma_digit_run_is_one_number(digits: Seq<char>)
    requires
        is_digit_run(digits),
    ensures
        segments(digits) == seq![digits],
        token_sequence(digits) == seq![
            ExpressionAtom::Number(saturated(decimal_value(digits) as int)),
        ],
    decreases digits.len(),
{
    let before = digits.drop_last();
    if before.len() > 0 {
        lemma_digit_run_is_one_number(before);
        assert(before.push(digits.last()) == digits);
    } else {
        assert(seq![digits.last()] == digits);
        assert(segments(before) == Seq::<Seq<char>>::empty());
    }
    assert forall|i: int| 0 <= i < digits.len() implies is_read(#[trigger] digits[i]) by {
        assert(is_digit(digits[i]));
    }
    lemma_one_atom_for_each_segment(digits);
}

/// A character is of one kind at most: a digit is no operation symbol and no
/// parenthesis, and an operation symbol is no parenthesis.
pub proof fn lemma_kinds_of_characters_are_apart(character: char)
    ensures
        is_digit(character) ==> operation_of(character) is None && character != '('
            && character != ')',
        operation_of(character) is Some ==> character != '(' && character != ')',
        is_read(character) <==> is_digit(character) || operation_of(character) is Some
            || character == '(' || character == ')',
{
}

/// An operation symbol alone is read as exactly one atom, the operation that
/// the symbol stands for, and the symbol of that operation is the character
/// that was read.
pub proof fn lemma_symbol_alone_is_its_operation(character: char)
    requires
        operation_of(character) is Some,
    ensures
        token_sequence(seq![character]) == seq![
            ExpressionAtom::Operation(operation_of(character)->0),
        ],
        symbol_of(operation_of(character)->0) == character,
{
    lemma_atoms_of_push(Seq::empty(), character);
    let atom = ExpressionAtom::Operation(operation_of(character)->0);
    assert(seq![atom].drop_last() == Seq::<ExpressionAtom>::empty());
    assert(merged_runs(Seq::empty()) == Seq::<ExpressionAtom>::empty());
}

} // verus!
