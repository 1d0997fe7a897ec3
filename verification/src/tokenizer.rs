//! The tokenizer: from the text of an expression to its atoms.
//!
//! The text is read in two passes. The first turns every digit, operation
//! symbol and parenthesis into an atom of its own and drops every other
//! character. The second merges each run of neighbouring digit atoms into one
//! number, most significant digit first.
//!
//! A run of digits whose value does not fit in a `u32` becomes
//! `Number(u32::MAX)`: the value saturates, and reading never fails.

use crate::atom::ExpressionAtom;
use crate::operation::{operation_of, turn_into_operation};
use vstd::prelude::*;

verus! {

/// The decimal digits are the ten characters `0` to `9`. Other characters
/// that Unicode calls numeric are not digits here.
pub open spec fn is_digit(character: char) -> bool {
    '0' <= character && character <= '9'
}

/// The value of a decimal digit, 0 to 9.
pub open spec fn digit_value(character: char) -> u32
    recommends
        is_digit(character),
{
    (character as u32 - '0' as u32) as u32
}

/// The atom that a single character gives in the first pass, or `None` for a
/// character that is skipped.
pub open spec fn atom_of(character: char) -> Option<ExpressionAtom> {
    if is_digit(character) {
        Some(ExpressionAtom::Number(digit_value(character)))
    } else if let Some(operation) = operation_of(character) {
        Some(ExpressionAtom::Operation(operation))
    } else if character == '(' {
        Some(ExpressionAtom::LeftParenthesis)
    } else if character == ')' {
        Some(ExpressionAtom::RightParenthesis)
    } else {
        None
    }
}

/// The result of the first pass: the atoms of the characters of `text`, one
/// for each character that has one, in the order of the text.
pub open spec fn provisional_atoms(text: Seq<char>) -> Seq<ExpressionAtom> {
    text.filter_map(|character: char| atom_of(character))
}

/// A value cut off at the largest `u32`.
pub open spec fn saturated(value: int) -> u32 {
    if value > u32::MAX {
        u32::MAX
    } else {
        value as u32
    }
}

/// Whether a sequence of atoms ends in a number, so that a digit that follows
/// continues that number.
pub open spec fn ends_in_number(atoms: Seq<ExpressionAtom>) -> bool {
    atoms.len() > 0 && atoms.last() is Number
}

/// The result of the second pass. A number that follows a number is merged
/// into it as its next decimal digit; every other atom is kept as it is.
pub open spec fn merged_runs(atoms: Seq<ExpressionAtom>) -> Seq<ExpressionAtom>
    decreases atoms.len(),
{
    if atoms.len() == 0 {
        Seq::empty()
    } else {
        let before = merged_runs(atoms.drop_last());
        if atoms.last() is Number && ends_in_number(atoms.drop_last()) {
            before.drop_last().push(
                ExpressionAtom::Number(
                    saturated(before.last()->Number_0 * 10 + atoms.last()->Number_0),
                ),
            )
        } else {
            before.push(atoms.last())
        }
    }
}

/// The atoms of an expression: the second pass applied to the first.
pub open spec fn token_sequence(text: Seq<char>) -> Seq<ExpressionAtom> {
    merged_runs(provisional_atoms(text))
}

/// The tokens written so far together with the number that is still being
/// built, if there is one.
spec fn with_pending(tokens: Seq<ExpressionAtom>, pending: Option<u32>) -> Seq<ExpressionAtom> {
    match pending {
        Some(number) => tokens.push(ExpressionAtom::Number(number)),
        None => tokens,
    }
}

/// Holds the atoms of an expression. Neither the order of operations nor
/// parentheses are accounted for: the atoms stand as they were written.
pub struct OperationTokenTree {
    pub tokens: Vec<ExpressionAtom>,
}

/// The atom of one character, if it has one.
fn classify_character(character: char) -> (atom: Option<ExpressionAtom>)
    ensures
        atom == atom_of(character),
{
    if character >= '0' && character <= '9' {
        Some(ExpressionAtom::Number(character as u32 - '0' as u32))
    } else if let Some(operation) = turn_into_operation(character) {
        Some(ExpressionAtom::Operation(operation))
    } else if character == '(' {
        Some(ExpressionAtom::LeftParenthesis)
    } else if character == ')' {
        Some(ExpressionAtom::RightParenthesis)
    } else {
        None
    }
}

/// The first pass: one atom for each character that is read.
fn first_pass(expression: &str) -> (atoms: Vec<ExpressionAtom>)
    ensures
        atoms@ == provisional_atoms(expression@),
{
    let mut atoms: Vec<ExpressionAtom> = Vec::new();
    for character in characters: expression.chars()
        invariant
            characters.seq() == expression@,
            atoms@ == provisional_atoms(expression@.take(characters.index() as int)),
    {
        proof {
            let read = expression@.take(characters.index() + 1);
            assert(read.drop_last() == expression@.take(characters.index() as int));
        }
        if let Some(atom) = classify_character(character) {
            atoms.push(atom);
        }
    }
    proof {
        assert(expression@.take(expression@.len() as int) == expression@);
    }
    atoms
}

/// A number with one more decimal digit at its end, cut off at `u32::MAX`.
fn merge_digit(number: u32, digit: u32) -> (merged: u32)
    ensures
        merged == saturated(number * 10 + digit),
{
    match number.checked_mul(10) {
        Some(shifted) => shifted.saturating_add(digit),
        None => u32::MAX,
    }
}

/// The second pass: each run of numbers becomes one number.
fn second_pass(atoms: &Vec<ExpressionAtom>) -> (tokens: Vec<ExpressionAtom>)
    ensures
        tokens@ == merged_runs(atoms@),
{
    let mut tokens: Vec<ExpressionAtom> = Vec::new();
    let mut building_number: Option<u32> = None;
    let mut index: usize = 0;
    while index < atoms.len()
        invariant
            index <= atoms.len(),
            with_pending(tokens@, building_number) == merged_runs(atoms@.take(index as int)),
            building_number is Some <==> ends_in_number(atoms@.take(index as int)),
        decreases atoms.len() - index,
    {
        proof {
            let read = atoms@.take(index + 1);
            assert(read.drop_last() == atoms@.take(index as int));
        }
        match atoms[index] {
            ExpressionAtom::Number(digit) => {
                building_number = match building_number {
                    Some(number) => Some(merge_digit(number, digit)),
                    None => Some(digit),
                };
            },
            atom => {
                if let Some(number) = building_number {
                    tokens.push(ExpressionAtom::Number(number));
                    building_number = None;
                }
                tokens.push(atom);
            },
        }
        index += 1;
    }
    proof {
        assert(atoms@.take(atoms@.len() as int) == atoms@);
    }
    if let Some(number) = building_number {
        tokens.push(ExpressionAtom::Number(number));
    }
    tokens
}

impl OperationTokenTree {
    /// Reads an expression into its atoms.
    ///
    /// Digits `0` to `9`, the operation symbols `+ - * / ^` and the two
    /// parentheses are read; every other character is passed over in
    /// silence. Each run of digits, with nothing but passed-over characters
    /// inside it, becomes one `Number`, cut off at `u32::MAX`. Parentheses
    /// are not matched against each other. No text is refused.
    pub fn evaluate_tokens(expression: &str) -> (tokens: Vec<ExpressionAtom>)
        ensures
            tokens@ == token_sequence(expression@),
    {
        let initial_tokenization = first_pass(expression);
        second_pass(&initial_tokenization)
    }
}

} // verus!
