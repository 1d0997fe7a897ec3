//! The atoms of an expression: numbers, operations and parentheses.

use crate::operation::Operations;
use vstd::prelude::*;
use vstd::string::StringExecFns;

verus! {

/// Represents something that can appear in a valid expression.
#[derive(Copy, Clone, Debug, PartialEq, Eq, Structural)]
pub enum ExpressionAtom {
    /// e.g: 1, 5
    Number(u32),
    /// e.g: *, /
    Operation(Operations),
    /// i.e (
    LeftParenthesis,
    /// i.e )
    RightParenthesis,
}

/// The character that writes a digit from 0 to 9.
pub open spec fn digit_character(digit: nat) -> char
    recommends
        digit < 10,
{
    (digit + '0' as nat) as char
}

/// A number written in base ten, without leading zeros; zero is `0`.
pub open spec fn decimal_text(value: nat) -> Seq<char>
    decreases value,
{
    if value < 10 {
        seq![digit_character(value)]
    } else {
        decimal_text(value / 10).push(digit_character(value % 10))
    }
}

/// The string of one digit.
fn digit_text(digit: u32) -> (text: &'static str)
    requires
        digit < 10,
    ensures
        text@ == seq![digit_character(digit as nat)],
{
    proof {
        reveal_strlit("0");
        reveal_strlit("1");
        reveal_strlit("2");
        reveal_strlit("3");
        reveal_strlit("4");
        reveal_strlit("5");
        reveal_strlit("6");
        reveal_strlit("7");
        reveal_strlit("8");
        reveal_strlit("9");
    }
    let text = match digit {
        0 => "0",
        1 => "1",
        2 => "2",
        3 => "3",
        4 => "4",
        5 => "5",
        6 => "6",
        7 => "7",
        8 => "8",
        _ => "9",
    };
    assert(text@ =~= seq![digit_character(digit as nat)]);
    text
}

/// Writes a number in base ten at the end of a string.
fn append_decimal(text: &mut String, value: u32)
    ensures
        final(text)@ == old(text)@ + decimal_text(value as nat),
    decreases value,
{
    if value >= 10 {
        append_decimal(text, value / 10);
    }
    text.append(digit_text(value % 10));
}

impl ExpressionAtom {
    /// How an atom is shown to a reader: a number as `Number(` and its
    /// decimal digits and `)`, an operation as `Operation(` and its name and
    /// `)`, the parentheses as `LPAREN` and `RPAREN`.
    pub open spec fn shown(self) -> Seq<char> {
        match self {
            ExpressionAtom::Number(value) => "Number("@ + decimal_text(value as nat) + ")"@,
            ExpressionAtom::Operation(operation) => "Operation("@ + operation.name() + ")"@,
            ExpressionAtom::LeftParenthesis => "LPAREN"@,
            ExpressionAtom::RightParenthesis => "RPAREN"@,
        }
    }

    /// The atom as a string, for a reader. It is not meant to be read back.
    pub fn to_text(&self) -> (text: String)
        ensures
            text@ == self.shown(),
    {
        match self {
            ExpressionAtom::Number(value) => {
                let mut text = "Number(".to_owned();
                append_decimal(&mut text, *value);
                text.append(")");
                text
            },
            ExpressionAtom::Operation(operation) => {
                let mut text = "Operation(".to_owned();
                text.append(operation.to_text().as_str());
                text.append(")");
                text
            },
            ExpressionAtom::LeftParenthesis => "LPAREN".to_owned(),
            ExpressionAtom::RightParenthesis => "RPAREN".to_owned(),
        }
    }
}

} // verus!
