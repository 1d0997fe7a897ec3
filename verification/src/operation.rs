//! The five binary operations and their one-character symbols.

use vstd::prelude::*;

verus! {

/// Defines the different binary operations that could appear in an expression.
#[derive(Copy, Clone, Debug, PartialEq, Eq, Structural)]
pub enum Operations {
    /// `1+2`
    Add,
    /// `1-2`
    Subtract,
    /// `1*2`
    Multiply,
    /// `1/2`
    Divide,
    /// `1^2`
    Power,
}

impl Operations {
    /// The name of an operation, in capital letters.
    pub open spec fn name(self) -> Seq<char> {
        match self {
            Operations::Add => "ADD"@,
            Operations::Subtract => "SUBTRACT"@,
            Operations::Multiply => "MULTIPLY"@,
            Operations::Divide => "DIVIDE"@,
            Operations::Power => "POWER"@,
        }
    }

    /// The name of the operation as a string, for a reader: `ADD`,
    /// `SUBTRACT`, `MULTIPLY`, `DIVIDE` or `POWER`.
    pub fn to_text(&self) -> (text: String)
        ensures
            text@ == self.name(),
    {
        match self {
            Operations::Add => "ADD".to_owned(),
            Operations::Subtract => "SUBTRACT".to_owned(),
            Operations::Multiply => "MULTIPLY".to_owned(),
            Operations::Divide => "DIVIDE".to_owned(),
            Operations::Power => "POWER".to_owned(),
        }
    }
}

/// What order operations are calculated in: the power first, then
/// multiplication and division, then addition and subtraction.
pub const ORDER_OF_OPERATIONS: [Operations; 5] = [
    Operations::Power,
    Operations::Multiply,
    Operations::Divide,
    Operations::Add,
    Operations::Subtract,
];

/// The operation that a character stands for, if it stands for one.
pub open spec fn operation_of(symbol: char) -> Option<Operations> {
    if symbol == '+' {
        Some(Operations::Add)
    } else if symbol == '-' {
        Some(Operations::Subtract)
    } else if symbol == '*' {
        Some(Operations::Multiply)
    } else if symbol == '/' {
        Some(Operations::Divide)
    } else if symbol == '^' {
        Some(Operations::Power)
    } else {
        None
    }
}

/// The character that is written for an operation.
pub open spec fn symbol_of(operation: Operations) -> char {
    match operation {
        Operations::Add => '+',
        Operations::Subtract => '-',
        Operations::Multiply => '*',
        Operations::Divide => '/',
        Operations::Power => '^',
    }
}

/// Given a character representing a mathematical operation, turn it into the
/// `Operations` enum. Every character other than `+ - * / ^` gives `None`.
pub fn turn_into_operation(operation_character: char) -> (operation: Option<Operations>)
    ensures
        operation == operation_of(operation_character),
{
    match operation_character {
        '+' => Some(Operations::Add),
        '-' => Some(Operations::Subtract),
        '*' => Some(Operations::Multiply),
        '/' => Some(Operations::Divide),
        '^' => Some(Operations::Power),
        _ => None,
    }
}

/// Given an operation, turns it into its character equivalent.
pub fn turn_into_character(operations: Operations) -> (symbol: char)
    ensures
        symbol == symbol_of(operations),
{
    match operations {
        Operations::Add => '+',
        Operations::Subtract => '-',
        Operations::Multiply => '*',
        Operations::Divide => '/',
        Operations::Power => '^',
    }
}

/// The place of an operation in [`ORDER_OF_OPERATIONS`], counted from 0.
pub open spec fn place_in_order(operation: Operations) -> int {
    match operation {
        Operations::Power => 0,
        Operations::Multiply => 1,
        Operations::Divide => 2,
        Operations::Add => 3,
        Operations::Subtract => 4,
    }
}

/// Symbols and operations stand for each other: the symbol of an operation
/// is read as that operation, no two operations share a symbol, and a
/// character that is read as an operation is the symbol of that operation.
pub proof fn lemma_symbols_and_operations_correspond(operation: Operations, symbol: char)
    ensures
        operation_of(symbol_of(operation)) == Some(operation),
        operation_of(symbol) == Some(operation) <==> symbol == symbol_of(operation),
{
}

/// Every operation stands in the order of operations exactly once: at its
/// place, and at no other.
pub proof fn lemma_order_lists_each_operation_once(operation: Operations)
    ensures
        ORDER_OF_OPERATIONS@.len() == 5,
        0 <= place_in_order(operation) < ORDER_OF_OPERATIONS@.len(),
        ORDER_OF_OPERATIONS@[place_in_order(operation)] == operation,
        forall|i: int|
            0 <= i < ORDER_OF_OPERATIONS@.len() && ORDER_OF_OPERATIONS@[i] == operation ==> i
                == place_in_order(operation),
{
}

} // verus!
