//! Lexical analysis of arithmetic expressions.
//!
//! An expression such as `12+(3*4)` is read into a sequence of atoms:
//! numbers, binary operations and parentheses, in the order in which they
//! are written. Every executable function carries a contract, and what holds
//! of the tokenizer on every text is stated and proved in [`lemmas`].
//!
//! - [`operation`]: the five operations, their symbols and their order.
//! - [`atom`]: the atoms and how they are shown.
//! - [`tokenizer`]: from text to atoms.
//! - [`segments`]: the pieces of a text that become atoms.
//! - [`lemmas`]: what the tokenizer guarantees.
//! - [`calculator`]: arithmetic on two operands.

pub mod atom;
pub mod calculator;
pub mod lemmas;
pub mod operation;
pub mod segments;
pub mod tokenizer;

pub use crate::atom::ExpressionAtom;
pub use crate::calculator::calculate;
pub use crate::calculator::ExpressionStack;
pub use crate::operation::turn_into_character;
pub use crate::operation::turn_into_operation;
pub use crate::operation::Operations;
pub use crate::operation::ORDER_OF_OPERATIONS;
pub use crate::tokenizer::OperationTokenTree;
