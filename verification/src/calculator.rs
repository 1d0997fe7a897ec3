//! Arithmetic on two operands.

use crate::operation::Operations;
use vstd::arithmetic::power::{lemma0_pow, lemma1_pow, lemma_pow0, lemma_pow_increases, pow};
use vstd::prelude::*;

verus! {

/// The mathematical result of an operation on two integers. Division rounds
/// towards zero on natural numbers; `Power` raises `lval` to the power
/// `rval`.
pub open spec fn exact_result(lval: int, rval: int, operation: Operations) -> int {
    match operation {
        Operations::Add => lval + rval,
        Operations::Subtract => lval - rval,
        Operations::Multiply => lval * rval,
        Operations::Divide => lval / rval,
        Operations::Power => pow(lval, rval as nat),
    }
}

/// Whether an operation on two `u32` operands has a result, and one that is a
/// `u32` again: the divisor is not zero, a difference is not negative, and
/// the result is at most `u32::MAX`.
pub open spec fn has_result(lval: u32, rval: u32, operation: Operations) -> bool {
    &&& operation == Operations::Divide ==> rval != 0
    &&& 0 <= exact_result(lval as int, rval as int, operation) <= u32::MAX
}

/// `base` raised to the power `exponent`, where that fits in a `u32`. A base
/// of 2 or more then has an exponent of 31 at most, so the loop is short.
fn power(base: u32, exponent: u32) -> (result: u32)
    requires
        pow(base as int, exponent as nat) <= u32::MAX,
    ensures
        result == pow(base as int, exponent as nat),
{
    if exponent == 0 {
        proof {
            lemma_pow0(base as int);
        }
        1
    } else if base <= 1 {
        proof {
            lemma0_pow(exponent as nat);
            lemma1_pow(exponent as nat);
        }
        base
    } else {
        let mut result: u32 = 1;
        let mut raised: u32 = 0;
        proof {
            lemma_pow0(base as int);
        }
        while raised < exponent
            invariant
                1 <= base,
                raised <= exponent,
                result == pow(base as int, raised as nat),
                pow(base as int, exponent as nat) <= u32::MAX,
            decreases exponent - raised,
        {
            proof {
                reveal(pow);
                lemma_pow_increases(base as nat, (raised + 1) as nat, exponent as nat);
            }
            result = base * result;
            raised += 1;
        }
        result
    }
}

/// Calculates two numbers with the `Operations` enum.
///
/// `Power` is exponentiation, `lval` raised to the power `rval`, with
/// `0^0 = 1`. It is not the bitwise exclusive or that Rust writes `^`.
///
/// The operands must have a result in `u32`, see [`has_result`]: nothing is
/// wrapped, saturated or rounded.
pub fn calculate(lval: u32, rval: u32, operation: Operations) -> (result: u32)
    requires
        has_result(lval, rval, operation),
    ensures
        result == exact_result(lval as int, rval as int, operation),
{
    match operation {
        Operations::Add => lval + rval,
        Operations::Subtract => lval - rval,
        Operations::Multiply => lval * rval,
        Operations::Divide => lval / rval,
        Operations::Power => power(lval, rval),
    }
}

/// Holds one operation and its two operands.
///
/// Feeding it `1`, `+`, `2` makes the result `3`. It knows nothing of the
/// order of operations.
pub struct ExpressionStack {
    pub operation: Option<Operations>,
    pub left_value: Option<u32>,
    pub right_value: Option<u32>,
}

impl ExpressionStack {
    /// Whether the operation and both operands are there.
    pub open spec fn is_complete(&self) -> bool {
        &&& self.operation is Some
        &&& self.left_value is Some
        &&& self.right_value is Some
    }

    /// The result of the operation on the two operands. Nothing can be
    /// calculated without a left value, a right value and an operation, so
    /// the stack must be complete.
    pub fn calculate(&self) -> (result: u32)
        requires
            self.is_complete(),
            has_result(self.left_value->0, self.right_value->0, self.operation->0),
        ensures
            result == exact_result(
                self.left_value->0 as int,
                self.right_value->0 as int,
                self.operation->0,
            ),
    {
        calculate(self.left_value.unwrap(), self.right_value.unwrap(), self.operation.unwrap())
    }
}

} // verus!
