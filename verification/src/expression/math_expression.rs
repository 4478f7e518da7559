//! The math expressions `+`, `-`, `*`, `/`, `%`, `^`.

use crate::ast::{MathExpression, MathOperation};
use crate::either::Either;
use crate::error::{Error, ErrorModel};
use crate::evaluator::Evaluator;
use crate::expression::{evaluate, evaluate_expression};
use crate::number::{
    checked_difference, checked_power, checked_product, checked_quotient, checked_remainder,
    checked_sum, fits, power, quotient, remainder, Float,
};
use crate::outcome::{Outcome, OutcomeModel};
use crate::request::{answer, copy_number, FloatRequest};
use crate::scope::{scopes_model, ScopeModel};
use crate::value::{PrimitiveModel, PrimitiveTypes, ValueModel, ValueType};
use vstd::prelude::*;

verus! {

/// The message of the error for an integer operation without a result.
pub open spec fn no_result_message() -> Seq<char> {
    "the result of an integer operation is undefined or out of range"@
}

/// The message of the error for a math operand that is not a number.
pub open spec fn not_a_number_message() -> Seq<char> {
    "an operand of a math expression is not a number"@
}

/// A number as a binding.
pub open spec fn number(n: Either<isize, Float>) -> ValueModel {
    ValueModel::Variable(PrimitiveModel::Number(n))
}

/// The result of a math operation on two integers: the mathematical sum,
/// difference or product; the quotient rounded toward zero, and the
/// remainder that goes with it; the power. There is none where the result
/// does not fit the machine's integer, where the divisor is zero, and where
/// the exponent is negative.
pub open spec fn integer_math(operation: MathOperation, a: isize, b: isize) -> Option<isize> {
    match operation {
        MathOperation::Add => if fits(a + b) {
            Some((a + b) as isize)
        } else {
            None
        },
        MathOperation::Subtract => if fits(a - b) {
            Some((a - b) as isize)
        } else {
            None
        },
        MathOperation::Multiply => if fits(a * b) {
            Some((a * b) as isize)
        } else {
            None
        },
        MathOperation::Divide => if b != 0 && fits(quotient(a as int, b as int)) {
            Some(quotient(a as int, b as int) as isize)
        } else {
            None
        },
        MathOperation::Modulus => if b != 0 && fits(quotient(a as int, b as int)) {
            Some(remainder(a as int, b as int) as isize)
        } else {
            None
        },
        MathOperation::Exponentiation => if b >= 0 && fits(power(a as int, b as nat)) {
            Some(power(a as int, b as nat) as isize)
        } else {
            None
        },
    }
}

/// The result of a math operation on two numbers.
///
/// Two integers give an integer, or a type error where the operation has
/// no result. Where either operand is a floating-point number the result is
/// a floating-point number, the one that the engine has been told for this
/// operation on these operands; until it has been told, the result is
/// pending.
pub open spec fn number_math(
    known: Seq<(FloatRequest, Float)>,
    operation: MathOperation,
    a: Either<isize, Float>,
    b: Either<isize, Float>,
) -> OutcomeModel {
    match (a, b) {
        (Either::Left(x), Either::Left(y)) => match integer_math(operation, x, y) {
            Some(z) => OutcomeModel::Value(number(Either::Left(z))),
            None => OutcomeModel::Failure(ErrorModel::type_(no_result_message())),
        },
        _ => {
            let request = FloatRequest { operation, left: a, right: b };
            match answer(known, request) {
                Some(f) => OutcomeModel::Value(number(Either::Right(f))),
                None => OutcomeModel::Pending(request),
            }
        },
    }
}

/// The result of a math operation on two bindings: that on two numbers, and
/// a type error where either is not a number.
pub open spec fn math_outcome(
    known: Seq<(FloatRequest, Float)>,
    operation: MathOperation,
    left: ValueModel,
    right: ValueModel,
) -> OutcomeModel {
    match (left, right) {
        (
            ValueModel::Variable(PrimitiveModel::Number(a)),
            ValueModel::Variable(PrimitiveModel::Number(b)),
        ) => number_math(known, operation, a, b),
        _ => OutcomeModel::Failure(ErrorModel::type_(not_a_number_message())),
    }
}

/// The value of a math expression, seen from a scope: both operands are
/// evaluated, the left one first, and the operation is applied.
pub open spec fn evaluate_math(
    scopes: Seq<ScopeModel>,
    scope: int,
    known: Seq<(FloatRequest, Float)>,
    expression: MathExpression,
) -> OutcomeModel
    decreases expression,
{
    match expression {
        MathExpression::Number(n) => OutcomeModel::Value(number(n)),
        MathExpression::Operation { left, operation, right } => match evaluate(
            scopes,
            scope,
            known,
            *left,
        ) {
            OutcomeModel::Value(l) => match evaluate(scopes, scope, known, *right) {
                OutcomeModel::Value(r) => math_outcome(known, operation, l, r),
                other => other,
            },
            other => other,
        },
    }
}

/// A number as a binding.
pub fn number_value(n: Either<isize, Float>) -> (r: ValueType)
    ensures
        r@ == number(n),
{
    ValueType::Variable(PrimitiveTypes::Number(n))
}

/// Applies a math operation to two integers.
pub fn apply_to_integers(operation: MathOperation, a: isize, b: isize) -> (r: Option<isize>)
    ensures
        r == integer_math(operation, a, b),
{
    match operation {
        MathOperation::Add => checked_sum(a, b),
        MathOperation::Subtract => checked_difference(a, b),
        MathOperation::Multiply => checked_product(a, b),
        MathOperation::Divide => checked_quotient(a, b),
        MathOperation::Modulus => checked_remainder(a, b),
        MathOperation::Exponentiation => checked_power(a, b),
    }
}

/// Applies a math operation to two numbers.
pub fn apply_to_numbers(
    known: &Vec<(FloatRequest, Float)>,
    operation: MathOperation,
    a: &Either<isize, Float>,
    b: &Either<isize, Float>,
) -> (r: Outcome)
    ensures
        r@ == number_math(known@, operation, *a, *b),
{
    match (a, b) {
        (Either::Left(x), Either::Left(y)) => match apply_to_integers(operation, *x, *y) {
            Some(z) => Outcome::Value(number_value(Either::Left(z))),
            None => Outcome::Failure(
                Error::type_("the result of an integer operation is undefined or out of range"),
            ),
        },
        _ => {
            let request = FloatRequest { operation, left: copy_number(a), right: copy_number(b) };
            match request.find(known) {
                Some(f) => Outcome::Value(number_value(Either::Right(f))),
                None => Outcome::Pending(request),
            }
        },
    }
}

/// Applies a math operation to two bindings.
pub fn apply_math(
    known: &Vec<(FloatRequest, Float)>,
    operation: MathOperation,
    left: &ValueType,
    right: &ValueType,
) -> (r: Outcome)
    ensures
        r@ == math_outcome(known@, operation, left@, right@),
{
    match (left, right) {
        (
            ValueType::Variable(PrimitiveTypes::Number(a)),
            ValueType::Variable(PrimitiveTypes::Number(b)),
        ) => apply_to_numbers(known, operation, a, b),
        _ => Outcome::Failure(Error::type_("an operand of a math expression is not a number")),
    }
}

/// Evaluates a math expression, seen from the scope with the given index.
pub fn evaluate_math_expression(
    evaluator: &Evaluator,
    scope: usize,
    math_expression: &MathExpression,
) -> (r: Outcome)
    ensures
        r@ == evaluate_math(
            scopes_model(evaluator.scopes@),
            scope as int,
            evaluator.floats@,
            *math_expression,
        ),
    decreases *math_expression, 1int,
{
    match math_expression {
        MathExpression::Number(value) => Outcome::Value(number_value(copy_number(value))),
        MathExpression::Operation { left, operation, right } => {
            let left = match evaluate_expression(evaluator, scope, left) {
                Outcome::Value(value) => value,
                other => {
                    return other;
                },
            };
            let right = match evaluate_expression(evaluator, scope, right) {
                Outcome::Value(value) => value,
                other => {
                    return other;
                },
            };
            apply_math(&evaluator.floats, *operation, &left, &right)
        },
    }
}

} // verus!
