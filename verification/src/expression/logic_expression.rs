//! Truthiness, and the logic expressions `not`, `and`, `or`.

use crate::ast::LogicExpression;
use crate::either::Either;
use crate::evaluator::Evaluator;
use crate::expression::{evaluate, evaluate_expression};
use crate::number::Float;
use crate::outcome::{Outcome, OutcomeModel};
use crate::request::FloatRequest;
use crate::scope::{scopes_model, ScopeModel};
use crate::value::{PrimitiveModel, PrimitiveTypes, ValueModel, ValueType};
use vstd::prelude::*;

verus! {

/// Whether a plain value counts as true.
///
/// A boolean counts as itself; an integer where it is not zero; a
/// floating-point number where it is normal, so neither zero nor subnormal
/// nor infinite nor NaN; a string where it is not empty; an array and an
/// object always; null and undefined never.
pub open spec fn primitive_truthy(value: PrimitiveModel) -> bool {
    match value {
        PrimitiveModel::Boolean(b) => b,
        PrimitiveModel::Array(_) => true,
        PrimitiveModel::Object(_) => true,
        PrimitiveModel::Null => false,
        PrimitiveModel::Undefined => false,
        PrimitiveModel::Number(Either::Left(i)) => i != 0,
        PrimitiveModel::Number(Either::Right(f)) => f.normal(),
        PrimitiveModel::String(s) => s.len() != 0,
    }
}

/// Whether a binding counts as true: a plain value by its kind and content,
/// a function, a native function and a module always.
pub open spec fn truthy(value: ValueModel) -> bool {
    match value {
        ValueModel::Variable(primitive) => primitive_truthy(primitive),
        ValueModel::Function(_) => true,
        ValueModel::InternalFunction(_) => true,
        ValueModel::Module(_) => true,
    }
}

/// A boolean as a binding.
pub open spec fn boolean(b: bool) -> ValueModel {
    ValueModel::Variable(PrimitiveModel::Boolean(b))
}

/// The value of a logic expression, seen from a scope.
///
/// Both operands of `and` and of `or` are evaluated, the left one first,
/// whatever the left one's value: an error in the right operand is the
/// expression's error even where the left operand alone decides the result.
pub open spec fn evaluate_logic(
    scopes: Seq<ScopeModel>,
    scope: int,
    known: Seq<(FloatRequest, Float)>,
    expression: LogicExpression,
) -> OutcomeModel
    decreases expression,
{
    match expression {
        LogicExpression::Boolean(b) => OutcomeModel::Value(boolean(b)),
        LogicExpression::Not { expr } => match evaluate(scopes, scope, known, *expr) {
            OutcomeModel::Value(value) => OutcomeModel::Value(boolean(!truthy(value))),
            other => other,
        },
        LogicExpression::And { left, right } => match evaluate(scopes, scope, known, *left) {
            OutcomeModel::Value(l) => match evaluate(scopes, scope, known, *right) {
                OutcomeModel::Value(r) => OutcomeModel::Value(boolean(truthy(l) && truthy(r))),
                other => other,
            },
            other => other,
        },
        LogicExpression::Or { left, right } => match evaluate(scopes, scope, known, *left) {
            OutcomeModel::Value(l) => match evaluate(scopes, scope, known, *right) {
                OutcomeModel::Value(r) => OutcomeModel::Value(boolean(truthy(l) || truthy(r))),
                other => other,
            },
            other => other,
        },
    }
}

/// Whether a plain value counts as true.
pub fn primitive_types_to_bool(value: PrimitiveTypes) -> (r: bool)
    ensures
        r == primitive_truthy(value@),
{
    match value {
        PrimitiveTypes::Boolean(value) => value,
        PrimitiveTypes::Array(_) => true,
        PrimitiveTypes::Object(_) => true,
        PrimitiveTypes::Null => false,
        PrimitiveTypes::Undefined => false,
        PrimitiveTypes::Number(number) => match number {
            Either::Left(value) => value != 0,
            Either::Right(value) => value.is_normal(),
        },
        PrimitiveTypes::String(value) => !value.as_str().is_empty(),
    }
}

/// Whether a binding counts as true.
pub fn value_to_bool(value: ValueType) -> (r: bool)
    ensures
        r == truthy(value@),
{
    match value {
        ValueType::Variable(value) => primitive_types_to_bool(value),
        ValueType::Function(_) => true,
        ValueType::InternalFunction(_) => true,
        ValueType::Module(_) => true,
    }
}

/// A boolean as a binding.
pub fn boolean_value(b: bool) -> (r: ValueType)
    ensures
        r@ == boolean(b),
{
    ValueType::Variable(PrimitiveTypes::Boolean(b))
}

/// Evaluates a logic expression, seen from the scope with the given index.
pub fn evaluate_logic_expression(
    evaluator: &Evaluator,
    scope: usize,
    logic_expression: &LogicExpression,
) -> (r: Outcome)
    ensures
        r@ == evaluate_logic(
            scopes_model(evaluator.scopes@),
            scope as int,
            evaluator.floats@,
            *logic_expression,
        ),
    decreases *logic_expression, 1int,
{
    match logic_expression {
        LogicExpression::Boolean(value) => Outcome::Value(boolean_value(*value)),
        LogicExpression::And { left, right } => {
            let left = match evaluate_expression(evaluator, scope, left) {
                Outcome::Value(value) => value,
                other => {
                    return other;
                },
            };
            let right = match evaluate_expression(evaluator, scope, right) {
                Outcome::Value(value) => value,
                other => {
                    return other;
                },
            };
            let left = value_to_bool(left);
            let right = value_to_bool(right);
            Outcome::Value(boolean_value(left && right))
        },
        LogicExpression::Or { left, right } => {
            let left = match evaluate_expression(evaluator, scope, left) {
                Outcome::Value(value) => value,
                other => {
                    return other;
                },
            };
            let right = match evaluate_expression(evaluator, scope, right) {
                Outcome::Value(value) => value,
                other => {
                    return other;
                },
            };
            let left = value_to_bool(left);
            let right = value_to_bool(right);
            Outcome::Value(boolean_value(left || right))
        },
        LogicExpression::Not { expr } => {
            let value = match evaluate_expression(evaluator, scope, expr) {
                Outcome::Value(value) => value,
                other => {
                    return other;
                },
            };
            Outcome::Value(boolean_value(!value_to_bool(value)))
        },
    }
}

} // verus!
