//! The comparisons `==`, `!=`, `>`, `>=`, `<`, `<=`.

use crate::ast::{ComparisonExpression, ComparisonOperation};
use crate::evaluator::Evaluator;
use crate::expression::{evaluate, evaluate_expression};
use crate::expression::logic_expression::{boolean, boolean_value};
use crate::number::{Float, Rank};
use crate::order::value_rank;
use crate::outcome::{Outcome, OutcomeModel};
use crate::request::FloatRequest;
use crate::scope::{scopes_model, ScopeModel};
use vstd::prelude::*;

verus! {

/// Whether a comparison holds of two values with the given order. Where
/// the two cannot be compared, only `!=` holds.
pub open spec fn holds(operation: ComparisonOperation, rank: Option<Rank>) -> bool {
    match operation {
        ComparisonOperation::Equal => rank == Some(Rank::Equal),
        ComparisonOperation::NotEqual => rank != Some(Rank::Equal),
        ComparisonOperation::GreaterThan => rank == Some(Rank::Greater),
        ComparisonOperation::LessThan => rank == Some(Rank::Less),
        ComparisonOperation::GreaterThanOrEqual => rank == Some(Rank::Greater) || rank == Some(
            Rank::Equal,
        ),
        ComparisonOperation::LessThanOrEqual => rank == Some(Rank::Less) || rank == Some(
            Rank::Equal,
        ),
    }
}

/// The value of a comparison, seen from a scope: both operands are
/// evaluated, the left one first, and their order decides.
pub open spec fn evaluate_comparison(
    scopes: Seq<ScopeModel>,
    scope: int,
    known: Seq<(FloatRequest, Float)>,
    expression: ComparisonExpression,
) -> OutcomeModel
    decreases expression,
{
    match evaluate(scopes, scope, known, *expression.left) {
        OutcomeModel::Value(l) => match evaluate(scopes, scope, known, *expression.right) {
            OutcomeModel::Value(r) => OutcomeModel::Value(
                boolean(holds(expression.operation, value_rank(l, r))),
            ),
            other => other,
        },
        other => other,
    }
}

/// Whether a comparison holds of two values with the given order.
pub fn decide(operation: ComparisonOperation, rank: Option<Rank>) -> (r: bool)
    ensures
        r == holds(operation, rank),
{
    match operation {
        ComparisonOperation::Equal => match rank {
            Some(Rank::Equal) => true,
            _ => false,
        },
        ComparisonOperation::NotEqual => match rank {
            Some(Rank::Equal) => false,
            _ => true,
        },
        ComparisonOperation::GreaterThan => match rank {
            Some(Rank::Greater) => true,
            _ => false,
        },
        ComparisonOperation::LessThan => match rank {
            Some(Rank::Less) => true,
            _ => false,
        },
        ComparisonOperation::GreaterThanOrEqual => match rank {
            Some(Rank::Greater) => true,
            Some(Rank::Equal) => true,
            _ => false,
        },
        ComparisonOperation::LessThanOrEqual => match rank {
            Some(Rank::Less) => true,
            Some(Rank::Equal) => true,
            _ => false,
        },
    }
}

/// Evaluates a comparison, seen from the scope with the given index.
pub fn evaluate_comparison_expression(
    evaluator: &Evaluator,
    scope: usize,
    comparison_expression: &ComparisonExpression,
) -> (r: Outcome)
    ensures
        r@ == evaluate_comparison(
            scopes_model(evaluator.scopes@),
            scope as int,
            evaluator.floats@,
            *comparison_expression,
        ),
    decreases *comparison_expression, 1int,
{
    let left = match evaluate_expression(evaluator, scope, &comparison_expression.left) {
        Outcome::Value(value) => value,
        other => {
            return other;
        },
    };
    let right = match evaluate_expression(evaluator, scope, &comparison_expression.right) {
        Outcome::Value(value) => value,
        other => {
            return other;
        },
    };
    let rank = left.compare(&right);
    Outcome::Value(boolean_value(decide(comparison_expression.operation, rank)))
}

} // verus!
