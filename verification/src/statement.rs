//! The start of a statement.

use crate::action::{Action, ActionModel};
use crate::ast::{names_model, share, Statement};
use crate::either::Either;
use crate::evaluator::{Evaluator, EvaluatorModel};
use crate::expression::{evaluate, evaluate_expression};
use crate::flow_control::{conditional, if_statement, loop_turn, while_statement};
use crate::function::{call_started, defined, handle_function_call, handle_function_definition};
use crate::import::{import_started, import_statement};
use crate::module::module_started;
use crate::outcome::{Outcome, OutcomeModel};
use crate::task::{Task, TaskModel};
use crate::value::{undefined, Module, ValueType};
use std::rc::Rc;
use vstd::prelude::*;

verus! {

/// The names that an assignment binds.
pub open spec fn targets_of(statement: Statement) -> Seq<Seq<char>> {
    match statement {
        Statement::Assignment { left, .. } => names_model(left@),
        _ => Seq::empty(),
    }
}

/// The end of an assignment: the value that was produced last is assigned,
/// from the scope of the statement, to each target in its order, and is
/// the statement's value.
pub open spec fn assigned(m: EvaluatorModel, scope: usize, statement: Statement) -> (
    EvaluatorModel,
    ActionModel,
) {
    let value = m.produced();
    (m.write_all(scope, targets_of(statement), value).produce(value), ActionModel::Continue)
}

/// The start of a statement in a scope.
///
/// An assignment evaluates its right-hand side once: an expression at
/// once, a nested statement by leaving it on the stack, with the binding of
/// the targets below it. A function definition is complete at once, and its
/// value is undefined. A call, a conditional, a loop, a module definition
/// and an import begin as their own descriptions say.
pub open spec fn statement_started(m: EvaluatorModel, scope: usize, statement: Statement) -> (
    EvaluatorModel,
    ActionModel,
) {
    match statement {
        Statement::Assignment { left, right } => match right {
            Either::Left(expression) => match evaluate(
                m.scopes,
                scope as int,
                m.floats,
                expression,
            ) {
                OutcomeModel::Value(value) => assigned(m.produce(value), scope, statement),
                OutcomeModel::Pending(request) => (
                    m.push(TaskModel::Statement { scope, statement }),
                    ActionModel::Float(request),
                ),
                OutcomeModel::Failure(error) => m.fail(error),
            },
            Either::Right(nested) => (
                m.clear().push(TaskModel::Assign { scope, statement }).push(
                    TaskModel::Statement { scope, statement: *nested },
                ),
                ActionModel::Continue,
            ),
        },
        Statement::FunctionDefinition { name, parameters, body } => (
            defined(m, scope, name@, names_model(parameters@), body).produce(undefined()),
            ActionModel::Continue,
        ),
        Statement::FunctionCall { expression, .. } => call_started(m, scope, statement, expression),
        Statement::If { condition, body, else_if, else_body } => conditional(
            m,
            scope,
            statement,
            condition,
            body,
            else_if@,
            else_body,
        ),
        Statement::While { condition, body } => loop_turn(
            m.clear(),
            scope,
            statement,
            condition,
            body,
            undefined(),
        ),
        Statement::ModuleDefinition { name, body } => (
            module_started(m, scope, name@, body),
            ActionModel::Continue,
        ),
        Statement::Import { path, ident } => import_started(m, scope, path@, ident@),
    }
}

/// Ends an assignment whose right-hand side has produced its value.
pub fn finish_assignment(evaluator: &mut Evaluator, scope: usize, statement: &Rc<Statement>) -> (action:
    Action)
    ensures
        (final(evaluator)@, action@) == assigned(old(evaluator)@, scope, **statement),
{
    let value = match evaluator.take() {
        Some(value) => value,
        None => ValueType::undefined(),
    };
    match &**statement {
        Statement::Assignment { left, .. } => {
            evaluator.write_all(scope, left, &value);
        },
        _ => {},
    }
    evaluator.produce(value);
    Action::Continue
}

/// Starts a statement in the scope with the given index.
pub fn run_statement(evaluator: &mut Evaluator, scope: usize, statement: &Rc<Statement>) -> (action:
    Action)
    ensures
        (final(evaluator)@, action@) == statement_started(old(evaluator)@, scope, **statement),
{
    match &**statement {
        Statement::Assignment { left, right } => {
            match right {
                Either::Left(expression) => {
                    match evaluate_expression(evaluator, scope, expression) {
                        Outcome::Value(value) => {
                            evaluator.produce(value);
                            finish_assignment(evaluator, scope, statement)
                        },
                        Outcome::Pending(request) => {
                            evaluator.push(Task::Statement { scope, statement: share(statement) });
                            Action::Float(request)
                        },
                        Outcome::Failure(error) => evaluator.fail(error),
                    }
                },
                Either::Right(nested) => {
                    let _ = evaluator.take();
                    evaluator.push(Task::Assign { scope, statement: share(statement) });
                    evaluator.push(Task::Statement { scope, statement: share(nested) });
                    Action::Continue
                },
            }
        },
        Statement::FunctionDefinition { name, parameters, body } => {
            let value = handle_function_definition(
                evaluator,
                scope,
                name.as_str(),
                parameters,
                body,
            );
            evaluator.produce(value);
            Action::Continue
        },
        Statement::FunctionCall { expression, .. } => handle_function_call(
            evaluator,
            scope,
            statement,
            expression,
        ),
        Statement::If { condition, body, else_if, else_body } => if_statement(
            evaluator,
            scope,
            statement,
            (condition, body),
            else_if,
            else_body,
        ),
        Statement::While { condition, body } => {
            let _ = evaluator.take();
            while_statement(evaluator, scope, statement, condition, body, ValueType::undefined())
        },
        Statement::ModuleDefinition { name, body } => {
            let _ = Module::new(evaluator, name.as_str(), scope, body);
            Action::Continue
        },
        Statement::Import { path, ident } => import_statement(
            evaluator,
            scope,
            path.as_str(),
            ident.as_str(),
        ),
    }
}

} // verus!
