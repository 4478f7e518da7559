//! The conditional and the loop.

use crate::action::{Action, ActionModel};
use crate::ast::{share, Statement};
use crate::ast;
use crate::block::Block;
use crate::error::{Error, ErrorModel};
use crate::evaluator::{Evaluator, EvaluatorModel};
use crate::expression::{evaluate, evaluate_expression};
use crate::expression::logic_expression::{truthy, value_to_bool};
use crate::number::Float;
use crate::outcome::{Outcome, OutcomeModel};
use crate::request::FloatRequest;
use crate::scope::{scopes_model, ScopeModel};
use crate::task::{Task, TaskModel};
use crate::value::{undefined, ValueModel, ValueType};
use std::rc::Rc;
use vstd::prelude::*;

verus! {

/// What a conditional comes to.
pub enum Branch {
    /// This block is run, in a new scope with this name.
    Run { block: Rc<ast::Block>, name: Seq<char> },
    /// No condition holds and there is no `else`.
    Nothing,
    /// A condition waits for a floating-point result.
    Pending(FloatRequest),
    /// A condition has failed.
    Failure(ErrorModel),
}

/// The branch of a conditional none of whose conditions holds.
pub open spec fn last_branch(else_body: Option<Rc<ast::Block>>) -> Branch {
    match else_body {
        Some(block) => Branch::Run { block, name: "else"@ },
        None => Branch::Nothing,
    }
}

/// The branch of a conditional whose conditions before the `else if` at
/// position `from` do not hold: the block of the first `else if` from
/// there on whose condition holds, else the `else` block.
pub open spec fn later_branch(
    scopes: Seq<ScopeModel>,
    scope: int,
    known: Seq<(FloatRequest, Float)>,
    else_if: Seq<(ast::Expression, Rc<ast::Block>)>,
    from: int,
    else_body: Option<Rc<ast::Block>>,
) -> Branch
    decreases else_if.len() - from,
{
    if from < 0 || from >= else_if.len() {
        last_branch(else_body)
    } else {
        match evaluate(scopes, scope, known, else_if[from].0) {
            OutcomeModel::Value(value) => if truthy(value) {
                Branch::Run { block: else_if[from].1, name: "ifelse"@ }
            } else {
                later_branch(scopes, scope, known, else_if, from + 1, else_body)
            },
            OutcomeModel::Pending(request) => Branch::Pending(request),
            OutcomeModel::Failure(error) => Branch::Failure(error),
        }
    }
}

/// The branch of a conditional: the conditions are tested in their order,
/// and the block of the first that holds is run.
pub open spec fn branch(
    scopes: Seq<ScopeModel>,
    scope: int,
    known: Seq<(FloatRequest, Float)>,
    condition: ast::Expression,
    body: Rc<ast::Block>,
    else_if: Seq<(ast::Expression, Rc<ast::Block>)>,
    else_body: Option<Rc<ast::Block>>,
) -> Branch {
    match evaluate(scopes, scope, known, condition) {
        OutcomeModel::Value(value) => if truthy(value) {
            Branch::Run { block: body, name: "if"@ }
        } else {
            later_branch(scopes, scope, known, else_if, 0, else_body)
        },
        OutcomeModel::Pending(request) => Branch::Pending(request),
        OutcomeModel::Failure(error) => Branch::Failure(error),
    }
}

/// The conditional: the block of its branch is left on the stack, to be run
/// in a new scope that is a child of the scope of the statement; where no
/// branch is taken, the statement's value is undefined.
pub open spec fn conditional(
    m: EvaluatorModel,
    scope: usize,
    statement: Statement,
    condition: ast::Expression,
    body: Rc<ast::Block>,
    else_if: Seq<(ast::Expression, Rc<ast::Block>)>,
    else_body: Option<Rc<ast::Block>>,
) -> (EvaluatorModel, ActionModel) {
    match branch(m.scopes, scope as int, m.floats, condition, body, else_if, else_body) {
        Branch::Run { block, name } => (
            m.clear().open(name, Some(scope)).push(
                TaskModel::Block {
                    scope: m.scopes.len() as usize,
                    block: *block,
                    index: 0,
                    terminal: true,
                },
            ),
            ActionModel::Continue,
        ),
        Branch::Nothing => (m.produce(undefined()), ActionModel::Continue),
        Branch::Pending(request) => (
            m.push(TaskModel::Statement { scope, statement }),
            ActionModel::Float(request),
        ),
        Branch::Failure(error) => m.fail(error),
    }
}

/// One turn of a loop whose last run of the body, if there was one, has
/// produced `last`.
///
/// The condition is evaluated in the scope of the statement. Where it
/// holds, the body is left on the stack to be run in a new scope, a child
/// of the scope of the statement, and the loop is left below it for its
/// next turn. Where it does not hold, the loop ends, and its value is that
/// of the last run of the body; undefined where the body never ran.
pub open spec fn loop_turn(
    m: EvaluatorModel,
    scope: usize,
    statement: Statement,
    condition: ast::Expression,
    body: Rc<ast::Block>,
    last: ValueModel,
) -> (EvaluatorModel, ActionModel) {
    let last = match m.value {
        Some(value) => value,
        None => last,
    };
    let m = m.clear();
    match evaluate(m.scopes, scope as int, m.floats, condition) {
        OutcomeModel::Value(value) => if truthy(value) {
            (
                m.open("while"@, Some(scope)).push(TaskModel::Loop { scope, statement, last }).push(
                    TaskModel::Block {
                        scope: m.scopes.len() as usize,
                        block: *body,
                        index: 0,
                        terminal: true,
                    },
                ),
                ActionModel::Continue,
            )
        } else {
            (m.produce(last), ActionModel::Continue)
        },
        OutcomeModel::Pending(request) => (
            m.push(TaskModel::Loop { scope, statement, last }),
            ActionModel::Float(request),
        ),
        OutcomeModel::Failure(error) => m.fail(error),
    }
}

/// Leaves a block on the evaluator's stack, to be run in a new scope that
/// is a child of the scope with the given index.
fn enter(evaluator: &mut Evaluator, scope: usize, name: &str, block: &Rc<ast::Block>)
    ensures
        final(evaluator)@ == old(evaluator)@.open(name@, Some(scope)).push(
            TaskModel::Block {
                scope: old(evaluator)@.scopes.len() as usize,
                block: **block,
                index: 0,
                terminal: true,
            },
        ),
{
    let inner = evaluator.open(name, Some(scope));
    Block::new(share(block), inner).call(evaluator);
}

/// What a conditional comes to, as the evaluator holds it.
pub enum Selection {
    Run { block: Rc<ast::Block>, name: String },
    Nothing,
    Pending(FloatRequest),
    Failure(Error),
}

impl View for Selection {
    type V = Branch;

    open spec fn view(&self) -> Branch {
        match *self {
            Selection::Run { block, name } => Branch::Run { block, name: name@ },
            Selection::Nothing => Branch::Nothing,
            Selection::Pending(request) => Branch::Pending(request),
            Selection::Failure(error) => Branch::Failure(error@),
        }
    }
}

/// Finds the branch of a conditional whose first condition does not hold.
fn select_later(
    evaluator: &Evaluator,
    scope: usize,
    else_if: &Vec<(ast::Expression, Rc<ast::Block>)>,
    else_body: &Option<Rc<ast::Block>>,
) -> (r: Selection)
    ensures
        r@ == later_branch(
            scopes_model(evaluator.scopes@),
            scope as int,
            evaluator.floats@,
            else_if@,
            0,
            *else_body,
        ),
{
    let ghost scopes = scopes_model(evaluator.scopes@);
    let ghost known = evaluator.floats@;
    let mut i: usize = 0;
    while i < else_if.len()
        invariant
            i <= else_if@.len(),
            scopes == scopes_model(evaluator.scopes@),
            known == evaluator.floats@,
            later_branch(scopes, scope as int, known, else_if@, 0, *else_body) == later_branch(
                scopes,
                scope as int,
                known,
                else_if@,
                i as int,
                *else_body,
            ),
        decreases else_if@.len() - i,
    {
        match evaluate_expression(evaluator, scope, &else_if[i].0) {
            Outcome::Value(value) => {
                if value_to_bool(value) {
                    return Selection::Run { block: share(&else_if[i].1), name: "ifelse".to_owned() };
                }
            },
            Outcome::Pending(request) => {
                return Selection::Pending(request);
            },
            Outcome::Failure(error) => {
                return Selection::Failure(error);
            },
        }
        i += 1;
    }
    match else_body {
        Some(block) => Selection::Run { block: share(block), name: "else".to_owned() },
        None => Selection::Nothing,
    }
}

/// Finds the branch of a conditional.
fn select(
    evaluator: &Evaluator,
    scope: usize,
    first: (&ast::Expression, &Rc<ast::Block>),
    else_if: &Vec<(ast::Expression, Rc<ast::Block>)>,
    else_body: &Option<Rc<ast::Block>>,
) -> (r: Selection)
    ensures
        r@ == branch(
            scopes_model(evaluator.scopes@),
            scope as int,
            evaluator.floats@,
            *first.0,
            *first.1,
            else_if@,
            *else_body,
        ),
{
    match evaluate_expression(evaluator, scope, first.0) {
        Outcome::Value(value) => {
            if value_to_bool(value) {
                Selection::Run { block: share(first.1), name: "if".to_owned() }
            } else {
                select_later(evaluator, scope, else_if, else_body)
            }
        },
        Outcome::Pending(request) => Selection::Pending(request),
        Outcome::Failure(error) => Selection::Failure(error),
    }
}

/// Runs a conditional in the scope with the given index.
pub fn if_statement(
    evaluator: &mut Evaluator,
    scope: usize,
    statement: &Rc<Statement>,
    first: (&ast::Expression, &Rc<ast::Block>),
    else_if: &Vec<(ast::Expression, Rc<ast::Block>)>,
    else_body: &Option<Rc<ast::Block>>,
) -> (action: Action)
    ensures
        (final(evaluator)@, action@) == conditional(
            old(evaluator)@,
            scope,
            **statement,
            *first.0,
            *first.1,
            else_if@,
            *else_body,
        ),
{
    match select(evaluator, scope, first, else_if, else_body) {
        Selection::Run { block, name } => {
            let _ = evaluator.take();
            enter(evaluator, scope, name.as_str(), &block);
            Action::Continue
        },
        Selection::Nothing => {
            evaluator.produce(ValueType::undefined());
            Action::Continue
        },
        Selection::Pending(request) => {
            evaluator.push(Task::Statement { scope, statement: share(statement) });
            Action::Float(request)
        },
        Selection::Failure(error) => evaluator.fail(error),
    }
}

/// Takes one turn of a loop in the scope with the given index.
pub fn while_statement(
    evaluator: &mut Evaluator,
    scope: usize,
    statement: &Rc<Statement>,
    condition: &ast::Expression,
    body: &Rc<ast::Block>,
    last: ValueType,
) -> (action: Action)
    ensures
        (final(evaluator)@, action@) == loop_turn(
            old(evaluator)@,
            scope,
            **statement,
            *condition,
            *body,
            last@,
        ),
{
    let last = match evaluator.take() {
        Some(value) => value,
        None => last,
    };
    match evaluate_expression(evaluator, scope, condition) {
        Outcome::Value(value) => {
            if value_to_bool(value) {
                let inner = evaluator.open("while", Some(scope));
                evaluator.push(Task::Loop { scope, statement: share(statement), last });
                Block::new(share(body), inner).call(evaluator);
                Action::Continue
            } else {
                evaluator.produce(last);
                Action::Continue
            }
        },
        Outcome::Pending(request) => {
            evaluator.push(Task::Loop { scope, statement: share(statement), last });
            Action::Float(request)
        },
        Outcome::Failure(error) => evaluator.fail(error),
    }
}

} // verus!
