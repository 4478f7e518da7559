//! A block of code bound to the scope it runs in.

use crate::action::{Action, ActionModel};
use crate::ast::{share, ReturnStatement};
use crate::ast;
use crate::evaluator::{Evaluator, EvaluatorModel};
use crate::expression::{evaluate, evaluate_expression};
use crate::number::Float;
use crate::outcome::{Outcome, OutcomeModel};
use crate::request::FloatRequest;
use crate::scope::{scopes_model, ScopeModel};
use crate::task::{Task, TaskModel};
use crate::value::{undefined, ValueType};
use std::rc::Rc;
use vstd::prelude::*;

verus! {

/// A block of the syntax tree together with the scope it runs in.
#[derive(Debug)]
pub struct Block {
    pub block: Rc<ast::Block>,
    /// The index of the scope among the evaluator's scopes.
    pub scope: usize,
}

/// The value of a block's terminal, seen from a scope: the value of the
/// expression that is returned; undefined for `break` and for `continue`,
/// which neither leave a loop nor skip an iteration.
pub open spec fn terminal_outcome(
    scopes: Seq<ScopeModel>,
    scope: int,
    known: Seq<(FloatRequest, Float)>,
    terminal: ReturnStatement,
) -> OutcomeModel {
    match terminal {
        ReturnStatement::Return(expression) => evaluate(scopes, scope, known, expression),
        ReturnStatement::Break => OutcomeModel::Value(undefined()),
        ReturnStatement::Continue => OutcomeModel::Value(undefined()),
    }
}

/// One step of a block: the statement at `index` is taken up, and the rest
/// of the block is left for later; after the last statement the terminal is
/// evaluated and gives the block's value. A block that is run without its
/// terminal produces no value.
pub open spec fn block_step(
    m: EvaluatorModel,
    scope: usize,
    block: ast::Block,
    index: usize,
    terminal: bool,
) -> (EvaluatorModel, ActionModel) {
    if index < block.0@.len() {
        (
            m.clear().push(
                TaskModel::Block { scope, block, index: (index + 1) as usize, terminal },
            ).push(TaskModel::Statement { scope, statement: *block.0@[index as int] }),
            ActionModel::Continue,
        )
    } else if terminal {
        match terminal_outcome(m.scopes, scope as int, m.floats, block.1) {
            OutcomeModel::Value(value) => (m.produce(value), ActionModel::Continue),
            OutcomeModel::Pending(request) => (
                m.push(TaskModel::Block { scope, block, index, terminal }),
                ActionModel::Float(request),
            ),
            OutcomeModel::Failure(error) => m.fail(error),
        }
    } else {
        (m.clear(), ActionModel::Continue)
    }
}

impl Block {
    /// Binds a block to a scope.
    pub fn new(block: Rc<ast::Block>, scope: usize) -> (r: Self)
        ensures
            r.block == block,
            r.scope == scope,
    {
        Self { block, scope }
    }

    /// A second handle on the same block, bound to the same scope.
    pub fn duplicate(&self) -> (r: Self)
        ensures
            r == *self,
    {
        Self { block: share(&self.block), scope: self.scope }
    }

    /// Evaluates the block's terminal in the block's scope.
    pub fn return_type(&self, evaluator: &Evaluator) -> (r: Outcome)
        ensures
            r@ == terminal_outcome(
                scopes_model(evaluator.scopes@),
                self.scope as int,
                evaluator.floats@,
                self.block.1,
            ),
    {
        match &self.block.1 {
            ReturnStatement::Return(expression) => evaluate_expression(
                evaluator,
                self.scope,
                expression,
            ),
            ReturnStatement::Break => Outcome::Value(ValueType::undefined()),
            ReturnStatement::Continue => Outcome::Value(ValueType::undefined()),
        }
    }

    /// Leaves the block on the evaluator's stack, to be run from its first
    /// statement to its terminal.
    pub fn call(self, evaluator: &mut Evaluator)
        ensures
            final(evaluator)@ == old(evaluator)@.push(
                TaskModel::Block { scope: self.scope, block: *self.block, index: 0, terminal: true },
            ),
    {
        evaluator.push(Task::Block { scope: self.scope, block: self.block, index: 0, terminal: true });
    }

    /// Takes one step of the block, which has come to the statement at
    /// `index`.
    pub fn advance(self, evaluator: &mut Evaluator, index: usize, terminal: bool) -> (action: Action)
        ensures
            (final(evaluator)@, action@) == block_step(
                old(evaluator)@,
                self.scope,
                *self.block,
                index,
                terminal,
            ),
    {
        if index < self.block.0.len() {
            let statement = share(&self.block.0[index]);
            let scope = self.scope;
            let _ = evaluator.take();
            evaluator.push(Task::Block { scope, block: self.block, index: index + 1, terminal });
            evaluator.push(Task::Statement { scope, statement });
            Action::Continue
        } else if terminal {
            match self.return_type(evaluator) {
                Outcome::Value(value) => {
                    evaluator.produce(value);
                    Action::Continue
                },
                Outcome::Pending(request) => {
                    evaluator.push(
                        Task::Block { scope: self.scope, block: self.block, index, terminal },
                    );
                    Action::Float(request)
                },
                Outcome::Failure(error) => evaluator.fail(error),
            }
        } else {
            let _ = evaluator.take();
            Action::Continue
        }
    }
}

} // verus!
