//! Modules: named scopes that are filled by running a block once.

use crate::action::{Action, ActionModel};
use crate::ast::share;
use crate::ast;
use crate::evaluator::{Evaluator, EvaluatorModel};
use crate::task::{Task, TaskModel};
use crate::value::{undefined, Module, ModuleModel, ValueModel, ValueType};
use std::rc::Rc;
use vstd::prelude::*;

verus! {

/// The evaluator after the start of a module definition: a scope is made
/// for the module, as a child of the scope of the definition; the
/// statements of the body are left on the stack to be run in it; and below
/// them the binding of the module is left, for when they have run.
pub open spec fn module_started(
    m: EvaluatorModel,
    scope: usize,
    name: Seq<char>,
    body: Rc<ast::Block>,
) -> EvaluatorModel {
    m.clear().open(name, Some(scope)).push(
        TaskModel::Bind { scope, name, module: m.scopes.len() as usize, imported: false },
    ).push(
        TaskModel::Block { scope: m.scopes.len() as usize, block: *body, index: 0, terminal: false },
    )
}

/// The binding of a module: the module is assigned to its name from the
/// scope of the definition, and the statement's value is undefined.
pub open spec fn module_bound(m: EvaluatorModel, scope: usize, name: Seq<char>, module: usize) -> (
    EvaluatorModel,
    ActionModel,
) {
    (
        m.write(scope, name, ValueModel::Module(ModuleModel { name, scope: module })).produce(
            undefined(),
        ),
        ActionModel::Continue,
    )
}

impl Module {
    /// Starts the definition of a module in the scope with the given index,
    /// and gives the module: its scope is there from the start, and is
    /// filled as the body runs.
    pub fn new(evaluator: &mut Evaluator, name: &str, scope: usize, body: &Rc<ast::Block>) -> (r:
        Self)
        ensures
            final(evaluator)@ == module_started(old(evaluator)@, scope, name@, *body),
            r@ == (ModuleModel { name: name@, scope: old(evaluator)@.scopes.len() as usize }),
    {
        let _ = evaluator.take();
        let module = evaluator.open(name, Some(scope));
        evaluator.push(Task::Bind { scope, name: name.to_owned(), module, imported: false });
        evaluator.push(Task::Block { scope: module, block: share(body), index: 0, terminal: false });
        Self { name: name.to_owned(), scope: module }
    }

    /// Binds the module under its name, from the scope with the given index.
    pub fn bind(self, evaluator: &mut Evaluator, scope: usize) -> (action: Action)
        ensures
            (final(evaluator)@, action@) == module_bound(
                old(evaluator)@,
                scope,
                self@.name,
                self@.scope,
            ),
    {
        let name = self.name.clone();
        evaluator.write(scope, name.as_str(), ValueType::Module(self));
        evaluator.produce(ValueType::undefined());
        Action::Continue
    }
}

} // verus!
