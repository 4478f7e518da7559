//! The work that a run has left to do.

use crate::ast::Statement;
use crate::ast;
use crate::value::{values_model, ValueModel, ValueType};
use std::rc::Rc;
use vstd::prelude::*;

verus! {

/// A piece of work on the evaluator's stack.
#[derive(Debug)]
pub enum Task {
    /// Run a statement from its start.
    Statement { scope: usize, statement: Rc<Statement> },
    /// Run the statements of a block from the one at `index` on, and then,
    /// where `terminal` is set, the block's terminal.
    Block { scope: usize, block: Rc<ast::Block>, index: usize, terminal: bool },
    /// Bind the value that the nested statement of an assignment has
    /// produced to the assignment's targets.
    Assign { scope: usize, statement: Rc<Statement> },
    /// Evaluate the arguments of a call that are left, then make the call.
    Arguments { scope: usize, statement: Rc<Statement>, callee: ValueType, collected: Vec<ValueType> },
    /// Test the condition of a loop; run its body once more, or end the
    /// loop with the value of the last run.
    Loop { scope: usize, statement: Rc<Statement>, last: ValueType },
    /// Bind the scope `module` as a module under `name`. Where `imported`
    /// is set, the module is a file's program, and an error of that program
    /// stops here: it is reported, and the module is bound all the same.
    Bind { scope: usize, name: String, module: usize, imported: bool },
    /// Wait for the program of the imported file at `path`, to bind its
    /// global scope as a module under `name`.
    Import { scope: usize, name: String, path: String },
}

/// A task as a mathematical value.
pub enum TaskModel {
    Statement { scope: usize, statement: Statement },
    Block { scope: usize, block: ast::Block, index: usize, terminal: bool },
    Assign { scope: usize, statement: Statement },
    Arguments { scope: usize, statement: Statement, callee: ValueModel, collected: Seq<ValueModel> },
    Loop { scope: usize, statement: Statement, last: ValueModel },
    Bind { scope: usize, name: Seq<char>, module: usize, imported: bool },
    Import { scope: usize, name: Seq<char>, path: Seq<char> },
}

impl View for Task {
    type V = TaskModel;

    open spec fn view(&self) -> TaskModel {
        match *self {
            Task::Statement { scope, statement } => TaskModel::Statement {
                scope,
                statement: *statement,
            },
            Task::Block { scope, block, index, terminal } => TaskModel::Block {
                scope,
                block: *block,
                index,
                terminal,
            },
            Task::Assign { scope, statement } => TaskModel::Assign { scope, statement: *statement },
            Task::Arguments { scope, statement, callee, collected } => TaskModel::Arguments {
                scope,
                statement: *statement,
                callee: callee@,
                collected: values_model(collected@),
            },
            Task::Loop { scope, statement, last } => TaskModel::Loop {
                scope,
                statement: *statement,
                last: last@,
            },
            Task::Bind { scope, name, module, imported } => TaskModel::Bind {
                scope,
                name: name@,
                module,
                imported,
            },
            Task::Import { scope, name, path } => TaskModel::Import {
                scope,
                name: name@,
                path: path@,
            },
        }
    }
}

impl TaskModel {
    /// Whether an error stops here: at the binding of an imported module.
    pub open spec fn stops_errors(self) -> bool {
        self matches TaskModel::Bind { imported, .. } && imported
    }
}

impl Task {
    /// Whether an error stops here.
    pub fn stops_errors(&self) -> (r: bool)
        ensures
            r == self@.stops_errors(),
    {
        match self {
            Task::Bind { imported, .. } => *imported,
            _ => false,
        }
    }
}

/// The tasks of a list as mathematical values.
pub open spec fn tasks_model(tasks: Seq<Task>) -> Seq<TaskModel> {
    Seq::new(tasks.len(), |i: int| tasks[i]@)
}

} // verus!
