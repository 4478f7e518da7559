//! Imports: the program of another file, run once and bound as a module.

use crate::action::{Action, ActionModel};
use crate::evaluator::{Evaluator, EvaluatorModel};
use crate::task::{Task, TaskModel};
use vstd::prelude::*;

verus! {

/// The start of an import: the engine asks for the program of the file and
/// waits for it. The path is to be resolved against the directory of the
/// program that the import statement belongs to.
pub open spec fn import_started(
    m: EvaluatorModel,
    scope: usize,
    path: Seq<char>,
    ident: Seq<char>,
) -> (EvaluatorModel, ActionModel) {
    (
        m.clear().push(TaskModel::Import { scope, name: ident, path }),
        ActionModel::Import { directory: m.directory(scope), path },
    )
}

/// Starts the import of the file at `path` as the module `ident`, from the
/// scope with the given index.
pub fn import_statement(evaluator: &mut Evaluator, scope: usize, path: &str, ident: &str) -> (action:
    Action)
    ensures
        (final(evaluator)@, action@) == import_started(old(evaluator)@, scope, path@, ident@),
{
    let _ = evaluator.take();
    let directory = evaluator.directory(scope);
    evaluator.push(Task::Import { scope, name: ident.to_owned(), path: path.to_owned() });
    Action::Import { directory, path: path.to_owned() }
}

} // verus!
