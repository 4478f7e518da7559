//! The evaluator: the state of a run, and the steps that it takes.

use crate::action::{Action, ActionModel};
use crate::ast::{names_model, ASTNode};
use crate::ast::Statement;
use crate::block::{block_step, Block};
use crate::error::{Error, ErrorModel};
use crate::flow_control::{loop_turn, while_statement};
use crate::function::{arguments_step, collect_arguments};
use crate::import::{import_started, import_statement};
use crate::module::module_bound;
use crate::number::Float;
use crate::request::FloatRequest;
use crate::scope::{
    assign, assign_all, bind_at, root_of, scopes_model, written, Scope, ScopeModel,
};
use crate::statement::{assigned, finish_assignment, run_statement, statement_started};
use crate::stdlib::{build_standard_library, standard_library};
use crate::task::{tasks_model, Task, TaskModel};
use crate::value::{undefined, Module, ValueModel, ValueType};
use vstd::prelude::*;

verus! {

/// What the evaluator knows of its surroundings.
#[derive(Debug)]
pub struct Metadata {
    /// The directory against which the paths of imports are resolved.
    pub pw: String,
}

/// The state of a run: the scopes, the work that is left, and what the
/// embedding program has told the engine.
#[derive(Debug)]
pub struct Evaluator {
    /// All scopes, each known by its index. The first is the global scope.
    pub scopes: Vec<Scope>,
    pub metadata: Metadata,
    /// The work that is left; the last task is the next to be taken up.
    pub stack: Vec<Task>,
    /// The value that the work finished last has produced.
    pub value: Option<ValueType>,
    /// The floating-point results that the engine has been told.
    pub floats: Vec<(FloatRequest, Float)>,
    /// The directory of each imported program, with the index of the
    /// program's global scope.
    pub directories: Vec<(usize, String)>,
}

/// An evaluator as a mathematical value.
pub struct EvaluatorModel {
    pub scopes: Seq<ScopeModel>,
    pub pw: Seq<char>,
    pub stack: Seq<TaskModel>,
    pub value: Option<ValueModel>,
    pub floats: Seq<(FloatRequest, Float)>,
    pub directories: Seq<(usize, Seq<char>)>,
}

/// The directories of a list as mathematical values.
pub open spec fn directories_model(directories: Seq<(usize, String)>) -> Seq<(usize, Seq<char>)> {
    Seq::new(directories.len(), |i: int| (directories[i].0, directories[i].1@))
}

/// The directory that a list holds for a global scope, looked for from
/// position `from` on.
pub open spec fn directory_from(
    directories: Seq<(usize, Seq<char>)>,
    root: int,
    from: int,
) -> Option<Seq<char>>
    decreases directories.len() - from,
{
    if from < 0 || from >= directories.len() {
        None
    } else if directories[from].0 == root {
        Some(directories[from].1)
    } else {
        directory_from(directories, root, from + 1)
    }
}

/// The mathematical value of a binding that may be there.
pub open spec fn option_model(value: Option<ValueType>) -> Option<ValueModel> {
    match value {
        Some(value) => Some(value@),
        None => None,
    }
}

impl View for Evaluator {
    type V = EvaluatorModel;

    open spec fn view(&self) -> EvaluatorModel {
        EvaluatorModel {
            scopes: scopes_model(self.scopes@),
            pw: self.metadata.pw@,
            stack: tasks_model(self.stack@),
            value: option_model(self.value),
            floats: self.floats@,
            directories: directories_model(self.directories@),
        }
    }
}

/// The global scope of a new evaluator: the standard library.
pub open spec fn global_scope() -> ScopeModel {
    ScopeModel {
        name: "global"@,
        parent: None,
        variables: written(Map::empty(), standard_library()),
    }
}

impl EvaluatorModel {
    /// The evaluator with one more task on its stack.
    pub open spec fn push(self, task: TaskModel) -> EvaluatorModel {
        EvaluatorModel { stack: self.stack.push(task), ..self }
    }

    /// The evaluator with a value produced.
    pub open spec fn produce(self, value: ValueModel) -> EvaluatorModel {
        EvaluatorModel { value: Some(value), ..self }
    }

    /// The evaluator with no value produced.
    pub open spec fn clear(self) -> EvaluatorModel {
        EvaluatorModel { value: None, ..self }
    }

    /// The evaluator with one more scope, empty, at the end of its scopes.
    pub open spec fn open(self, name: Seq<char>, parent: Option<usize>) -> EvaluatorModel {
        EvaluatorModel { scopes: self.scopes.push(ScopeModel::empty(name, parent)), ..self }
    }

    /// The evaluator after an assignment from a scope.
    pub open spec fn write(self, scope: usize, name: Seq<char>, value: ValueModel) -> EvaluatorModel {
        EvaluatorModel { scopes: assign(self.scopes, scope as int, name, value), ..self }
    }

    /// The evaluator after an assignment from a scope of one value to each
    /// of some names.
    pub open spec fn write_all(
        self,
        scope: usize,
        names: Seq<Seq<char>>,
        value: ValueModel,
    ) -> EvaluatorModel {
        EvaluatorModel { scopes: assign_all(self.scopes, scope as int, names, 0, value), ..self }
    }

    /// The directory against which the imports of the code that runs in a
    /// scope are resolved: that of the program in whose global scope the
    /// chain of the scope ends.
    pub open spec fn directory(self, scope: usize) -> Seq<char> {
        match directory_from(self.directories, root_of(self.scopes, scope as int), 0) {
            Some(directory) => directory,
            None => self.pw,
        }
    }

    /// The value that was produced last; undefined where there is none.
    pub open spec fn produced(self) -> ValueModel {
        match self.value {
            Some(value) => value,
            None => undefined(),
        }
    }
}

/// What is left of a stack after an error: the tasks up to the last one
/// at which errors stop, and nothing where there is none.
pub open spec fn unwound(stack: Seq<TaskModel>) -> Seq<TaskModel>
    decreases stack.len(),
{
    if stack.len() == 0 {
        stack
    } else if stack.last().stops_errors() {
        stack
    } else {
        unwound(stack.drop_last())
    }
}

impl EvaluatorModel {
    /// The evaluator after an error, and what is to be done with the error.
    ///
    /// The error ends all the work up to the nearest import in progress.
    /// Where there is one, the error is reported and the importing program
    /// goes on; where there is none, the run ends with the error.
    pub open spec fn fail(self, error: ErrorModel) -> (EvaluatorModel, ActionModel) {
        let stack = unwound(self.stack);
        let after = EvaluatorModel { stack, value: None, ..self };
        if stack.len() == 0 {
            (after, ActionModel::Finished(Err(error)))
        } else {
            (after, ActionModel::Report(error))
        }
    }
}

/// What taking up a task comes to, for an evaluator from whose stack the
/// task has been taken.
pub open spec fn performed(m: EvaluatorModel, task: TaskModel) -> (EvaluatorModel, ActionModel) {
    match task {
        TaskModel::Statement { scope, statement } => statement_started(m, scope, statement),
        TaskModel::Block { scope, block, index, terminal } => block_step(
            m,
            scope,
            block,
            index,
            terminal,
        ),
        TaskModel::Assign { scope, statement } => assigned(m, scope, statement),
        TaskModel::Arguments { scope, statement, callee, collected } => arguments_step(
            m,
            scope,
            statement,
            callee,
            collected,
        ),
        TaskModel::Loop { scope, statement, last } => match statement {
            Statement::While { condition, body } => loop_turn(
                m,
                scope,
                statement,
                condition,
                body,
                last,
            ),
            _ => (m.produce(last), ActionModel::Continue),
        },
        TaskModel::Bind { scope, name, module, imported } => module_bound(m, scope, name, module),
        TaskModel::Import { scope, name, path } => import_started(m, scope, path, name),
    }
}

/// The end of a step: the floating-point results that the engine has been
/// told are kept while it waits for another, and dropped once the step is
/// through.
pub open spec fn settled(turn: (EvaluatorModel, ActionModel)) -> (EvaluatorModel, ActionModel) {
    if turn.1 is Float {
        turn
    } else {
        (EvaluatorModel { floats: Seq::empty(), ..turn.0 }, turn.1)
    }
}

/// One step of a run.
///
/// The last task of the stack is taken up. Where the stack is empty, the
/// run is finished, and its result is the value that was produced last.
pub open spec fn step(m: EvaluatorModel) -> (EvaluatorModel, ActionModel) {
    if m.stack.len() == 0 {
        (
            EvaluatorModel { value: None, floats: Seq::empty(), ..m },
            ActionModel::Finished(Ok(m.produced())),
        )
    } else {
        settled(performed(EvaluatorModel { stack: m.stack.drop_last(), ..m }, m.stack.last()))
    }
}

/// The steps of a run up to the first that asks something of the embedding
/// program or finishes the run, and no more of them than `budget`.
pub open spec fn advanced(m: EvaluatorModel, budget: nat) -> (EvaluatorModel, ActionModel)
    decreases budget,
{
    if budget == 0 {
        (m, ActionModel::Continue)
    } else if step(m).1 is Continue {
        advanced(step(m).0, (budget - 1) as nat)
    } else {
        step(m)
    }
}

/// The evaluator after a program has been submitted: the program's block
/// is all the work there is, to be run in the global scope. The scopes
/// are as they were: what earlier programs have bound stays bound.
pub open spec fn submitted(m: EvaluatorModel, ast: ASTNode) -> EvaluatorModel {
    EvaluatorModel {
        stack: seq![
            TaskModel::Block { scope: 0, block: *ast->Block_0, index: 0, terminal: true },
        ],
        value: None,
        ..m
    }
}

/// The evaluator after the program of an imported file, or the error of
/// reading or parsing it, has been handed over.
///
/// The program gets a global scope of its own, with the standard library
/// and without a parent, and is left on the stack to be run in it; below
/// it is left the binding of that scope as a module. `directory` is the
/// directory of the file: the imports of the program are resolved against
/// it. An error is the error of the import statement. Where the engine
/// does not wait for an import, nothing changes.
pub open spec fn import_resumed(
    m: EvaluatorModel,
    program: Result<ASTNode, ErrorModel>,
    directory: Seq<char>,
) -> (EvaluatorModel, ActionModel) {
    if m.stack.len() > 0 && m.stack.last() is Import {
        let scope = m.stack.last()->Import_scope;
        let name = m.stack.last()->Import_name;
        let rest = EvaluatorModel { stack: m.stack.drop_last(), value: None, ..m };
        match program {
            Ok(ast) => (
                (EvaluatorModel {
                    scopes: rest.scopes.push(global_scope()),
                    directories: rest.directories.push((m.scopes.len() as usize, directory)),
                    ..rest
                }).push(
                    TaskModel::Bind {
                        scope,
                        name,
                        module: m.scopes.len() as usize,
                        imported: true,
                    },
                ).push(
                    TaskModel::Block {
                        scope: m.scopes.len() as usize,
                        block: *ast->Block_0,
                        index: 0,
                        terminal: true,
                    },
                ),
                ActionModel::Continue,
            ),
            Err(error) => rest.fail(error),
        }
    } else {
        (m, ActionModel::Continue)
    }
}

/// The mathematical value of a program or an error.
pub open spec fn program_model(program: Result<ASTNode, Error>) -> Result<ASTNode, ErrorModel> {
    match program {
        Ok(ast) => Ok(ast),
        Err(error) => Err(error@),
    }
}

impl Evaluator {
    /// An evaluator with one scope, the global scope, which holds the
    /// standard library, and with no work to do.
    pub fn new(metadata: Metadata) -> (r: Self)
        ensures
            r@ == (EvaluatorModel {
                scopes: seq![global_scope()],
                pw: metadata.pw@,
                stack: Seq::empty(),
                value: None,
                floats: Seq::empty(),
                directories: Seq::empty(),
            }),
    {
        let mut scope = Scope::new("global");
        scope.extend(build_standard_library());
        let mut scopes: Vec<Scope> = Vec::new();
        scopes.push(scope);
        let r = Self {
            scopes,
            metadata,
            stack: Vec::new(),
            value: None,
            floats: Vec::new(),
            directories: Vec::new(),
        };
        assert(r@.scopes =~= seq![global_scope()]);
        assert(r@.stack =~= Seq::empty());
        assert(r@.directories =~= Seq::empty());
        r
    }

    /// Submits a program: leaves its block on the stack, to be run in the
    /// global scope, in place of whatever work was left.
    pub fn execute(&mut self, ast: ASTNode)
        ensures
            final(self)@ == submitted(old(self)@, ast),
    {
        self.stack = Vec::new();
        self.value = None;
        match ast {
            ASTNode::Block(block) => {
                self.stack.push(Task::Block { scope: 0, block, index: 0, terminal: true });
            },
        }
        assert(self@.stack =~= submitted(old(self)@, ast).stack);
    }

    /// Takes one step of the run, and says what the embedding program is
    /// to do before the next.
    pub fn step(&mut self) -> (action: Action)
        ensures
            (final(self)@, action@) == step(old(self)@),
    {
        let action = match self.pop() {
            None => {
                let value = match self.take() {
                    Some(value) => value,
                    None => ValueType::undefined(),
                };
                Action::Finished(Ok(value))
            },
            Some(task) => match task {
                Task::Statement { scope, statement } => run_statement(self, scope, &statement),
                Task::Block { scope, block, index, terminal } => Block::new(block, scope).advance(
                    self,
                    index,
                    terminal,
                ),
                Task::Assign { scope, statement } => finish_assignment(self, scope, &statement),
                Task::Arguments { scope, statement, callee, collected } => collect_arguments(
                    self,
                    scope,
                    statement,
                    callee,
                    collected,
                ),
                Task::Loop { scope, statement, last } => match &*statement {
                    Statement::While { condition, body } => while_statement(
                        self,
                        scope,
                        &statement,
                        condition,
                        body,
                        last,
                    ),
                    _ => {
                        self.produce(last);
                        Action::Continue
                    },
                },
                Task::Bind { scope, name, module, imported } => (Module { name, scope: module }).bind(
                    self,
                    scope,
                ),
                Task::Import { scope, name, path } => import_statement(
                    self,
                    scope,
                    path.as_str(),
                    name.as_str(),
                ),
            },
        };
        match action {
            Action::Float(_) => {},
            _ => {
                self.floats = Vec::new();
            },
        }
        action
    }

    /// Takes the steps of the run up to the first that asks something of
    /// the embedding program or finishes the run, and no more of them than
    /// `budget`. Where the budget runs out first, the result is
    /// [`Action::Continue`].
    pub fn advance(&mut self, budget: usize) -> (action: Action)
        ensures
            (final(self)@, action@) == advanced(old(self)@, budget as nat),
    {
        let mut left = budget;
        while left > 0
            invariant
                advanced(old(self)@, budget as nat) == advanced(self@, left as nat),
            decreases left,
        {
            let action = self.step();
            match action {
                Action::Continue => {},
                _ => {
                    return action;
                },
            }
            left -= 1;
        }
        Action::Continue
    }

    /// Hands over the result of the native function that the program has
    /// called, in place of undefined: it is the value that was produced
    /// last.
    pub fn resume(&mut self, value: ValueType)
        ensures
            final(self)@ == old(self)@.produce(value@),
    {
        self.produce(value);
    }

    /// Tells the engine the result of a floating-point operation. Where it
    /// has been told one for the same request before, that one stands.
    pub fn learn(&mut self, request: FloatRequest, answer: Float)
        ensures
            final(self)@ == (EvaluatorModel {
                floats: old(self)@.floats.push((request, answer)),
                ..old(self)@
            }),
    {
        self.floats.push((request, answer));
    }

    /// Hands over the program of the file that the program imports, or the
    /// error of reading or parsing it, and the directory of the file.
    pub fn resume_import(&mut self, program: Result<ASTNode, Error>, metadata: Metadata) -> (action:
        Action)
        ensures
            (final(self)@, action@) == import_resumed(
                old(self)@,
                program_model(program),
                metadata.pw@,
            ),
    {
        let depth = self.stack.len();
        if depth == 0 {
            return Action::Continue;
        }
        match &self.stack[depth - 1] {
            Task::Import { .. } => {},
            _ => {
                return Action::Continue;
            },
        }
        let task = self.pop();
        let _ = self.take();
        match task {
            Some(Task::Import { scope, name, path }) => match program {
                Ok(ASTNode::Block(block)) => {
                    let module = self.scopes.len();
                    let mut global = Scope::new("global");
                    global.extend(build_standard_library());
                    self.scopes.push(global);
                    self.directories.push((module, metadata.pw));
                    assert(self@.scopes =~= old(self)@.scopes.push(global_scope()));
                    assert(self@.directories =~= old(self)@.directories.push(
                        (module, metadata.pw@),
                    ));
                    self.push(Task::Bind { scope, name, module, imported: true });
                    self.push(Task::Block { scope: module, block, index: 0, terminal: true });
                    Action::Continue
                },
                Err(error) => self.fail(error),
            },
            _ => Action::Continue,
        }
    }

    /// Puts a task on the stack.
    pub(crate) fn push(&mut self, task: Task)
        ensures
            final(self)@ == old(self)@.push(task@),
    {
        self.stack.push(task);
        assert(self@.stack =~= old(self)@.stack.push(task@));
    }

    /// Takes the last task from the stack.
    pub(crate) fn pop(&mut self) -> (task: Option<Task>)
        ensures
            match task {
                Some(task) => old(self)@.stack.len() > 0 && task@ == old(self)@.stack.last()
                    && final(self)@ == (EvaluatorModel {
                    stack: old(self)@.stack.drop_last(),
                    ..old(self)@
                }),
                None => old(self)@.stack.len() == 0 && final(self)@ == old(self)@,
            },
    {
        let task = self.stack.pop();
        assert(self@.stack =~= if old(self)@.stack.len() > 0 {
            old(self)@.stack.drop_last()
        } else {
            old(self)@.stack
        });
        task
    }

    /// Sets the value that was produced last.
    pub(crate) fn produce(&mut self, value: ValueType)
        ensures
            final(self)@ == old(self)@.produce(value@),
    {
        self.value = Some(value);
    }

    /// Takes the value that was produced last; undefined where there is
    /// none.
    pub(crate) fn take(&mut self) -> (r: Option<ValueType>)
        ensures
            option_model(r) == old(self)@.value,
            final(self)@ == old(self)@.clear(),
    {
        self.value.take()
    }

    /// Adds an empty scope and gives its index.
    pub(crate) fn open(&mut self, name: &str, parent: Option<usize>) -> (r: usize)
        ensures
            final(self)@ == old(self)@.open(name@, parent),
            r == old(self)@.scopes.len(),
    {
        let index = self.scopes.len();
        let scope = match parent {
            Some(parent) => Scope::with_parent(name, parent),
            None => Scope::new(name),
        };
        self.scopes.push(scope);
        assert(self@.scopes =~= old(self)@.scopes.push(ScopeModel::empty(name@, parent)));
        index
    }

    /// Ends the work up to the nearest import in progress.
    pub(crate) fn fail(&mut self, error: Error) -> (action: Action)
        ensures
            (final(self)@, action@) == old(self)@.fail(error@),
    {
        self.value = None;
        loop
            invariant
                self@ == (EvaluatorModel { stack: self@.stack, value: None, ..old(self)@ }),
                unwound(self@.stack) == unwound(old(self)@.stack),
            decreases self@.stack.len(),
        {
            let depth = self.stack.len();
            if depth == 0 {
                return Action::Finished(Err(error));
            }
            if self.stack[depth - 1].stops_errors() {
                return Action::Report(error);
            }
            let _ = self.pop();
        }
    }

    /// The directory against which the imports of the code that runs in a
    /// scope are resolved.
    pub fn directory(&self, scope: usize) -> (r: String)
        ensures
            r@ == self@.directory(scope),
    {
        let root = Scope::root(&self.scopes, scope);
        let mut i: usize = 0;
        while i < self.directories.len()
            invariant
                i <= self.directories@.len(),
                root == root_of(self@.scopes, scope as int),
                directory_from(self@.directories, root as int, 0) == directory_from(
                    self@.directories,
                    root as int,
                    i as int,
                ),
            decreases self.directories@.len() - i,
        {
            if self.directories[i].0 == root {
                return self.directories[i].1.clone();
            }
            i += 1;
        }
        self.metadata.pw.clone()
    }

    /// Binds a name in the scope with the given index itself.
    pub(crate) fn bind(&mut self, scope: usize, name: String, value: ValueType)
        ensures
            final(self)@ == (EvaluatorModel {
                scopes: bind_at(old(self)@.scopes, scope as int, name@, value@),
                ..old(self)@
            }),
    {
        if scope < self.scopes.len() {
            self.scopes[scope].bind(name, value);
            assert(self@.scopes =~= bind_at(old(self)@.scopes, scope as int, name@, value@));
        }
    }

    /// Assigns one value to each of some names from a scope.
    pub(crate) fn write_all(&mut self, scope: usize, names: &Vec<String>, value: &ValueType)
        ensures
            final(self)@ == old(self)@.write_all(scope, names_model(names@), value@),
    {
        let ghost targets = names_model(names@);
        let mut i: usize = 0;
        while i < names.len()
            invariant
                i <= names@.len(),
                targets == names_model(names@),
                self@ == (EvaluatorModel { scopes: self@.scopes, ..old(self)@ }),
                assign_all(old(self)@.scopes, scope as int, targets, 0, value@) == assign_all(
                    self@.scopes,
                    scope as int,
                    targets,
                    i as int,
                    value@,
                ),
            decreases names@.len() - i,
        {
            self.write(scope, names[i].as_str(), value.duplicate());
            i += 1;
        }
    }

    /// Assigns to a name from a scope.
    pub(crate) fn write(&mut self, scope: usize, name: &str, value: ValueType)
        ensures
            final(self)@ == old(self)@.write(scope, name@, value@),
    {
        Scope::set(&mut self.scopes, scope, name, value);
    }
}

} // verus!
