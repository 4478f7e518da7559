//! Functions: their definition and their call.
//!
//! A function has one scope of its own, made when the function is defined
//! as a child of the scope of the definition. Every call binds the
//! arguments in that one scope and runs the body in it: a call that begins
//! before another has ended overwrites the parameters and the local names
//! of the other.

use crate::action::{Action, ActionModel};
use crate::ast::{copy_names, names_model, share, Statement};
use crate::ast;
use crate::block::Block;
use crate::either::Either;
use crate::error::{Error, ErrorModel};
use crate::evaluator::{Evaluator, EvaluatorModel};
use crate::expression::{evaluate, evaluate_expression};
use crate::outcome::{Outcome, OutcomeModel};
use crate::scope::{bind_at, ScopeModel};
use crate::task::{Task, TaskModel};
use crate::value::{
    undefined, values_model, Function, FunctionModel, ValueModel, ValueType,
};
use std::rc::Rc;
use vstd::prelude::*;
use vstd::string::*;

verus! {

/// The message of the error for a call of what is not a function.
pub open spec fn not_a_function_message() -> Seq<char> {
    "value is not a function"@
}

/// The argument for the parameter at a position: the argument at that
/// position, and undefined where the arguments end before it.
pub open spec fn argument_at(arguments: Seq<ValueModel>, at: int) -> ValueModel {
    if 0 <= at < arguments.len() {
        arguments[at]
    } else {
        undefined()
    }
}

/// The scopes after the parameters from position `from` on have been bound
/// to their arguments in the function's own scope, in their order. The
/// scope of the definition is not written, though it may bind a name of
/// the same spelling. Arguments beyond the parameters are left out.
pub open spec fn bound(
    scopes: Seq<ScopeModel>,
    frame: int,
    parameters: Seq<Seq<char>>,
    arguments: Seq<ValueModel>,
    from: int,
) -> Seq<ScopeModel>
    decreases parameters.len() - from,
{
    if 0 <= from < parameters.len() {
        bound(
            bind_at(scopes, frame, parameters[from], argument_at(arguments, from)),
            frame,
            parameters,
            arguments,
            from + 1,
        )
    } else {
        scopes
    }
}

/// The evaluator after a function has been called: the arguments are bound
/// in the function's own scope, and the body is left on the stack to be
/// run in that scope.
pub open spec fn called(
    m: EvaluatorModel,
    function: FunctionModel,
    arguments: Seq<ValueModel>,
) -> EvaluatorModel {
    (EvaluatorModel {
        scopes: bound(
            m.scopes,
            function.body.scope as int,
            function.expected_parameters,
            arguments,
            0,
        ),
        ..m
    }).clear().push(
        TaskModel::Block {
            scope: function.body.scope,
            block: *function.body.block,
            index: 0,
            terminal: true,
        },
    )
}

/// The call of a binding with the given arguments: a function of the
/// program is called; a native function is left to the embedding program,
/// and its result is undefined until the embedding program hands over
/// another; to call anything else is a type error.
pub open spec fn invoked(m: EvaluatorModel, callee: ValueModel, arguments: Seq<ValueModel>) -> (
    EvaluatorModel,
    ActionModel,
) {
    match callee {
        ValueModel::Function(function) => (called(m, function, arguments), ActionModel::Continue),
        ValueModel::InternalFunction(function) => (
            m.produce(undefined()),
            ActionModel::Call { function, arguments },
        ),
        _ => m.fail(ErrorModel::type_(not_a_function_message())),
    }
}

/// The arguments of a call statement.
pub open spec fn arguments_of(statement: Statement) -> Seq<Either<ast::Expression, Rc<Statement>>> {
    match statement {
        Statement::FunctionCall { arguments, .. } => arguments@,
        _ => Seq::empty(),
    }
}

/// One step of the evaluation of a call's arguments, of which `collected`
/// have been evaluated.
///
/// A value that a nested statement has just produced is the next argument.
/// Then the next argument that is left is taken up: an expression is
/// evaluated, a statement is left on the stack to be run. When none is
/// left, the call is made. The arguments are evaluated from left to right.
pub open spec fn arguments_step(
    m: EvaluatorModel,
    scope: usize,
    statement: Statement,
    callee: ValueModel,
    collected: Seq<ValueModel>,
) -> (EvaluatorModel, ActionModel) {
    let collected = match m.value {
        Some(value) => collected.push(value),
        None => collected,
    };
    let m = m.clear();
    let arguments = arguments_of(statement);
    if collected.len() < arguments.len() {
        match arguments[collected.len() as int] {
            Either::Left(expression) => match evaluate(
                m.scopes,
                scope as int,
                m.floats,
                expression,
            ) {
                OutcomeModel::Value(value) => (
                    m.push(
                        TaskModel::Arguments {
                            scope,
                            statement,
                            callee,
                            collected: collected.push(value),
                        },
                    ),
                    ActionModel::Continue,
                ),
                OutcomeModel::Pending(request) => (
                    m.push(TaskModel::Arguments { scope, statement, callee, collected }),
                    ActionModel::Float(request),
                ),
                OutcomeModel::Failure(error) => m.fail(error),
            },
            Either::Right(nested) => (
                m.push(TaskModel::Arguments { scope, statement, callee, collected }).push(
                    TaskModel::Statement { scope, statement: *nested },
                ),
                ActionModel::Continue,
            ),
        }
    } else {
        invoked(m, callee, collected)
    }
}

/// The start of a call: the callee is evaluated, and the evaluation of the
/// arguments is left on the stack.
pub open spec fn call_started(
    m: EvaluatorModel,
    scope: usize,
    statement: Statement,
    expression: ast::Expression,
) -> (EvaluatorModel, ActionModel) {
    match evaluate(m.scopes, scope as int, m.floats, expression) {
        OutcomeModel::Value(callee) => (
            m.clear().push(
                TaskModel::Arguments { scope, statement, callee, collected: Seq::empty() },
            ),
            ActionModel::Continue,
        ),
        OutcomeModel::Pending(request) => (
            m.push(TaskModel::Statement { scope, statement }),
            ActionModel::Float(request),
        ),
        OutcomeModel::Failure(error) => m.fail(error),
    }
}

/// The name of the scope of a function.
pub open spec fn function_scope_name(name: Seq<char>) -> Seq<char> {
    "func_"@ + name
}

/// The evaluator after the definition of a function: a scope is made for
/// the function, as a child of the scope of the definition, and the
/// function is assigned to its name from the scope of the definition.
pub open spec fn defined(
    m: EvaluatorModel,
    scope: usize,
    name: Seq<char>,
    parameters: Seq<Seq<char>>,
    body: Rc<ast::Block>,
) -> EvaluatorModel {
    m.open(function_scope_name(name), Some(scope)).write(
        scope,
        name,
        ValueModel::Function(
            FunctionModel {
                name,
                body: Block { block: body, scope: m.scopes.len() as usize },
                expected_parameters: parameters,
            },
        ),
    )
}

impl Function {
    /// Calls the function: binds the arguments to the parameters, by
    /// position, in the function's own scope, and leaves the body on the
    /// evaluator's stack.
    pub fn call(self, evaluator: &mut Evaluator, parameters: Vec<ValueType>)
        ensures
            final(evaluator)@ == called(old(evaluator)@, self@, values_model(parameters@)),
    {
        let frame = self.body.scope;
        let ghost names = names_model(self.expected_parameters@);
        let ghost arguments = values_model(parameters@);
        let _ = evaluator.take();
        let mut i: usize = 0;
        while i < self.expected_parameters.len()
            invariant
                i <= self.expected_parameters@.len(),
                names == names_model(self.expected_parameters@),
                arguments == values_model(parameters@),
                frame == self.body.scope,
                evaluator@ == (EvaluatorModel {
                    scopes: evaluator@.scopes,
                    value: None,
                    ..old(evaluator)@
                }),
                bound(old(evaluator)@.scopes, frame as int, names, arguments, 0) == bound(
                    evaluator@.scopes,
                    frame as int,
                    names,
                    arguments,
                    i as int,
                ),
            decreases self.expected_parameters@.len() - i,
        {
            let argument = if i < parameters.len() {
                parameters[i].duplicate()
            } else {
                ValueType::undefined()
            };
            evaluator.bind(frame, self.expected_parameters[i].clone(), argument);
            i += 1;
        }
        self.body.call(evaluator);
    }
}

/// Makes the call of a binding with the given arguments.
pub fn invoke(evaluator: &mut Evaluator, callee: ValueType, arguments: Vec<ValueType>) -> (action:
    Action)
    ensures
        (final(evaluator)@, action@) == invoked(
            old(evaluator)@,
            callee@,
            values_model(arguments@),
        ),
{
    match callee {
        ValueType::Function(function) => {
            function.call(evaluator, arguments);
            Action::Continue
        },
        ValueType::InternalFunction(function) => {
            evaluator.produce(ValueType::undefined());
            Action::Call { function, arguments }
        },
        _ => evaluator.fail(Error::type_("value is not a function")),
    }
}

/// Takes one step of the evaluation of a call's arguments.
pub fn collect_arguments(
    evaluator: &mut Evaluator,
    scope: usize,
    statement: Rc<Statement>,
    callee: ValueType,
    collected: Vec<ValueType>,
) -> (action: Action)
    ensures
        (final(evaluator)@, action@) == arguments_step(
            old(evaluator)@,
            scope,
            *statement,
            callee@,
            values_model(collected@),
        ),
{
    let mut collected = collected;
    match evaluator.take() {
        Some(value) => {
            let ghost before = values_model(collected@);
            collected.push(value);
            assert(values_model(collected@) =~= before.push(value@));
        },
        None => {},
    }
    match &*statement {
        Statement::FunctionCall { arguments, .. } => {
            if collected.len() < arguments.len() {
                match &arguments[collected.len()] {
                    Either::Left(expression) => {
                        match evaluate_expression(evaluator, scope, expression) {
                            Outcome::Value(value) => {
                                let ghost before = values_model(collected@);
                                collected.push(value);
                                assert(values_model(collected@) =~= before.push(value@));
                                evaluator.push(
                                    Task::Arguments {
                                        scope,
                                        statement: share(&statement),
                                        callee,
                                        collected,
                                    },
                                );
                                Action::Continue
                            },
                            Outcome::Pending(request) => {
                                evaluator.push(
                                    Task::Arguments {
                                        scope,
                                        statement: share(&statement),
                                        callee,
                                        collected,
                                    },
                                );
                                Action::Float(request)
                            },
                            Outcome::Failure(error) => evaluator.fail(error),
                        }
                    },
                    Either::Right(nested) => {
                        evaluator.push(
                            Task::Arguments {
                                scope,
                                statement: share(&statement),
                                callee,
                                collected,
                            },
                        );
                        evaluator.push(Task::Statement { scope, statement: share(nested) });
                        Action::Continue
                    },
                }
            } else {
                invoke(evaluator, callee, collected)
            }
        },
        _ => invoke(evaluator, callee, collected),
    }
}

/// Starts a call: evaluates the callee and leaves the evaluation of the
/// arguments on the evaluator's stack.
pub fn handle_function_call(
    evaluator: &mut Evaluator,
    scope: usize,
    statement: &Rc<Statement>,
    expression: &ast::Expression,
) -> (action: Action)
    ensures
        (final(evaluator)@, action@) == call_started(
            old(evaluator)@,
            scope,
            **statement,
            *expression,
        ),
{
    match evaluate_expression(evaluator, scope, expression) {
        Outcome::Value(callee) => {
            let _ = evaluator.take();
            let collected: Vec<ValueType> = Vec::new();
            assert(values_model(collected@) =~= Seq::empty());
            evaluator.push(
                Task::Arguments { scope, statement: share(statement), callee, collected },
            );
            Action::Continue
        },
        Outcome::Pending(request) => {
            evaluator.push(Task::Statement { scope, statement: share(statement) });
            Action::Float(request)
        },
        Outcome::Failure(error) => evaluator.fail(error),
    }
}

/// Defines a function in the scope with the given index. The statement's
/// value is undefined.
pub fn handle_function_definition(
    evaluator: &mut Evaluator,
    scope: usize,
    name: &str,
    parameters: &Vec<String>,
    body: &Rc<ast::Block>,
) -> (r: ValueType)
    ensures
        final(evaluator)@ == defined(
            old(evaluator)@,
            scope,
            name@,
            names_model(parameters@),
            *body,
        ),
        r@ == undefined(),
{
    let mut label = "func_".to_owned();
    label.append(name);
    let frame = evaluator.open(label.as_str(), Some(scope));
    let function = Function::new(name.to_owned(), Block::new(share(body), frame), copy_names(parameters));
    evaluator.write(scope, name, ValueType::Function(function));
    ValueType::undefined()
}

} // verus!
