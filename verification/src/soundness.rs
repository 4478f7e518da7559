//! What stays true of an evaluator from step to step: every scope index
//! that is held anywhere names a scope, and every parent is a scope made
//! earlier.

use crate::ast;
use crate::ast::{names_model, ASTNode};
use crate::block::{block_step, terminal_outcome, Block};
use crate::either::Either;
use crate::error::ErrorModel;
use crate::evaluator::{
    global_scope, import_resumed, performed, step, submitted, unwound, EvaluatorModel,
};
use crate::expression::comparison_expression::evaluate_comparison;
use crate::expression::logic_expression::{evaluate_logic, truthy};
use crate::expression::math_expression::evaluate_math;
use crate::expression::namespace_expression::{descend, member};
use crate::expression::{evaluate, evaluate_entries, evaluate_items, placed, slot};
use crate::flow_control::{branch, conditional, loop_turn, Branch};
use crate::function::{
    argument_at, arguments_of, arguments_step, bound, defined, function_scope_name, invoked,
    not_a_function_message,
};
use crate::module::module_started;
use crate::number::Float;
use crate::outcome::OutcomeModel;
use crate::request::FloatRequest;
use crate::scope::{
    assign, assign_all, bind_at, bindings, lookup, parent_of, well_formed, written, ScopeModel,
};
use crate::statement::{assigned, statement_started, targets_of};
use crate::stdlib::standard_library;
use crate::task::TaskModel;
use crate::value::{undefined, FunctionModel, ModuleModel, PrimitiveModel, ValueModel};
use std::rc::Rc;
use vstd::prelude::*;

verus! {

/// Whether every scope index that a binding holds, at any depth, names one
/// of the first `count` scopes.
pub open spec fn value_fits(value: ValueModel, count: nat) -> bool
    decreases value,
{
    match value {
        ValueModel::Function(function) => function.body.scope < count,
        ValueModel::Module(module) => module.scope < count,
        ValueModel::InternalFunction(_) => true,
        ValueModel::Variable(PrimitiveModel::Array(items)) => forall|i: int|
            0 <= i < items.len() ==> value_fits(#[trigger] items[i], count),
        ValueModel::Variable(PrimitiveModel::Object(entries)) => forall|i: int|
            0 <= i < entries.len() ==> value_fits((#[trigger] entries[i]).1, count),
        ValueModel::Variable(_) => true,
    }
}

/// Whether all the bindings of a list fit.
pub open spec fn values_fit(values: Seq<ValueModel>, count: nat) -> bool {
    forall|i: int| 0 <= i < values.len() ==> value_fits(#[trigger] values[i], count)
}

/// Whether all the bindings of a map fit.
pub open spec fn variables_fit(variables: Map<Seq<char>, ValueModel>, count: nat) -> bool {
    forall|name: Seq<char>| #[trigger]
        variables.contains_key(name) ==> value_fits(variables[name], count)
}

/// Whether the scopes are sound: each parent is a scope made earlier, and
/// every scope index that a binding holds names a scope.
pub open spec fn scopes_sound(scopes: Seq<ScopeModel>) -> bool {
    &&& well_formed(scopes)
    &&& forall|i: int|
        0 <= i < scopes.len() ==> variables_fit((#[trigger] scopes[i]).variables, scopes.len())
}

/// Whether every scope index that a task holds names one of the first
/// `count` scopes.
pub open spec fn task_fits(task: TaskModel, count: nat) -> bool {
    match task {
        TaskModel::Statement { scope, .. } => scope < count,
        TaskModel::Block { scope, .. } => scope < count,
        TaskModel::Assign { scope, .. } => scope < count,
        TaskModel::Arguments { scope, callee, collected, .. } => scope < count && value_fits(
            callee,
            count,
        ) && values_fit(collected, count),
        TaskModel::Loop { scope, last, .. } => scope < count && value_fits(last, count),
        TaskModel::Bind { scope, module, .. } => scope < count && module < count,
        TaskModel::Import { scope, .. } => scope < count,
    }
}

/// Whether all the tasks of a stack fit.
pub open spec fn stack_fits(stack: Seq<TaskModel>, count: nat) -> bool {
    forall|i: int| 0 <= i < stack.len() ==> task_fits(#[trigger] stack[i], count)
}

/// Whether an evaluator is sound: it has a global scope, its scopes are
/// sound, and every scope index that its stack or the value produced last
/// holds names a scope.
pub open spec fn sound(m: EvaluatorModel) -> bool {
    &&& m.scopes.len() > 0
    &&& scopes_sound(m.scopes)
    &&& stack_fits(m.stack, m.scopes.len())
    &&& m.value matches Some(value) ==> value_fits(value, m.scopes.len())
}

/// A binding that fits a number of scopes fits every greater number.
pub proof fn lemma_fits_more(value: ValueModel, count: nat, more: nat)
    requires
        value_fits(value, count),
        count <= more,
    ensures
        value_fits(value, more),
    decreases value,
{
    match value {
        ValueModel::Variable(PrimitiveModel::Array(items)) => {
            assert forall|i: int| 0 <= i < items.len() implies value_fits(
                #[trigger] items[i],
                more,
            ) by {
                lemma_fits_more(items[i], count, more);
            }
        },
        ValueModel::Variable(PrimitiveModel::Object(entries)) => {
            assert forall|i: int| 0 <= i < entries.len() implies value_fits(
                (#[trigger] entries[i]).1,
                more,
            ) by {
                lemma_fits_more(entries[i].1, count, more);
            }
        },
        _ => {},
    }
}

/// What a name is bound to in sound scopes fits.
pub proof fn lemma_lookup_fits(scopes: Seq<ScopeModel>, scope: int, name: Seq<char>)
    requires
        scopes_sound(scopes),
    ensures
        lookup(scopes, scope, name) matches Some(value) ==> value_fits(value, scopes.len()),
    decreases scope,
{
    if 0 <= scope < scopes.len() {
        if scopes[scope].variables.contains_key(name) {
            assert(variables_fit(scopes[scope].variables, scopes.len()));
        } else {
            match parent_of(scopes, scope) {
                Some(parent) => {
                    lemma_lookup_fits(scopes, parent, name);
                },
                None => {},
            }
        }
    }
}

/// What a list of entries binds a name to is the value of one of them.
pub proof fn lemma_bindings_fit(entries: Seq<(Seq<char>, ValueModel)>, name: Seq<char>, count: nat)
    requires
        forall|i: int| 0 <= i < entries.len() ==> value_fits((#[trigger] entries[i]).1, count),
        bindings(entries).contains_key(name),
    ensures
        value_fits(bindings(entries)[name], count),
    decreases entries.len(),
{
    if entries.len() > 0 {
        if entries[0].0 != name {
            let rest = entries.drop_first();
            assert forall|i: int| 0 <= i < rest.len() implies value_fits(
                (#[trigger] rest[i]).1,
                count,
            ) by {
                assert(rest[i] == entries[i + 1]);
            }
            lemma_bindings_fit(rest, name, count);
        }
    }
}

/// The member of a binding that fits, in sound scopes, fits.
pub proof fn lemma_member_fits(scopes: Seq<ScopeModel>, value: ValueModel, name: Seq<char>)
    requires
        scopes_sound(scopes),
        value_fits(value, scopes.len()),
    ensures
        value_fits(member(scopes, value, name), scopes.len()),
{
    match value {
        ValueModel::Module(module) => {
            assert(variables_fit(scopes[module.scope as int].variables, scopes.len()));
        },
        ValueModel::Variable(PrimitiveModel::Object(entries)) => {
            if bindings(entries).contains_key(name) {
                lemma_bindings_fit(entries, name, scopes.len());
            }
        },
        _ => {},
    }
}

/// What is reached along a path from a binding that fits, in sound scopes,
/// fits.
pub proof fn lemma_descend_fits(
    scopes: Seq<ScopeModel>,
    value: ValueModel,
    path: Seq<Seq<char>>,
    from: int,
)
    requires
        scopes_sound(scopes),
        value_fits(value, scopes.len()),
    ensures
        value_fits(descend(scopes, value, path, from), scopes.len()),
    decreases path.len() - from,
{
    if 0 <= from < path.len() {
        lemma_member_fits(scopes, value, path[from]);
        lemma_descend_fits(scopes, member(scopes, value, path[from]), path, from + 1);
    }
}

/// To give a key of an object a value that fits keeps the entries fitting.
pub proof fn lemma_placed_fits(
    entries: Seq<(Seq<char>, ValueModel)>,
    key: Seq<char>,
    value: ValueModel,
    count: nat,
)
    requires
        forall|i: int| 0 <= i < entries.len() ==> value_fits((#[trigger] entries[i]).1, count),
        value_fits(value, count),
    ensures
        forall|i: int|
            0 <= i < placed(entries, key, value).len() ==> value_fits(
                (#[trigger] placed(entries, key, value)[i]).1,
                count,
            ),
{
    let at = slot(entries, key, 0);
    crate::laws::lemma_slot(entries, key, 0);
    let after = placed(entries, key, value);
    assert forall|i: int| 0 <= i < after.len() implies value_fits((#[trigger] after[i]).1, count) by {
        if at < entries.len() && after == entries.update(at, (key, value)) {
            if i != at {
                assert(after[i] == entries[i]);
            }
        } else {
            if i < at {
                assert(after[i] == entries[i]);
            } else if i > at {
                assert(after[i] == entries[i - 1]);
            }
        }
    }
}

/// The value of an expression in sound scopes fits.
pub proof fn lemma_evaluate_fits(
    scopes: Seq<ScopeModel>,
    scope: int,
    known: Seq<(FloatRequest, Float)>,
    expression: ast::Expression,
)
    requires
        scopes_sound(scopes),
    ensures
        evaluate(scopes, scope, known, expression) matches OutcomeModel::Value(value)
            ==> value_fits(value, scopes.len()),
    decreases expression,
{
    match expression {
        ast::Expression::Array(items) => {
            lemma_items_fit(scopes, scope, known, items@, items@.len() as int);
        },
        ast::Expression::Object(entries) => {
            lemma_entries_fit(scopes, scope, known, entries@, entries@.len() as int);
        },
        ast::Expression::Identifier(name) => {
            lemma_lookup_fits(scopes, scope, name@);
        },
        ast::Expression::Namespace(path) => {
            let names = names_model(path@);
            if names.len() > 0 {
                lemma_lookup_fits(scopes, scope, names[0]);
                match lookup(scopes, scope, names[0]) {
                    Some(value) => {
                        lemma_descend_fits(scopes, value, names, 1);
                    },
                    None => {},
                }
            }
        },
        ast::Expression::MathExpression(math) => {
            reveal_with_fuel(evaluate_math, 1);
        },
        ast::Expression::LogicExpression(logic) => {
            reveal_with_fuel(evaluate_logic, 1);
        },
        ast::Expression::ComparisonExpression(comparison) => {
            reveal_with_fuel(evaluate_comparison, 1);
        },
        _ => {},
    }
}

/// The array of the values of expressions in sound scopes fits.
pub proof fn lemma_items_fit(
    scopes: Seq<ScopeModel>,
    scope: int,
    known: Seq<(FloatRequest, Float)>,
    items: Seq<ast::Expression>,
    count: int,
)
    requires
        scopes_sound(scopes),
    ensures
        evaluate_items(scopes, scope, known, items, count) matches OutcomeModel::Value(value)
            ==> value_fits(value, scopes.len()),
    decreases items, count,
{
    if 0 < count <= items.len() {
        lemma_items_fit(scopes, scope, known, items, count - 1);
        lemma_evaluate_fits(scopes, scope, known, items[count - 1]);
    }
}

/// The object of the values of expressions in sound scopes fits.
pub proof fn lemma_entries_fit(
    scopes: Seq<ScopeModel>,
    scope: int,
    known: Seq<(FloatRequest, Float)>,
    entries: Seq<(String, ast::Expression)>,
    count: int,
)
    requires
        scopes_sound(scopes),
    ensures
        evaluate_entries(scopes, scope, known, entries, count) matches OutcomeModel::Value(value)
            ==> value_fits(value, scopes.len()),
    decreases entries, count,
{
    if 0 < count <= entries.len() {
        lemma_entries_fit(scopes, scope, known, entries, count - 1);
        lemma_evaluate_fits(scopes, scope, known, entries[count - 1].1);
        match evaluate_entries(scopes, scope, known, entries, count - 1) {
            OutcomeModel::Value(ValueModel::Variable(PrimitiveModel::Object(values))) => {
                match evaluate(scopes, scope, known, entries[count - 1].1) {
                    OutcomeModel::Value(value) => {
                        lemma_placed_fits(
                            values,
                            entries[count - 1].0@,
                            value,
                            scopes.len(),
                        );
                    },
                    _ => {},
                }
            },
            _ => {},
        }
    }
}

/// An assignment of a binding that fits keeps the scopes sound.
pub proof fn lemma_assign_sound(
    scopes: Seq<ScopeModel>,
    scope: int,
    name: Seq<char>,
    value: ValueModel,
)
    requires
        scopes_sound(scopes),
        value_fits(value, scopes.len()),
    ensures
        scopes_sound(assign(scopes, scope, name, value)),
        assign(scopes, scope, name, value).len() == scopes.len(),
{
    let after = assign(scopes, scope, name, value);
    crate::laws::law_assign_keeps_well_formed(scopes, scope, name, value);
    assert forall|i: int| 0 <= i < after.len() implies variables_fit(
        (#[trigger] after[i]).variables,
        after.len(),
    ) by {
        assert(variables_fit(scopes[i].variables, scopes.len()));
    }
}

/// To bind a name, in a scope itself, to a binding that fits keeps the
/// scopes sound.
pub proof fn lemma_bind_sound(
    scopes: Seq<ScopeModel>,
    scope: int,
    name: Seq<char>,
    value: ValueModel,
)
    requires
        scopes_sound(scopes),
        value_fits(value, scopes.len()),
    ensures
        scopes_sound(bind_at(scopes, scope, name, value)),
        bind_at(scopes, scope, name, value).len() == scopes.len(),
{
    let after = bind_at(scopes, scope, name, value);
    assert forall|i: int| 0 <= i < after.len() implies variables_fit(
        (#[trigger] after[i]).variables,
        after.len(),
    ) && match after[i].parent {
        Some(parent) => parent < i,
        None => true,
    } by {
        assert(variables_fit(scopes[i].variables, scopes.len()));
        assert(after[i].parent == scopes[i].parent);
    }
}

/// An assignment of a binding that fits to several names keeps the scopes
/// sound.
pub proof fn lemma_assign_all_sound(
    scopes: Seq<ScopeModel>,
    scope: int,
    names: Seq<Seq<char>>,
    from: int,
    value: ValueModel,
)
    requires
        scopes_sound(scopes),
        value_fits(value, scopes.len()),
    ensures
        scopes_sound(assign_all(scopes, scope, names, from, value)),
        assign_all(scopes, scope, names, from, value).len() == scopes.len(),
    decreases names.len() - from,
{
    if 0 <= from < names.len() {
        lemma_assign_sound(scopes, scope, names[from], value);
        lemma_assign_all_sound(
            assign(scopes, scope, names[from], value),
            scope,
            names,
            from + 1,
            value,
        );
    }
}

/// To bind arguments that fit keeps the scopes sound.
pub proof fn lemma_bound_sound(
    scopes: Seq<ScopeModel>,
    frame: int,
    parameters: Seq<Seq<char>>,
    arguments: Seq<ValueModel>,
    from: int,
)
    requires
        scopes_sound(scopes),
        values_fit(arguments, scopes.len()),
    ensures
        scopes_sound(bound(scopes, frame, parameters, arguments, from)),
        bound(scopes, frame, parameters, arguments, from).len() == scopes.len(),
    decreases parameters.len() - from,
{
    if 0 <= from < parameters.len() {
        let argument = argument_at(arguments, from);
        lemma_bind_sound(scopes, frame, parameters[from], argument);
        lemma_bound_sound(
            bind_at(scopes, frame, parameters[from], argument),
            frame,
            parameters,
            arguments,
            from + 1,
        );
    }
}

/// A stack that fits a number of scopes fits every greater number.
pub proof fn lemma_stack_fits_more(stack: Seq<TaskModel>, count: nat, more: nat)
    requires
        stack_fits(stack, count),
        count <= more,
    ensures
        stack_fits(stack, more),
{
    assert forall|i: int| 0 <= i < stack.len() implies task_fits(#[trigger] stack[i], more) by {
        assert(task_fits(stack[i], count));
        match stack[i] {
            TaskModel::Arguments { callee, collected, .. } => {
                lemma_fits_more(callee, count, more);
                assert forall|j: int| 0 <= j < collected.len() implies value_fits(
                    #[trigger] collected[j],
                    more,
                ) by {
                    lemma_fits_more(collected[j], count, more);
                }
            },
            TaskModel::Loop { last, .. } => {
                lemma_fits_more(last, count, more);
            },
            _ => {},
        }
    }
}

/// One more scope, empty, whose parent is one of the scopes or none, keeps
/// the scopes sound.
pub proof fn lemma_open_sound(scopes: Seq<ScopeModel>, scope: ScopeModel)
    requires
        scopes_sound(scopes),
        scope.parent matches Some(parent) ==> parent < scopes.len(),
        variables_fit(scope.variables, scopes.len() + 1),
    ensures
        scopes_sound(scopes.push(scope)),
{
    let after = scopes.push(scope);
    assert forall|i: int| 0 <= i < after.len() implies variables_fit(
        (#[trigger] after[i]).variables,
        after.len(),
    ) by {
        if i < scopes.len() {
            assert(variables_fit(scopes[i].variables, scopes.len()));
            assert forall|name: Seq<char>| #[trigger]
                after[i].variables.contains_key(name) implies value_fits(
                after[i].variables[name],
                after.len(),
            ) by {
                lemma_fits_more(scopes[i].variables[name], scopes.len(), after.len());
            }
        }
    }
    assert forall|i: int| 0 <= i < after.len() implies match (#[trigger] after[i]).parent {
        Some(parent) => parent < i,
        None => true,
    } by {
        if i < scopes.len() {
            assert(after[i] == scopes[i]);
        }
    }
}

/// An evaluator with one more scope, empty, under a scope that it has, is
/// sound as before.
pub proof fn lemma_opened_sound(m: EvaluatorModel, name: Seq<char>, parent: usize)
    requires
        sound(m),
        parent < m.scopes.len(),
    ensures
        sound(m.open(name, Some(parent))),
{
    lemma_open_sound(m.scopes, ScopeModel::empty(name, Some(parent)));
    lemma_stack_fits_more(m.stack, m.scopes.len(), m.scopes.len() + 1);
    match m.value {
        Some(value) => {
            lemma_fits_more(value, m.scopes.len(), m.scopes.len() + 1);
        },
        None => {},
    }
}

/// One more task that fits keeps an evaluator sound.
pub proof fn lemma_pushed_sound(m: EvaluatorModel, task: TaskModel)
    requires
        sound(m),
        task_fits(task, m.scopes.len()),
    ensures
        sound(m.push(task)),
{
    let after = m.push(task);
    assert forall|i: int| 0 <= i < after.stack.len() implies task_fits(
        #[trigger] after.stack[i],
        after.scopes.len(),
    ) by {
        if i < m.stack.len() {
            assert(after.stack[i] == m.stack[i]);
        }
    }
}

/// What is left of a stack that fits, after an error, fits.
pub proof fn lemma_unwound_fits(stack: Seq<TaskModel>, count: nat)
    requires
        stack_fits(stack, count),
    ensures
        stack_fits(unwound(stack), count),
    decreases stack.len(),
{
    if stack.len() > 0 && !stack.last().stops_errors() {
        let rest = stack.drop_last();
        assert forall|i: int| 0 <= i < rest.len() implies task_fits(#[trigger] rest[i], count) by {
            assert(rest[i] == stack[i]);
        }
        lemma_unwound_fits(rest, count);
    }
}

/// An error keeps an evaluator sound.
pub proof fn lemma_failed_sound(m: EvaluatorModel, error: ErrorModel)
    requires
        sound(m),
    ensures
        sound(m.fail(error).0),
{
    lemma_unwound_fits(m.stack, m.scopes.len());
}

/// The task of running a block.
pub open spec fn block_task(scope: usize, block: Rc<ast::Block>, index: usize, terminal: bool) -> TaskModel {
    TaskModel::Block { scope, block: *block, index, terminal }
}

/// The task of running a statement.
pub open spec fn statement_task(scope: usize, statement: Rc<ast::Statement>) -> TaskModel {
    TaskModel::Statement { scope, statement: *statement }
}

/// A sound evaluator after an assignment of a value that fits is sound.
pub proof fn lemma_written_sound(m: EvaluatorModel, scope: usize, name: Seq<char>, value: ValueModel)
    requires
        sound(m),
        value_fits(value, m.scopes.len()),
    ensures
        sound(m.write(scope, name, value)),
{
    lemma_assign_sound(m.scopes, scope as int, name, value);
}

/// The end of an assignment keeps a sound evaluator sound.
pub proof fn lemma_assigned_sound(m: EvaluatorModel, scope: usize, statement: ast::Statement)
    requires
        sound(m),
    ensures
        sound(assigned(m, scope, statement).0),
{
    lemma_assign_all_sound(m.scopes, scope as int, targets_of(statement), 0, m.produced());
}

/// A block left on the stack to be run in a new scope, under a scope that
/// the evaluator has, keeps a sound evaluator sound.
pub proof fn lemma_entered_sound(
    m: EvaluatorModel,
    name: Seq<char>,
    parent: usize,
    below: Option<TaskModel>,
    block: Rc<ast::Block>,
    terminal: bool,
)
    requires
        sound(m),
        parent < m.scopes.len(),
        below matches Some(task) ==> task_fits(task, m.scopes.len() + 1),
    ensures
        sound(
            match below {
                Some(task) => m.open(name, Some(parent)).push(task),
                None => m.open(name, Some(parent)),
            }.push(block_task(m.scopes.len() as usize, block, 0, terminal)),
        ),
{
    lemma_opened_sound(m, name, parent);
    let opened = m.open(name, Some(parent));
    match below {
        Some(task) => {
            lemma_pushed_sound(opened, task);
            lemma_pushed_sound(
                opened.push(task),
                block_task(m.scopes.len() as usize, block, 0, terminal),
            );
        },
        None => {
            lemma_pushed_sound(opened, block_task(m.scopes.len() as usize, block, 0, terminal));
        },
    }
}

/// A conditional keeps a sound evaluator sound.
pub proof fn lemma_conditional_sound(
    m: EvaluatorModel,
    scope: usize,
    statement: ast::Statement,
    condition: ast::Expression,
    body: Rc<ast::Block>,
    else_if: Seq<(ast::Expression, Rc<ast::Block>)>,
    else_body: Option<Rc<ast::Block>>,
)
    requires
        sound(m),
        scope < m.scopes.len(),
    ensures
        sound(conditional(m, scope, statement, condition, body, else_if, else_body).0),
{
    match branch(m.scopes, scope as int, m.floats, condition, body, else_if, else_body) {
        Branch::Run { block, name } => {
            lemma_entered_sound(m.clear(), name, scope, None, block, true);
        },
        Branch::Nothing => {},
        Branch::Pending(request) => {
            lemma_pushed_sound(m, TaskModel::Statement { scope, statement });
        },
        Branch::Failure(error) => {
            lemma_failed_sound(m, error);
        },
    }
}

/// A turn of a loop keeps a sound evaluator sound.
pub proof fn lemma_loop_sound(
    m: EvaluatorModel,
    scope: usize,
    statement: ast::Statement,
    condition: ast::Expression,
    body: Rc<ast::Block>,
    last: ValueModel,
)
    requires
        sound(m),
        scope < m.scopes.len(),
        value_fits(last, m.scopes.len()),
    ensures
        sound(loop_turn(m, scope, statement, condition, body, last).0),
{
    let last = match m.value {
        Some(value) => value,
        None => last,
    };
    let cleared = m.clear();
    match evaluate(cleared.scopes, scope as int, cleared.floats, condition) {
        OutcomeModel::Value(value) => {
            if truthy(value) {
                lemma_fits_more(last, m.scopes.len(), m.scopes.len() + 1);
                lemma_entered_sound(
                    cleared,
                    "while"@,
                    scope,
                    Some(TaskModel::Loop { scope, statement, last }),
                    body,
                    true,
                );
            }
        },
        OutcomeModel::Pending(request) => {
            lemma_pushed_sound(cleared, TaskModel::Loop { scope, statement, last });
        },
        OutcomeModel::Failure(error) => {
            lemma_failed_sound(cleared, error);
        },
    }
}

/// The definition of a function keeps a sound evaluator sound.
pub proof fn lemma_defined_sound(
    m: EvaluatorModel,
    scope: usize,
    name: Seq<char>,
    parameters: Seq<Seq<char>>,
    body: Rc<ast::Block>,
)
    requires
        sound(m),
        scope < m.scopes.len(),
    ensures
        sound(defined(m, scope, name, parameters, body)),
{
    lemma_opened_sound(m, function_scope_name(name), scope);
    let opened = m.open(function_scope_name(name), Some(scope));
    let function = ValueModel::Function(
        FunctionModel {
            name,
            body: Block { block: body, scope: m.scopes.len() as usize },
            expected_parameters: parameters,
        },
    );
    lemma_written_sound(opened, scope, name, function);
}

/// The start of a module definition keeps a sound evaluator sound.
pub proof fn lemma_module_sound(m: EvaluatorModel, scope: usize, name: Seq<char>, body: Rc<ast::Block>)
    requires
        sound(m),
        scope < m.scopes.len(),
    ensures
        sound(module_started(m, scope, name, body)),
{
    lemma_entered_sound(
        m.clear(),
        name,
        scope,
        Some(
            TaskModel::Bind { scope, name, module: m.scopes.len() as usize, imported: false },
        ),
        body,
        false,
    );
}

/// The call of a binding that fits, with arguments that fit, keeps a sound
/// evaluator sound.
pub proof fn lemma_invoked_sound(m: EvaluatorModel, callee: ValueModel, arguments: Seq<ValueModel>)
    requires
        sound(m),
        value_fits(callee, m.scopes.len()),
        values_fit(arguments, m.scopes.len()),
    ensures
        sound(invoked(m, callee, arguments).0),
{
    match callee {
        ValueModel::Function(function) => {
            lemma_bound_sound(
                m.scopes,
                function.body.scope as int,
                function.expected_parameters,
                arguments,
                0,
            );
            let ready = (EvaluatorModel {
                scopes: bound(
                    m.scopes,
                    function.body.scope as int,
                    function.expected_parameters,
                    arguments,
                    0,
                ),
                ..m
            }).clear();
            lemma_pushed_sound(
                ready,
                block_task(function.body.scope, function.body.block, 0, true),
            );
        },
        ValueModel::InternalFunction(_) => {},
        _ => {
            lemma_failed_sound(m, ErrorModel::type_(not_a_function_message()));
        },
    }
}

/// A step of the evaluation of a call's arguments keeps a sound evaluator
/// sound.
pub proof fn lemma_arguments_sound(
    m: EvaluatorModel,
    scope: usize,
    statement: ast::Statement,
    callee: ValueModel,
    collected: Seq<ValueModel>,
)
    requires
        sound(m),
        scope < m.scopes.len(),
        value_fits(callee, m.scopes.len()),
        values_fit(collected, m.scopes.len()),
    ensures
        sound(arguments_step(m, scope, statement, callee, collected).0),
{
    let count = m.scopes.len();
    let gathered = match m.value {
        Some(value) => collected.push(value),
        None => collected,
    };
    assert(values_fit(gathered, count)) by {
        assert forall|i: int| 0 <= i < gathered.len() implies value_fits(
            #[trigger] gathered[i],
            count,
        ) by {
            if i < collected.len() {
                assert(gathered[i] == collected[i]);
            }
        }
    }
    let cleared = m.clear();
    let arguments = arguments_of(statement);
    if gathered.len() < arguments.len() {
        match arguments[gathered.len() as int] {
            Either::Left(expression) => {
                lemma_evaluate_fits(cleared.scopes, scope as int, cleared.floats, expression);
                match evaluate(cleared.scopes, scope as int, cleared.floats, expression) {
                    OutcomeModel::Value(value) => {
                        let more = gathered.push(value);
                        assert forall|i: int| 0 <= i < more.len() implies value_fits(
                            #[trigger] more[i],
                            count,
                        ) by {
                            if i < gathered.len() {
                                assert(more[i] == gathered[i]);
                            }
                        }
                        lemma_pushed_sound(
                            cleared,
                            TaskModel::Arguments { scope, statement, callee, collected: more },
                        );
                    },
                    OutcomeModel::Pending(request) => {
                        lemma_pushed_sound(
                            cleared,
                            TaskModel::Arguments { scope, statement, callee, collected: gathered },
                        );
                    },
                    OutcomeModel::Failure(error) => {
                        lemma_failed_sound(cleared, error);
                    },
                }
            },
            Either::Right(nested) => {
                let waiting = TaskModel::Arguments { scope, statement, callee, collected: gathered };
                lemma_pushed_sound(cleared, waiting);
                lemma_pushed_sound(cleared.push(waiting), statement_task(scope, nested));
            },
        }
    } else {
        lemma_invoked_sound(cleared, callee, gathered);
    }
}

/// The start of a statement keeps a sound evaluator sound.
pub proof fn lemma_statement_sound(m: EvaluatorModel, scope: usize, statement: ast::Statement)
    requires
        sound(m),
        scope < m.scopes.len(),
    ensures
        sound(statement_started(m, scope, statement).0),
{
    match statement {
        ast::Statement::Assignment { left, right } => {
            match right {
                Either::Left(expression) => {
                    lemma_evaluate_fits(m.scopes, scope as int, m.floats, expression);
                    match evaluate(m.scopes, scope as int, m.floats, expression) {
                        OutcomeModel::Value(value) => {
                            lemma_assigned_sound(m.produce(value), scope, statement);
                        },
                        OutcomeModel::Pending(request) => {
                            lemma_pushed_sound(m, TaskModel::Statement { scope, statement });
                        },
                        OutcomeModel::Failure(error) => {
                            lemma_failed_sound(m, error);
                        },
                    }
                },
                Either::Right(nested) => {
                    let waiting = TaskModel::Assign { scope, statement };
                    lemma_pushed_sound(m.clear(), waiting);
                    lemma_pushed_sound(m.clear().push(waiting), statement_task(scope, nested));
                },
            }
        },
        ast::Statement::FunctionDefinition { name, parameters, body } => {
            lemma_defined_sound(m, scope, name@, names_model(parameters@), body);
        },
        ast::Statement::FunctionCall { expression, .. } => {
            lemma_evaluate_fits(m.scopes, scope as int, m.floats, expression);
            match evaluate(m.scopes, scope as int, m.floats, expression) {
                OutcomeModel::Value(callee) => {
                    lemma_pushed_sound(
                        m.clear(),
                        TaskModel::Arguments { scope, statement, callee, collected: Seq::empty() },
                    );
                },
                OutcomeModel::Pending(request) => {
                    lemma_pushed_sound(m, TaskModel::Statement { scope, statement });
                },
                OutcomeModel::Failure(error) => {
                    lemma_failed_sound(m, error);
                },
            }
        },
        ast::Statement::If { condition, body, else_if, else_body } => {
            lemma_conditional_sound(m, scope, statement, condition, body, else_if@, else_body);
        },
        ast::Statement::While { condition, body } => {
            lemma_loop_sound(m.clear(), scope, statement, condition, body, undefined());
        },
        ast::Statement::ModuleDefinition { name, body } => {
            lemma_module_sound(m, scope, name@, body);
        },
        ast::Statement::Import { path, ident } => {
            lemma_pushed_sound(m.clear(), TaskModel::Import { scope, name: ident@, path: path@ });
        },
    }
}

/// A step of a block keeps a sound evaluator sound.
pub proof fn lemma_block_sound(
    m: EvaluatorModel,
    scope: usize,
    block: ast::Block,
    index: usize,
    terminal: bool,
)
    requires
        sound(m),
        scope < m.scopes.len(),
    ensures
        sound(block_step(m, scope, block, index, terminal).0),
{
    if index < block.0@.len() {
        let rest = TaskModel::Block { scope, block, index: (index + 1) as usize, terminal };
        lemma_pushed_sound(m.clear(), rest);
        lemma_pushed_sound(m.clear().push(rest), statement_task(scope, block.0@[index as int]));
    } else if terminal {
        match block.1 {
            ast::ReturnStatement::Return(expression) => {
                lemma_evaluate_fits(m.scopes, scope as int, m.floats, expression);
            },
            _ => {},
        }
        match terminal_outcome(m.scopes, scope as int, m.floats, block.1) {
            OutcomeModel::Value(value) => {},
            OutcomeModel::Pending(request) => {
                lemma_pushed_sound(m, TaskModel::Block { scope, block, index, terminal });
            },
            OutcomeModel::Failure(error) => {
                lemma_failed_sound(m, error);
            },
        }
    }
}

/// To take up a task that fits keeps a sound evaluator sound.
pub proof fn lemma_performed_sound(m: EvaluatorModel, task: TaskModel)
    requires
        sound(m),
        task_fits(task, m.scopes.len()),
    ensures
        sound(performed(m, task).0),
{
    match task {
        TaskModel::Statement { scope, statement } => {
            lemma_statement_sound(m, scope, statement);
        },
        TaskModel::Block { scope, block, index, terminal } => {
            lemma_block_sound(m, scope, block, index, terminal);
        },
        TaskModel::Assign { scope, statement } => {
            lemma_assigned_sound(m, scope, statement);
        },
        TaskModel::Arguments { scope, statement, callee, collected } => {
            lemma_arguments_sound(m, scope, statement, callee, collected);
        },
        TaskModel::Loop { scope, statement, last } => {
            match statement {
                ast::Statement::While { condition, body } => {
                    lemma_loop_sound(m, scope, statement, condition, body, last);
                },
                _ => {},
            }
        },
        TaskModel::Bind { scope, name, module, imported } => {
            lemma_written_sound(
                m,
                scope,
                name,
                ValueModel::Module(ModuleModel { name, scope: module }),
            );
        },
        TaskModel::Import { scope, name, path } => {
            lemma_pushed_sound(m.clear(), TaskModel::Import { scope, name, path });
        },
    }
}

/// A new evaluator is sound.
pub proof fn law_new_is_sound(pw: Seq<char>)
    ensures
        sound(
            EvaluatorModel {
                scopes: seq![global_scope()],
                pw,
                stack: Seq::empty(),
                value: None,
                floats: Seq::empty(),
                directories: Seq::empty(),
            },
        ),
{
    lemma_global_scope_fits(1);
    let scopes = seq![global_scope()];
    assert(scopes[0] == global_scope());
}

/// The bindings of the standard library hold no scope index.
pub proof fn lemma_global_scope_fits(count: nat)
    ensures
        variables_fit(global_scope().variables, count),
        global_scope().parent is None,
{
    reveal_with_fuel(written, 5);
    let library = standard_library();
    assert(library.len() == 4);
    assert forall|name: Seq<char>| #[trigger]
        global_scope().variables.contains_key(name) implies value_fits(
        global_scope().variables[name],
        count,
    ) by {
        assert(global_scope().variables[name] is InternalFunction);
    }
}

/// A step keeps a sound evaluator sound: after it, as before it, every
/// scope index that is held in a scope, on the stack or in the value
/// produced last names a scope, and every parent is a scope made earlier.
pub proof fn law_step_keeps_sound(m: EvaluatorModel)
    requires
        sound(m),
    ensures
        sound(step(m).0),
{
    if m.stack.len() > 0 {
        let rest = EvaluatorModel { stack: m.stack.drop_last(), ..m };
        assert(stack_fits(rest.stack, m.scopes.len())) by {
            assert forall|i: int| 0 <= i < rest.stack.len() implies task_fits(
                #[trigger] rest.stack[i],
                m.scopes.len(),
            ) by {
                assert(rest.stack[i] == m.stack[i]);
            }
        }
        assert(task_fits(m.stack[m.stack.len() - 1], m.scopes.len()));
        lemma_performed_sound(rest, m.stack.last());
    }
}

/// To submit a program keeps a sound evaluator sound.
pub proof fn law_submission_keeps_sound(m: EvaluatorModel, ast: ASTNode)
    requires
        sound(m),
    ensures
        sound(submitted(m, ast)),
{
    let after = submitted(m, ast);
    assert(after.stack[0] == block_task(0, ast->Block_0, 0, true));
}

/// To hand over the result of a native function keeps a sound evaluator
/// sound, where the result holds only scope indices that name scopes.
pub proof fn law_resume_keeps_sound(m: EvaluatorModel, value: ValueModel)
    requires
        sound(m),
        value_fits(value, m.scopes.len()),
    ensures
        sound(m.produce(value)),
{
}

/// To hand over an imported program, or the error of reading it, keeps a
/// sound evaluator sound.
pub proof fn law_import_keeps_sound(
    m: EvaluatorModel,
    program: Result<ASTNode, ErrorModel>,
    directory: Seq<char>,
)
    requires
        sound(m),
    ensures
        sound(import_resumed(m, program, directory).0),
{
    if m.stack.len() > 0 && m.stack.last() is Import {
        let scope = m.stack.last()->Import_scope;
        let name = m.stack.last()->Import_name;
        let rest = EvaluatorModel { stack: m.stack.drop_last(), value: None, ..m };
        assert(task_fits(m.stack[m.stack.len() - 1], m.scopes.len()));
        assert(stack_fits(rest.stack, m.scopes.len())) by {
            assert forall|i: int| 0 <= i < rest.stack.len() implies task_fits(
                #[trigger] rest.stack[i],
                m.scopes.len(),
            ) by {
                assert(rest.stack[i] == m.stack[i]);
            }
        }
        match program {
            Ok(ast) => {
                lemma_global_scope_fits(m.scopes.len() + 1);
                lemma_open_sound(m.scopes, global_scope());
                lemma_stack_fits_more(rest.stack, m.scopes.len(), m.scopes.len() + 1);
                let grown = EvaluatorModel {
                    scopes: rest.scopes.push(global_scope()),
                    directories: rest.directories.push((m.scopes.len() as usize, directory)),
                    ..rest
                };
                let binding = TaskModel::Bind {
                    scope,
                    name,
                    module: m.scopes.len() as usize,
                    imported: true,
                };
                lemma_pushed_sound(grown, binding);
                lemma_pushed_sound(
                    grown.push(binding),
                    block_task(m.scopes.len() as usize, ast->Block_0, 0, true),
                );
            },
            Err(error) => {
                lemma_failed_sound(rest, error);
            },
        }
    }
}

} // verus!
