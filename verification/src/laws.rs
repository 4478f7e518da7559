//! What holds of the engine, whatever the program.

use crate::action::ActionModel;
use crate::ast;
use crate::ast::{
    names_model, ASTNode, Expression, LogicExpression, MathExpression, MathOperation,
    ReturnStatement, Statement,
};
use crate::either::Either;
use crate::error::ErrorModel;
use crate::evaluator::{
    global_scope, import_resumed, performed, step, submitted, EvaluatorModel,
};
use crate::expression::{evaluate, evaluate_entries, placed, slot};
use crate::expression::math_expression::{integer_math, number};
use crate::expression::namespace_expression::{
    descend, member, namespace_outcome, no_properties_message,
};
use crate::function::{argument_at, bound};
use crate::number::{fits, Float, Rank};
use crate::order::{lemma_bytes_equal, lemma_bytes_flip, lemma_bytes_transitive, text_rank};
use crate::outcome::OutcomeModel;
use crate::request::FloatRequest;
use crate::scope::{
    assign, assign_all, bind_at, lookup, parent_of, root_of, target, well_formed, written,
    ScopeModel,
};
use crate::stdlib::standard_library;
use crate::statement::targets_of;
use crate::task::TaskModel;
use crate::value::{undefined, ModuleModel, Native, PrimitiveModel, ValueModel};
use std::rc::Rc;
use vstd::prelude::*;
use vstd::string::*;
use vstd::utf8::encode_utf8;

verus! {

/// The sum of two integer literals, as an expression.
pub open spec fn integer_sum(a: isize, b: isize) -> Expression {
    Expression::MathExpression(
        MathExpression::Operation {
            left: Box::new(Expression::Number(Either::Left(a))),
            operation: MathOperation::Add,
            right: Box::new(Expression::Number(Either::Left(b))),
        },
    )
}

/// The sum of two integers is the integer that is their mathematical sum,
/// wherever that sum fits the machine's integer.
pub proof fn law_integer_sum(
    scopes: Seq<ScopeModel>,
    scope: int,
    known: Seq<(FloatRequest, Float)>,
    a: isize,
    b: isize,
)
    requires
        fits(a + b),
    ensures
        evaluate(scopes, scope, known, integer_sum(a, b)) == OutcomeModel::Value(
            number(Either::Left((a + b) as isize)),
        ),
{
    reveal_with_fuel(evaluate, 3);
}

/// A math operation on two numbers one of which is a floating-point number
/// gives a floating-point number, whenever it gives a value.
pub proof fn law_float_operation(
    scopes: Seq<ScopeModel>,
    scope: int,
    known: Seq<(FloatRequest, Float)>,
    operation: MathOperation,
    a: Either<isize, Float>,
    b: Either<isize, Float>,
)
    requires
        a is Right || b is Right,
    ensures
        match evaluate(
            scopes,
            scope,
            known,
            Expression::MathExpression(
                MathExpression::Operation {
                    left: Box::new(Expression::Number(a)),
                    operation,
                    right: Box::new(Expression::Number(b)),
                },
            ),
        ) {
            OutcomeModel::Value(value) => value matches ValueModel::Variable(
                PrimitiveModel::Number(Either::Right(_)),
            ),
            OutcomeModel::Pending(request) => request == (FloatRequest {
                operation,
                left: a,
                right: b,
            }),
            OutcomeModel::Failure(_) => false,
        },
{
    reveal_with_fuel(evaluate, 3);
}

/// A math operation on two integers gives an integer, whenever it gives a
/// value: a number's kind changes only where an operand is of the other
/// kind.
pub proof fn law_integer_operation(
    scopes: Seq<ScopeModel>,
    scope: int,
    known: Seq<(FloatRequest, Float)>,
    operation: MathOperation,
    a: isize,
    b: isize,
)
    ensures
        match evaluate(
            scopes,
            scope,
            known,
            Expression::MathExpression(
                MathExpression::Operation {
                    left: Box::new(Expression::Number(Either::Left(a))),
                    operation,
                    right: Box::new(Expression::Number(Either::Left(b))),
                },
            ),
        ) {
            OutcomeModel::Value(value) => integer_math(operation, a, b) is Some && value == number(
                Either::Left(integer_math(operation, a, b)->0),
            ),
            OutcomeModel::Pending(_) => false,
            OutcomeModel::Failure(_) => integer_math(operation, a, b) is None,
        },
{
    reveal_with_fuel(evaluate, 3);
}

/// `and` and `or` do not cut their evaluation short: where the left
/// operand has a value, whichever it is, and the right operand has none,
/// the outcome of the whole is the outcome of the right operand.
pub proof fn law_no_short_circuit(
    scopes: Seq<ScopeModel>,
    scope: int,
    known: Seq<(FloatRequest, Float)>,
    left: Expression,
    right: Expression,
)
    requires
        evaluate(scopes, scope, known, left) is Value,
        !(evaluate(scopes, scope, known, right) is Value),
    ensures
        evaluate(
            scopes,
            scope,
            known,
            Expression::LogicExpression(
                LogicExpression::And { left: Box::new(left), right: Box::new(right) },
            ),
        ) == evaluate(scopes, scope, known, right),
        evaluate(
            scopes,
            scope,
            known,
            Expression::LogicExpression(
                LogicExpression::Or { left: Box::new(left), right: Box::new(right) },
            ),
        ) == evaluate(scopes, scope, known, right),
{
    reveal_with_fuel(evaluate, 2);
}

/// Whether the keys of a list of entries ascend: each comes before all
/// that follow it.
pub open spec fn keys_ascend(entries: Seq<(Seq<char>, ValueModel)>) -> bool {
    forall|i: int, j: int|
        0 <= i < j < entries.len() ==> text_rank(
            (#[trigger] entries[i]).0,
            (#[trigger] entries[j]).0,
        ) == Rank::Less
}

/// The slot for a key lies behind the entries whose keys come before the
/// key and at the first entry whose key does not.
pub proof fn lemma_slot(entries: Seq<(Seq<char>, ValueModel)>, key: Seq<char>, from: int)
    requires
        0 <= from <= entries.len(),
    ensures
        from <= slot(entries, key, from) <= entries.len(),
        forall|i: int|
            from <= i < slot(entries, key, from) ==> text_rank((#[trigger] entries[i]).0, key)
                == Rank::Less,
        slot(entries, key, from) < entries.len() ==> text_rank(
            entries[slot(entries, key, from)].0,
            key,
        ) != Rank::Less,
    decreases entries.len() - from,
{
    if from < entries.len() && text_rank(entries[from].0, key) == Rank::Less {
        lemma_slot(entries, key, from + 1);
    }
}

/// To give a key of an object a value keeps the keys in ascending order.
pub proof fn law_placed_keeps_order(
    entries: Seq<(Seq<char>, ValueModel)>,
    key: Seq<char>,
    value: ValueModel,
)
    requires
        keys_ascend(entries),
    ensures
        keys_ascend(placed(entries, key, value)),
{
    let at = slot(entries, key, 0);
    let after = placed(entries, key, value);
    let k = encode_utf8(key);
    lemma_slot(entries, key, 0);
    if at < entries.len() && text_rank(entries[at].0, key) == Rank::Equal {
        lemma_bytes_equal(encode_utf8(entries[at].0), k, 0);
        assert(encode_utf8(entries[at].0) =~= k);
        assert forall|i: int, j: int| 0 <= i < j < after.len() implies text_rank(
            (#[trigger] after[i]).0,
            (#[trigger] after[j]).0,
        ) == Rank::Less by {
            if i == at {
                assert(text_rank(entries[at].0, entries[j].0) == Rank::Less);
            } else if j == at {
                assert(text_rank(entries[i].0, key) == Rank::Less);
            } else {
                assert(text_rank(entries[i].0, entries[j].0) == Rank::Less);
            }
        }
    } else {
        assert forall|i: int, j: int| 0 <= i < j < after.len() implies text_rank(
            (#[trigger] after[i]).0,
            (#[trigger] after[j]).0,
        ) == Rank::Less by {
            if j < at {
                assert(text_rank(entries[i].0, entries[j].0) == Rank::Less);
            } else if j == at {
                assert(text_rank(entries[i].0, key) == Rank::Less);
            } else if i == at {
                // the entry that stood at the slot comes after the key
                lemma_bytes_flip(encode_utf8(entries[at].0), k, 0);
                assert(text_rank(key, entries[at].0) == Rank::Less);
                if j - 1 > at {
                    assert(text_rank(entries[at].0, entries[j - 1].0) == Rank::Less);
                    lemma_bytes_transitive(
                        k,
                        encode_utf8(entries[at].0),
                        encode_utf8(entries[j - 1].0),
                        0,
                    );
                }
            } else if i < at {
                assert(text_rank(entries[i].0, entries[j - 1].0) == Rank::Less);
            } else {
                assert(text_rank(entries[i - 1].0, entries[j - 1].0) == Rank::Less);
            }
        }
    }
}

/// The entries of the object that an object literal evaluates to stand in
/// the ascending order of their keys, whatever the order of the literal's
/// entries, and no key stands twice.
pub proof fn law_object_keys_ascend(
    scopes: Seq<ScopeModel>,
    scope: int,
    known: Seq<(FloatRequest, Float)>,
    entries: Seq<(String, Expression)>,
    count: int,
)
    ensures
        evaluate_entries(scopes, scope, known, entries, count) matches OutcomeModel::Value(
            ValueModel::Variable(PrimitiveModel::Object(values)),
        ) ==> keys_ascend(values),
    decreases count,
{
    if 0 < count <= entries.len() {
        law_object_keys_ascend(scopes, scope, known, entries, count - 1);
        match evaluate_entries(scopes, scope, known, entries, count - 1) {
            OutcomeModel::Value(ValueModel::Variable(PrimitiveModel::Object(values))) => {
                match evaluate(scopes, scope, known, entries[count - 1].1) {
                    OutcomeModel::Value(value) => {
                        law_placed_keeps_order(values, entries[count - 1].0@, value);
                    },
                    _ => {},
                }
            },
            _ => {},
        }
    }
}

/// The parent of a scope is a scope made earlier: no chain of parents
/// comes back to where it began.
pub proof fn law_parent_is_earlier(scopes: Seq<ScopeModel>, scope: int)
    ensures
        parent_of(scopes, scope) matches Some(parent) ==> 0 <= parent < scope,
{
}

/// What was assigned to a name last is what the name is bound to, seen
/// from the scope of the assignment.
pub proof fn law_last_write_wins(
    scopes: Seq<ScopeModel>,
    scope: int,
    name: Seq<char>,
    value: ValueModel,
)
    requires
        0 <= scope < scopes.len(),
    ensures
        lookup(assign(scopes, scope, name, value), scope, name) == Some(value),
{
    let after = assign(scopes, scope, name, value);
    let at = target(scopes, scope, name);
    assert(after[at].variables.contains_key(name));
    assert(after[at].variables[name] == value);
    assert(lookup(after, at, name) == Some(value));
    if at != scope {
        assert(parent_of(after, scope) == Some(at));
        assert(!after[scope].variables.contains_key(name));
    }
}

/// An assignment writes one scope, the scope of the assignment or its
/// parent, and leaves every other scope as it was. It changes no parent
/// link and no other name.
pub proof fn law_assign_is_local(
    scopes: Seq<ScopeModel>,
    scope: int,
    name: Seq<char>,
    value: ValueModel,
    other: int,
    another: Seq<char>,
)
    requires
        0 <= scope < scopes.len(),
        0 <= other < scopes.len(),
    ensures
        assign(scopes, scope, name, value).len() == scopes.len(),
        target(scopes, scope, name) == scope || Some(target(scopes, scope, name)) == parent_of(
            scopes,
            scope,
        ),
        other != target(scopes, scope, name) ==> assign(scopes, scope, name, value)[other]
            == scopes[other],
        assign(scopes, scope, name, value)[other].parent == scopes[other].parent,
        another != name ==> assign(scopes, scope, name, value)[other].variables.contains_key(
            another,
        ) == scopes[other].variables.contains_key(another),
        another != name && scopes[other].variables.contains_key(another) ==> assign(
            scopes,
            scope,
            name,
            value,
        )[other].variables[another] == scopes[other].variables[another],
{
}

/// An assignment keeps the scopes well formed.
pub proof fn law_assign_keeps_well_formed(
    scopes: Seq<ScopeModel>,
    scope: int,
    name: Seq<char>,
    value: ValueModel,
)
    requires
        well_formed(scopes),
    ensures
        well_formed(assign(scopes, scope, name, value)),
{
    let after = assign(scopes, scope, name, value);
    assert forall|i: int| 0 <= i < after.len() implies match (#[trigger] after[i]).parent {
        Some(parent) => parent < i,
        None => true,
    } by {
        assert(after[i].parent == scopes[i].parent);
    }
}

/// An assignment from a child scope to a name that the child does not bind
/// and its parent binds writes the parent's binding: the new value is
/// seen from the parent, and the child itself is as it was.
pub proof fn law_assign_writes_enclosing(
    scopes: Seq<ScopeModel>,
    child: int,
    parent: int,
    name: Seq<char>,
    value: ValueModel,
)
    requires
        parent_of(scopes, child) == Some(parent),
        !scopes[child].variables.contains_key(name),
        scopes[parent].variables.contains_key(name),
    ensures
        lookup(assign(scopes, child, name, value), parent, name) == Some(value),
        lookup(assign(scopes, child, name, value), child, name) == Some(value),
        assign(scopes, child, name, value)[child] == scopes[child],
{
    let after = assign(scopes, child, name, value);
    assert(parent_of(after, child) == Some(parent));
}

/// An assignment from a child scope to a name that no scope of its chain
/// binds makes a binding in the child alone: the name is bound seen from
/// the child, and is still bound nowhere seen from the parent.
pub proof fn law_assign_new_is_local(
    scopes: Seq<ScopeModel>,
    child: int,
    parent: int,
    name: Seq<char>,
    value: ValueModel,
)
    requires
        parent_of(scopes, child) == Some(parent),
        lookup(scopes, child, name) is None,
    ensures
        lookup(assign(scopes, child, name, value), child, name) == Some(value),
        lookup(assign(scopes, child, name, value), parent, name) is None,
        forall|other: int|
            0 <= other < scopes.len() && other != child ==> assign(scopes, child, name, value)[other]
                == scopes[other],
{
    let after = assign(scopes, child, name, value);
    assert(!scopes[child].variables.contains_key(name));
    assert(lookup(scopes, parent, name) is None);
    lemma_lookup_below(scopes, after, parent, child, name);
}

/// What a name is bound to, seen from a scope, depends on the scopes up to
/// that scope alone.
pub proof fn lemma_lookup_below(
    before: Seq<ScopeModel>,
    after: Seq<ScopeModel>,
    scope: int,
    changed: int,
    name: Seq<char>,
)
    requires
        before.len() == after.len(),
        scope < changed,
        forall|i: int| 0 <= i < before.len() && i != changed ==> before[i] == after[i],
    ensures
        lookup(after, scope, name) == lookup(before, scope, name),
    decreases scope,
{
    if 0 <= scope < before.len() {
        if !before[scope].variables.contains_key(name) {
            match parent_of(before, scope) {
                Some(parent) => {
                    lemma_lookup_below(before, after, parent, changed, name);
                },
                None => {},
            }
        }
    }
}

/// A member of a module is what the module's own scope binds the name to.
pub proof fn law_module_member(
    scopes: Seq<ScopeModel>,
    scope: int,
    module: Seq<char>,
    name: Seq<char>,
    found: ModuleModel,
)
    requires
        lookup(scopes, scope, module) == Some(ValueModel::Module(found)),
        found.scope < scopes.len(),
    ensures
        scopes[found.scope as int].variables.contains_key(name) ==> namespace_outcome(
            scopes,
            scope,
            seq![module, name],
        ) == OutcomeModel::Value(scopes[found.scope as int].variables[name]),
        !scopes[found.scope as int].variables.contains_key(name) ==> namespace_outcome(
            scopes,
            scope,
            seq![module, name],
        ) == OutcomeModel::Value(undefined()),
{
    let path = seq![module, name];
    let first = ValueModel::Module(found);
    assert(path[0] == module);
    assert(path[1] == name);
    assert(descend(scopes, first, path, 1) == descend(
        scopes,
        member(scopes, first, name),
        path,
        2,
    ));
    assert(descend(scopes, member(scopes, first, name), path, 2) == member(scopes, first, name));
}

/// A path whose first name is bound nowhere is a reference error.
pub proof fn law_unbound_path(scopes: Seq<ScopeModel>, scope: int, path: Seq<Seq<char>>)
    requires
        path.len() > 0,
        lookup(scopes, scope, path[0]) is None,
    ensures
        namespace_outcome(scopes, scope, path) == OutcomeModel::Failure(
            ErrorModel::reference(no_properties_message(path[0])),
        ),
{
}

/// The global scope of a new evaluator binds each native function under
/// its name.
pub proof fn law_standard_library()
    ensures
        lookup(seq![global_scope()], 0, "printl"@) == Some(
            ValueModel::InternalFunction(Native::Printl),
        ),
        lookup(seq![global_scope()], 0, "print"@) == Some(
            ValueModel::InternalFunction(Native::Print),
        ),
        lookup(seq![global_scope()], 0, "input"@) == Some(
            ValueModel::InternalFunction(Native::Input),
        ),
        lookup(seq![global_scope()], 0, "inspect"@) == Some(
            ValueModel::InternalFunction(Native::Inspect),
        ),
{
    reveal_strlit("printl");
    reveal_strlit("print");
    reveal_strlit("input");
    reveal_strlit("inspect");
    reveal_with_fuel(written, 5);
    let library = standard_library();
    assert(library.len() == 4);
    assert("print"@[0] == 'p');
    assert("input"@[0] == 'i');
    assert("printl"@.len() == 6);
    assert("print"@.len() == 5);
    assert("inspect"@.len() == 7);
    let scopes = seq![global_scope()];
    assert(scopes[0] == global_scope());
}

/// To submit a program changes no scope: what earlier programs have bound
/// is there for the next.
pub proof fn law_submission_keeps_scopes(m: EvaluatorModel, ast: ASTNode)
    ensures
        submitted(m, ast).scopes == m.scopes,
{
}

/// To assign one value to several names changes the number of scopes as
/// little as one assignment does, and no parent link.
pub proof fn lemma_assign_all_keeps_shape(
    scopes: Seq<ScopeModel>,
    scope: int,
    names: Seq<Seq<char>>,
    from: int,
    value: ValueModel,
)
    ensures
        same_shape(scopes, assign_all(scopes, scope, names, from, value)),
    decreases names.len() - from,
{
    if 0 <= from < names.len() {
        lemma_assign_all_keeps_shape(
            assign(scopes, scope, names[from], value),
            scope,
            names,
            from + 1,
            value,
        );
    }
}

/// To bind the arguments of a call changes the number of scopes as little
/// as one assignment does, and no parent link.
pub proof fn lemma_bound_keeps_shape(
    scopes: Seq<ScopeModel>,
    frame: int,
    parameters: Seq<Seq<char>>,
    arguments: Seq<ValueModel>,
    from: int,
)
    ensures
        same_shape(scopes, bound(scopes, frame, parameters, arguments, from)),
    decreases parameters.len() - from,
{
    if 0 <= from < parameters.len() {
        lemma_bound_keeps_shape(
            bind_at(scopes, frame, parameters[from], argument_at(arguments, from)),
            frame,
            parameters,
            arguments,
            from + 1,
        );
    }
}

/// Whether the scopes of `before` are all among those of `after`, at their
/// old indices, with their old names and parents.
pub open spec fn same_shape(before: Seq<ScopeModel>, after: Seq<ScopeModel>) -> bool {
    &&& before.len() <= after.len()
    &&& forall|i: int|
        0 <= i < before.len() ==> (#[trigger] after[i]).parent == before[i].parent && after[i].name
            == before[i].name
}

/// No step takes a scope away, renames it or gives it another parent: a
/// scope, once made, stays where it is for the whole run, and an index
/// names the same scope for as long as the evaluator lives.
pub proof fn law_scopes_stay(m: EvaluatorModel)
    ensures
        same_shape(m.scopes, step(m).0.scopes),
{
    if m.stack.len() > 0 {
        let rest = EvaluatorModel { stack: m.stack.drop_last(), ..m };
        lemma_performed_keeps_shape(rest, m.stack.last());
    }
}

/// To take up a task takes no scope away and changes no parent link.
pub proof fn lemma_performed_keeps_shape(m: EvaluatorModel, task: TaskModel)
    ensures
        same_shape(m.scopes, performed(m, task).0.scopes),
{
    match task {
        TaskModel::Statement { scope, statement } => {
            lemma_assign_all_keeps_shape(
                m.scopes,
                scope as int,
                targets_of(statement),
                0,
                evaluate(
                    m.scopes,
                    scope as int,
                    m.floats,
                    statement->Assignment_right->Left_0,
                )->Value_0,
            );
        },
        TaskModel::Assign { scope, statement } => {
            lemma_assign_all_keeps_shape(
                m.scopes,
                scope as int,
                targets_of(statement),
                0,
                m.produced(),
            );
        },
        TaskModel::Arguments { scope, statement, callee, collected } => {
            let collected = match m.value {
                Some(value) => collected.push(value),
                None => collected,
            };
            if callee is Function {
                let function = callee->Function_0;
                lemma_bound_keeps_shape(
                    m.scopes,
                    function.body.scope as int,
                    function.expected_parameters,
                    collected,
                    0,
                );
            }
        },
        _ => {},
    }
}

/// A call binds its arguments in the function's own scope and in no
/// other: every other scope, the scope of the definition among them, is
/// as it was, whatever names it binds.
pub proof fn law_arguments_stay_in_frame(
    scopes: Seq<ScopeModel>,
    frame: int,
    parameters: Seq<Seq<char>>,
    arguments: Seq<ValueModel>,
    from: int,
    other: int,
)
    requires
        0 <= other < scopes.len(),
        other != frame,
    ensures
        bound(scopes, frame, parameters, arguments, from).len() == scopes.len(),
        bound(scopes, frame, parameters, arguments, from)[other] == scopes[other],
    decreases parameters.len() - from,
{
    if 0 <= from < parameters.len() {
        law_arguments_stay_in_frame(
            bind_at(scopes, frame, parameters[from], argument_at(arguments, from)),
            frame,
            parameters,
            arguments,
            from + 1,
            other,
        );
    }
}

/// Seen from the function's own scope, a parameter is bound to its
/// argument after the arguments were bound; to undefined where the
/// arguments end before it. Where a name stands twice among the
/// parameters, the later one counts.
pub proof fn law_parameter_is_bound(
    scopes: Seq<ScopeModel>,
    frame: int,
    parameters: Seq<Seq<char>>,
    arguments: Seq<ValueModel>,
    from: int,
    at: int,
)
    requires
        0 <= frame < scopes.len(),
        0 <= from <= at < parameters.len(),
        forall|later: int| at < later < parameters.len() ==> parameters[later] != parameters[at],
    ensures
        lookup(bound(scopes, frame, parameters, arguments, from), frame, parameters[at]) == Some(
            argument_at(arguments, at),
        ),
    decreases parameters.len() - from,
{
    let next = bind_at(scopes, frame, parameters[from], argument_at(arguments, from));
    if from < at {
        law_parameter_is_bound(next, frame, parameters, arguments, from + 1, at);
    } else {
        lemma_bound_keeps_binding(next, frame, parameters, arguments, from + 1, parameters[at]);
    }
}

/// To bind parameters of other names leaves the binding of a name in the
/// function's own scope as it was.
pub proof fn lemma_bound_keeps_binding(
    scopes: Seq<ScopeModel>,
    frame: int,
    parameters: Seq<Seq<char>>,
    arguments: Seq<ValueModel>,
    from: int,
    name: Seq<char>,
)
    requires
        0 <= frame < scopes.len(),
        0 <= from,
        scopes[frame].variables.contains_key(name),
        forall|later: int| from <= later < parameters.len() ==> parameters[later] != name,
    ensures
        lookup(bound(scopes, frame, parameters, arguments, from), frame, name) == Some(
            scopes[frame].variables[name],
        ),
    decreases parameters.len() - from,
{
    if from < parameters.len() {
        lemma_bound_keeps_binding(
            bind_at(scopes, frame, parameters[from], argument_at(arguments, from)),
            frame,
            parameters,
            arguments,
            from + 1,
            name,
        );
    }
}

/// The evaluator after a number of steps.
pub open spec fn after_steps(m: EvaluatorModel, count: nat) -> EvaluatorModel
    decreases count,
{
    if count == 0 {
        m
    } else {
        after_steps(step(m).0, (count - 1) as nat)
    }
}

/// No number of steps takes a scope away, renames it or gives it another
/// parent.
pub proof fn law_steps_keep_scopes(m: EvaluatorModel, count: nat)
    ensures
        same_shape(m.scopes, after_steps(m, count).scopes),
    decreases count,
{
    if count > 0 {
        law_scopes_stay(m);
        law_steps_keep_scopes(step(m).0, (count - 1) as nat);
    }
}

/// To hand over an imported program takes no scope away, renames none and
/// gives none another parent: the scope that is made for the program is
/// one more, so that two imports, of one file or of two, never run in the
/// same scope.
pub proof fn law_import_keeps_scopes(
    m: EvaluatorModel,
    program: Result<ASTNode, ErrorModel>,
    directory: Seq<char>,
)
    ensures
        same_shape(m.scopes, import_resumed(m, program, directory).0.scopes),
{
}

/// What a program binds in the global scope is bound for the programs
/// submitted after it.
///
/// A first program assigns an integer to a name and ends; a second program,
/// submitted when the first has finished, returns what the name is bound
/// to. The run of the second finishes with that integer.
pub proof fn law_later_submission_sees_binding(
    m: EvaluatorModel,
    first: ast::Block,
    second: ast::Block,
    name: Seq<char>,
    value: isize,
)
    requires
        m.scopes.len() > 0,
        first.0@.len() == 1,
        *first.0@[0] matches Statement::Assignment { left, right } && names_model(left@)
            == seq![name] && right == Either::<Expression, Rc<Statement>>::Left(
            Expression::Number(Either::Left(value)),
        ),
        first.1 matches ReturnStatement::Return(returned) && returned == Expression::Undefined,
        second.0@.len() == 0,
        second.1 matches ReturnStatement::Return(returned) && returned matches Expression::Identifier(
            identifier,
        ) && identifier@ == name,
    ensures
        ({
            let started = submitted(m, ASTNode::Block(Rc::new(first)));
            let finished = after_steps(started, 3);
            let again = submitted(step(finished).0, ASTNode::Block(Rc::new(second)));
            &&& step(finished).1 == ActionModel::Finished(Ok(undefined()))
            &&& lookup(step(finished).0.scopes, 0, name) == Some(number(Either::Left(value)))
            &&& step(after_steps(again, 1)).1 == ActionModel::Finished(
                Ok(number(Either::Left(value))),
            )
        }),
{
    let started = submitted(m, ASTNode::Block(Rc::new(first)));
    let statement = *first.0@[0];
    let targets = targets_of(statement);
    assert(targets == seq![name]);
    // the block takes up its statement
    let one = step(started).0;
    assert(started.stack.drop_last() =~= Seq::empty());
    assert(one.stack =~= seq![
        TaskModel::Block { scope: 0, block: first, index: 1, terminal: true },
        TaskModel::Statement { scope: 0, statement },
    ]);
    assert(one.scopes == m.scopes);
    // the statement assigns
    let two = step(one).0;
    let literal = number(Either::Left(value));
    assert(one.stack.drop_last() =~= seq![
        TaskModel::Block { scope: 0, block: first, index: 1, terminal: true },
    ]);
    assert(one.stack.last() == (TaskModel::Statement { scope: 0, statement }));
    assert(assign_all(m.scopes, 0, targets, 0, literal) == assign(m.scopes, 0, name, literal)) by {
        reveal_with_fuel(assign_all, 3);
    }
    assert(two.scopes == assign(m.scopes, 0, name, literal));
    assert(two.stack == one.stack.drop_last());
    // the block comes to its terminal
    let three = step(two).0;
    assert(two.stack.drop_last() =~= Seq::empty());
    assert(three.stack =~= Seq::empty());
    assert(three.scopes == two.scopes);
    assert(three.value == Some(undefined()));
    assert(after_steps(started, 3) == three) by {
        reveal_with_fuel(after_steps, 4);
    }
    law_last_write_wins(m.scopes, 0, name, literal);
    // the second program
    let idle = step(three).0;
    assert(idle.scopes == three.scopes);
    let again = submitted(idle, ASTNode::Block(Rc::new(second)));
    assert(again.stack.drop_last() =~= Seq::empty());
    let answered = step(again).0;
    assert(answered.stack =~= Seq::empty());
    assert(answered.value == Some(literal));
    assert(after_steps(again, 1) == answered) by {
        reveal_with_fuel(after_steps, 2);
    }
}

/// Whether a statement assigns an integer literal to one name.
pub open spec fn assigns_literal(statement: Statement, name: Seq<char>, value: isize) -> bool {
    statement matches Statement::Assignment { left, right } && names_model(left@) == seq![name]
        && right == Either::<Expression, Rc<Statement>>::Left(
        Expression::Number(Either::Left(value)),
    )
}

/// Whether a block returns undefined.
pub open spec fn returns_undefined(block: ast::Block) -> bool {
    block.1 matches ReturnStatement::Return(returned) && returned == Expression::Undefined
}

/// Whether a statement is a conditional whose condition is the literal
/// `true` and whose block assigns an integer literal to one name, then
/// another to another name, and returns undefined.
pub open spec fn assigns_both(
    statement: Statement,
    outer: Seq<char>,
    first: isize,
    inner: Seq<char>,
    second: isize,
) -> bool {
    match statement {
        Statement::If { condition, body, .. } => {
            &&& condition == Expression::Boolean(true)
            &&& body.0@.len() == 2
            &&& assigns_literal(*body.0@[0], outer, first)
            &&& assigns_literal(*body.0@[1], inner, second)
            &&& returns_undefined(*body)
        },
        _ => false,
    }
}

/// The step of an assignment of an integer literal to one name: the
/// assignment is made from the scope of the statement, and the literal is
/// the value produced.
pub proof fn lemma_literal_assignment(
    m: EvaluatorModel,
    scope: usize,
    statement: Statement,
    name: Seq<char>,
    value: isize,
)
    requires
        m.stack.len() > 0,
        m.stack.last() == (TaskModel::Statement { scope, statement }),
        assigns_literal(statement, name, value),
    ensures
        step(m) == (
            EvaluatorModel {
                scopes: assign(m.scopes, scope as int, name, number(Either::Left(value))),
                stack: m.stack.drop_last(),
                value: Some(number(Either::Left(value))),
                floats: Seq::empty(),
                ..m
            },
            ActionModel::Continue,
        ),
{
    let literal = number(Either::Left(value));
    let targets = targets_of(statement);
    assert(targets == seq![name]);
    assert(assign_all(m.scopes, scope as int, targets, 0, literal) == assign(
        m.scopes,
        scope as int,
        name,
        literal,
    )) by {
        reveal_with_fuel(assign_all, 3);
    }
}

/// The step of a block that has statements left: the next statement is on
/// top of the stack, and the rest of the block below it.
pub proof fn lemma_block_goes_on(
    m: EvaluatorModel,
    scope: usize,
    block: ast::Block,
    index: usize,
    terminal: bool,
)
    requires
        m.stack.len() > 0,
        m.stack.last() == (TaskModel::Block { scope, block, index, terminal }),
        index < block.0@.len(),
    ensures
        step(m) == (
            EvaluatorModel {
                stack: m.stack.drop_last().push(
                    TaskModel::Block { scope, block, index: (index + 1) as usize, terminal },
                ).push(TaskModel::Statement { scope, statement: *block.0@[index as int] }),
                value: None,
                floats: Seq::empty(),
                ..m
            },
            ActionModel::Continue,
        ),
{
}

/// The step of a block that has no statement left and returns undefined:
/// the block is done, and undefined is the value produced.
pub proof fn lemma_block_ends(m: EvaluatorModel, scope: usize, block: ast::Block, index: usize)
    requires
        m.stack.len() > 0,
        m.stack.last() == (TaskModel::Block { scope, block, index, terminal: true }),
        index >= block.0@.len(),
        returns_undefined(block),
    ensures
        step(m) == (
            EvaluatorModel {
                stack: m.stack.drop_last(),
                value: Some(undefined()),
                floats: Seq::empty(),
                ..m
            },
            ActionModel::Continue,
        ),
{
}

/// `break` and `continue` leave no loop and skip nothing: the step of a
/// block that ends with one of them takes the block alone from the stack
/// and produces undefined. A loop whose body the block is stays on the
/// stack, and its next turn tests its condition as after any other body.
pub proof fn law_break_is_inert(m: EvaluatorModel, scope: usize, block: ast::Block, index: usize)
    requires
        m.stack.len() > 0,
        m.stack.last() == (TaskModel::Block { scope, block, index, terminal: true }),
        index >= block.0@.len(),
        block.1 is Break || block.1 is Continue,
    ensures
        step(m) == (
            EvaluatorModel {
                stack: m.stack.drop_last(),
                value: Some(undefined()),
                floats: Seq::empty(),
                ..m
            },
            ActionModel::Continue,
        ),
{
}

/// The step of a conditional whose condition is the literal `true`: a
/// scope is made for the block, under the scope of the statement, and the
/// block is on top of the stack.
pub proof fn lemma_conditional_enters(m: EvaluatorModel, scope: usize, statement: Statement)
    requires
        m.stack.len() > 0,
        m.stack.last() == (TaskModel::Statement { scope, statement }),
        statement matches Statement::If { condition, .. } && condition == Expression::Boolean(true),
    ensures
        step(m) == (
            EvaluatorModel {
                scopes: m.scopes.push(ScopeModel::empty("if"@, Some(scope))),
                stack: m.stack.drop_last().push(
                    TaskModel::Block {
                        scope: m.scopes.len() as usize,
                        block: *statement->If_body,
                        index: 0,
                        terminal: true,
                    },
                ),
                value: None,
                floats: Seq::empty(),
                ..m
            },
            ActionModel::Continue,
        ),
{
}

/// The scopes after a scope was made under `scope` and, from the new
/// scope, `outer` and then `inner` were assigned to.
pub open spec fn scoped(
    scopes: Seq<ScopeModel>,
    scope: usize,
    outer: Seq<char>,
    first: ValueModel,
    inner: Seq<char>,
    second: ValueModel,
) -> Seq<ScopeModel> {
    assign(
        assign(
            scopes.push(ScopeModel::empty("if"@, Some(scope))),
            scopes.len() as int,
            outer,
            first,
        ),
        scopes.len() as int,
        inner,
        second,
    )
}

/// Of two assignments from a new child scope, the one to a name that the
/// enclosing scope binds writes the enclosing binding, and the one to a
/// name that is bound nowhere makes a binding of the child alone.
pub proof fn lemma_scoped(
    scopes: Seq<ScopeModel>,
    scope: usize,
    outer: Seq<char>,
    first: ValueModel,
    inner: Seq<char>,
    second: ValueModel,
)
    requires
        scope < scopes.len(),
        scopes[scope as int].variables.contains_key(outer),
        lookup(scopes, scope as int, inner) is None,
    ensures
        ({
            let after = scoped(scopes, scope, outer, first, inner, second);
            &&& after.len() == scopes.len() + 1
            &&& lookup(after, scope as int, outer) == Some(first)
            &&& lookup(after, scope as int, inner) is None
            &&& after[scopes.len() as int].parent == Some(scope)
            &&& lookup(after, scopes.len() as int, inner) == Some(second)
        }),
{
    let inside = scopes.len() as int;
    let opened = scopes.push(ScopeModel::empty("if"@, Some(scope)));
    let written = assign(opened, inside, outer, first);
    let after = assign(written, inside, inner, second);
    assert(parent_of(opened, inside) == Some(scope as int));
    assert(target(opened, inside, outer) == scope);
    assert(parent_of(written, inside) == Some(scope as int));
    assert(!scopes[scope as int].variables.contains_key(inner));
    assert(outer != inner);
    assert(target(written, inside, inner) == inside);
    lemma_lookup_prefix(scopes, opened, scope as int, inner);
    assert forall|i: int| 0 <= i < opened.len() implies (#[trigger] written[i]).parent
        == opened[i].parent && written[i].variables.remove(outer) == opened[i].variables.remove(
        outer,
    ) by {
        assert(written[i].variables.remove(outer) =~= opened[i].variables.remove(outer));
    }
    lemma_lookup_but(opened, written, scope as int, inner, outer);
    lemma_lookup_below(written, after, scope as int, inside, inner);
}

/// An assignment made in the block of a conditional writes the binding of
/// the enclosing scope where that scope binds the name, and makes a
/// binding of the block's own where no scope of the chain binds the name.
///
/// A conditional whose condition holds is about to run in a scope that
/// binds `outer` and from which `inner` is bound nowhere. Its block assigns
/// an integer to `outer` and another to `inner`. Six steps later the
/// conditional is done: seen from the enclosing scope, `outer` is bound to
/// the integer that the block has assigned to it, and `inner` is still
/// bound nowhere; the block's binding of `inner` lies in the scope that was
/// made for the block.
pub proof fn law_conditional_scoping(
    m: EvaluatorModel,
    scope: usize,
    statement: Statement,
    outer: Seq<char>,
    first: isize,
    inner: Seq<char>,
    second: isize,
)
    requires
        m.stack.len() > 0,
        m.stack.last() == (TaskModel::Statement { scope, statement }),
        scope < m.scopes.len() < usize::MAX,
        m.scopes[scope as int].variables.contains_key(outer),
        lookup(m.scopes, scope as int, inner) is None,
        assigns_both(statement, outer, first, inner, second),
    ensures
        ({
            let done = after_steps(m, 6);
            &&& done.stack == m.stack.drop_last()
            &&& done.value == Some(undefined())
            &&& done.scopes.len() == m.scopes.len() + 1
            &&& lookup(done.scopes, scope as int, outer) == Some(number(Either::Left(first)))
            &&& lookup(done.scopes, scope as int, inner) is None
            &&& done.scopes[m.scopes.len() as int].parent == Some(scope)
            &&& lookup(done.scopes, m.scopes.len() as int, inner) == Some(
                number(Either::Left(second)),
            )
        }),
{
    lemma_conditional_steps(m, scope, statement, outer, first, inner, second);
    lemma_scoped(
        m.scopes,
        scope,
        outer,
        number(Either::Left(first)),
        inner,
        number(Either::Left(second)),
    );
}

/// The six steps of a conditional whose block makes two assignments.
pub proof fn lemma_conditional_steps(
    m: EvaluatorModel,
    scope: usize,
    statement: Statement,
    outer: Seq<char>,
    first: isize,
    inner: Seq<char>,
    second: isize,
)
    requires
        m.stack.len() > 0,
        m.stack.last() == (TaskModel::Statement { scope, statement }),
        m.scopes.len() < usize::MAX,
        assigns_both(statement, outer, first, inner, second),
    ensures
        after_steps(m, 6) == (EvaluatorModel {
            scopes: scoped(
                m.scopes,
                scope,
                outer,
                number(Either::Left(first)),
                inner,
                number(Either::Left(second)),
            ),
            stack: m.stack.drop_last(),
            value: Some(undefined()),
            floats: Seq::empty(),
            ..m
        }),
{
    let body = *statement->If_body;
    let rest = m.stack.drop_last();
    let inside = m.scopes.len() as usize;
    let opened = m.scopes.push(ScopeModel::empty("if"@, Some(scope)));
    let written = assign(opened, inside as int, outer, number(Either::Left(first)));
    let shadowed = assign(written, inside as int, inner, number(Either::Left(second)));
    let idle = EvaluatorModel { stack: rest, value: None, floats: Seq::empty(), ..m };
    let at = |index: usize| TaskModel::Block { scope: inside, block: body, index, terminal: true };
    // the conditional makes a scope for its block
    lemma_conditional_enters(m, scope, statement);
    let one = EvaluatorModel { scopes: opened, stack: rest.push(at(0)), ..idle };
    assert(step(m).0 == one);
    // the block takes up its first statement
    lemma_block_goes_on(one, inside, body, 0, true);
    let assignment = *body.0@[0];
    let two = EvaluatorModel {
        scopes: opened,
        stack: rest.push(at(1)).push(TaskModel::Statement { scope: inside, statement: assignment }),
        ..idle
    };
    assert(one.stack.drop_last() =~= rest);
    assert(step(one).0 == two);
    // which is carried out
    lemma_literal_assignment(two, inside, assignment, outer, first);
    let three = EvaluatorModel {
        scopes: written,
        stack: rest.push(at(1)),
        value: Some(number(Either::Left(first))),
        ..idle
    };
    assert(two.stack.drop_last() =~= rest.push(at(1)));
    assert(step(two).0 == three);
    // the block takes up its second statement
    lemma_block_goes_on(three, inside, body, 1, true);
    let shadowing = *body.0@[1];
    let four = EvaluatorModel {
        scopes: written,
        stack: rest.push(at(2)).push(TaskModel::Statement { scope: inside, statement: shadowing }),
        ..idle
    };
    assert(three.stack.drop_last() =~= rest);
    assert(step(three).0 == four);
    // which is carried out
    lemma_literal_assignment(four, inside, shadowing, inner, second);
    let five = EvaluatorModel {
        scopes: shadowed,
        stack: rest.push(at(2)),
        value: Some(number(Either::Left(second))),
        ..idle
    };
    assert(four.stack.drop_last() =~= rest.push(at(2)));
    assert(step(four).0 == five);
    // the block ends
    lemma_block_ends(five, inside, body, 2);
    let six = EvaluatorModel { scopes: shadowed, value: Some(undefined()), ..idle };
    assert(five.stack.drop_last() =~= rest);
    assert(step(five).0 == six);
    assert(after_steps(m, 6) == six) by {
        reveal_with_fuel(after_steps, 7);
    }
}

/// What a name is bound to, seen from a scope, is the same in scopes that
/// have more scopes behind the same ones.
pub proof fn lemma_lookup_prefix(
    before: Seq<ScopeModel>,
    after: Seq<ScopeModel>,
    scope: int,
    name: Seq<char>,
)
    requires
        before.len() <= after.len(),
        scope < before.len(),
        forall|i: int| 0 <= i < before.len() ==> before[i] == after[i],
    ensures
        lookup(after, scope, name) == lookup(before, scope, name),
    decreases scope,
{
    if 0 <= scope {
        if !before[scope].variables.contains_key(name) {
            match parent_of(before, scope) {
                Some(parent) => {
                    lemma_lookup_prefix(before, after, parent, name);
                },
                None => {},
            }
        }
    }
}

/// What a name is bound to is the same in scopes that differ in the
/// bindings of another name alone.
pub proof fn lemma_lookup_but(
    before: Seq<ScopeModel>,
    after: Seq<ScopeModel>,
    scope: int,
    name: Seq<char>,
    other: Seq<char>,
)
    requires
        before.len() == after.len(),
        name != other,
        forall|i: int|
            0 <= i < before.len() ==> (#[trigger] after[i]).parent == before[i].parent
                && after[i].variables.remove(other) == before[i].variables.remove(other),
    ensures
        lookup(after, scope, name) == lookup(before, scope, name),
    decreases scope,
{
    if 0 <= scope < before.len() {
        assert(after[scope].variables.remove(other).contains_key(name)
            == after[scope].variables.contains_key(name));
        assert(before[scope].variables.remove(other).contains_key(name)
            == before[scope].variables.contains_key(name));
        if before[scope].variables.contains_key(name) {
            assert(after[scope].variables.remove(other)[name] == after[scope].variables[name]);
            assert(before[scope].variables.remove(other)[name] == before[scope].variables[name]);
        } else {
            match parent_of(before, scope) {
                Some(parent) => {
                    lemma_lookup_but(before, after, parent, name, other);
                },
                None => {},
            }
        }
    }
}

/// What is assigned from the scopes of one program does not reach the
/// global scope of another: an assignment from a scope whose chain ends
/// elsewhere leaves a global scope, and so the module that it is bound
/// as, as it was.
pub proof fn law_programs_are_apart(
    scopes: Seq<ScopeModel>,
    scope: int,
    name: Seq<char>,
    value: ValueModel,
    other: int,
)
    requires
        0 <= other < scopes.len(),
        parent_of(scopes, other) is None,
        root_of(scopes, scope) != other,
    ensures
        assign(scopes, scope, name, value)[other] == scopes[other],
{
    if 0 <= scope < scopes.len() {
        match parent_of(scopes, scope) {
            Some(parent) => {
                assert(root_of(scopes, scope) == root_of(scopes, parent));
                assert(root_of(scopes, other) == other);
            },
            None => {},
        }
    }
}

/// Whether a statement defines a module whose body assigns an integer
/// literal to one name.
pub open spec fn defines_module(
    statement: Statement,
    module: Seq<char>,
    name: Seq<char>,
    value: isize,
) -> bool {
    match statement {
        Statement::ModuleDefinition { name: title, body } => {
            &&& title@ == module
            &&& body.0@.len() == 1
            &&& assigns_literal(*body.0@[0], name, value)
        },
        _ => false,
    }
}

/// The scopes after a module was defined from `scope` whose body assigns
/// `value` to `name`.
pub open spec fn with_module(
    scopes: Seq<ScopeModel>,
    scope: usize,
    module: Seq<char>,
    name: Seq<char>,
    value: ValueModel,
) -> Seq<ScopeModel> {
    assign(
        assign(
            scopes.push(ScopeModel::empty(module, Some(scope))),
            scopes.len() as int,
            name,
            value,
        ),
        scope as int,
        module,
        ValueModel::Module(ModuleModel { name: module, scope: scopes.len() as usize }),
    )
}

/// The five steps of the definition of a module whose body makes one
/// assignment.
pub proof fn lemma_module_steps(
    m: EvaluatorModel,
    scope: usize,
    statement: Statement,
    module: Seq<char>,
    name: Seq<char>,
    value: isize,
)
    requires
        m.stack.len() > 0,
        m.stack.last() == (TaskModel::Statement { scope, statement }),
        m.scopes.len() < usize::MAX,
        defines_module(statement, module, name, value),
    ensures
        after_steps(m, 5) == (EvaluatorModel {
            scopes: with_module(m.scopes, scope, module, name, number(Either::Left(value))),
            stack: m.stack.drop_last(),
            value: Some(undefined()),
            floats: Seq::empty(),
            ..m
        }),
{
    let body = *statement->ModuleDefinition_body;
    let rest = m.stack.drop_last();
    let inside = m.scopes.len() as usize;
    let opened = m.scopes.push(ScopeModel::empty(module, Some(scope)));
    let filled = assign(opened, inside as int, name, number(Either::Left(value)));
    let idle = EvaluatorModel { stack: rest, value: None, floats: Seq::empty(), ..m };
    let binding = TaskModel::Bind { scope, name: module, module: inside, imported: false };
    let at = |index: usize| TaskModel::Block { scope: inside, block: body, index, terminal: false };
    // the definition makes a scope for the module
    let one = EvaluatorModel { scopes: opened, stack: rest.push(binding).push(at(0)), ..idle };
    assert(step(m).0 == one);
    // the body takes up its statement
    lemma_block_goes_on(one, inside, body, 0, false);
    let assignment = *body.0@[0];
    let two = EvaluatorModel {
        scopes: opened,
        stack: rest.push(binding).push(at(1)).push(
            TaskModel::Statement { scope: inside, statement: assignment },
        ),
        ..idle
    };
    assert(one.stack.drop_last() =~= rest.push(binding));
    assert(step(one).0 == two);
    // which is carried out
    lemma_literal_assignment(two, inside, assignment, name, value);
    let three = EvaluatorModel {
        scopes: filled,
        stack: rest.push(binding).push(at(1)),
        value: Some(number(Either::Left(value))),
        ..idle
    };
    assert(two.stack.drop_last() =~= rest.push(binding).push(at(1)));
    assert(step(two).0 == three);
    // the body ends
    let four = EvaluatorModel { scopes: filled, stack: rest.push(binding), ..idle };
    assert(three.stack.drop_last() =~= rest.push(binding));
    assert(step(three).0 == four);
    // the module is bound
    let five = EvaluatorModel {
        scopes: with_module(m.scopes, scope, module, name, number(Either::Left(value))),
        value: Some(undefined()),
        ..idle
    };
    assert(four.stack.drop_last() =~= rest);
    assert(step(four).0 == five);
    assert(after_steps(m, 5) == five) by {
        reveal_with_fuel(after_steps, 6);
    }
}

/// A module's members are the names that its body has bound.
///
/// The definition of a module whose body assigns an integer to `name` is
/// about to run in a scope that does not bind `name` itself. Five steps
/// later the definition is done. Seen from the scope of the definition, the
/// path of the module and `name` has the integer as its value, and the
/// path of the module and a name that the body has not bound is undefined.
pub proof fn law_module_definition(
    m: EvaluatorModel,
    scope: usize,
    statement: Statement,
    module: Seq<char>,
    name: Seq<char>,
    value: isize,
    unbound: Seq<char>,
)
    requires
        m.stack.len() > 0,
        m.stack.last() == (TaskModel::Statement { scope, statement }),
        scope < m.scopes.len() < usize::MAX,
        !m.scopes[scope as int].variables.contains_key(name),
        unbound != name,
        defines_module(statement, module, name, value),
    ensures
        ({
            let done = after_steps(m, 5);
            &&& done.stack == m.stack.drop_last()
            &&& namespace_outcome(done.scopes, scope as int, seq![module, name])
                == OutcomeModel::Value(number(Either::Left(value)))
            &&& namespace_outcome(done.scopes, scope as int, seq![module, unbound])
                == OutcomeModel::Value(undefined())
        }),
{
    let literal = number(Either::Left(value));
    lemma_module_steps(m, scope, statement, module, name, value);
    let inside = m.scopes.len() as int;
    let opened = m.scopes.push(ScopeModel::empty(module, Some(scope)));
    let filled = assign(opened, inside, name, literal);
    let found = ModuleModel { name: module, scope: inside as usize };
    let after = assign(filled, scope as int, module, ValueModel::Module(found));
    assert(parent_of(opened, inside) == Some(scope as int));
    assert(target(opened, inside, name) == inside);
    assert(filled[inside].variables.contains_key(name));
    assert(filled[inside].variables[name] == literal);
    assert(!filled[inside].variables.contains_key(unbound));
    law_last_write_wins(filled, scope as int, module, ValueModel::Module(found));
    law_parent_is_earlier(filled, scope as int);
    assert(target(filled, scope as int, module) != inside);
    assert(after[inside] == filled[inside]);
    law_module_member(after, scope as int, module, name, found);
    law_module_member(after, scope as int, module, unbound, found);
}

/// Whether a program assigns an integer literal to one name and returns
/// undefined.
pub open spec fn binds_literal(ast: ASTNode, name: Seq<char>, value: isize) -> bool {
    let block = *ast->Block_0;
    &&& block.0@.len() == 1
    &&& assigns_literal(*block.0@[0], name, value)
    &&& returns_undefined(block)
}

/// Whether a statement imports the file at a path under a name.
pub open spec fn imports(statement: Statement, file: Seq<char>, module: Seq<char>) -> bool {
    match statement {
        Statement::Import { path, ident } => path@ == file && ident@ == module,
        _ => false,
    }
}

/// The scopes after a file whose program assigns `value` to `name` was
/// imported from `scope` as `module`.
pub open spec fn with_import(
    scopes: Seq<ScopeModel>,
    scope: usize,
    module: Seq<char>,
    name: Seq<char>,
    value: ValueModel,
) -> Seq<ScopeModel> {
    assign(
        assign(scopes.push(global_scope()), scopes.len() as int, name, value),
        scope as int,
        module,
        ValueModel::Module(ModuleModel { name: module, scope: scopes.len() as usize }),
    )
}

/// The evaluator after an import from its start to its end: the step that
/// asks for the file, the handing over of the file's program, and the four
/// steps in which a program of one assignment runs and is bound.
pub open spec fn imported(m: EvaluatorModel, ast: ASTNode, directory: Seq<char>) -> EvaluatorModel {
    after_steps(import_resumed(step(m).0, Ok(ast), directory).0, 4)
}

/// The run of an import of a file whose program makes one assignment.
pub proof fn lemma_import_steps(
    m: EvaluatorModel,
    scope: usize,
    statement: Statement,
    file: Seq<char>,
    module: Seq<char>,
    ast: ASTNode,
    directory: Seq<char>,
    name: Seq<char>,
    value: isize,
)
    requires
        m.stack.len() > 0,
        m.stack.last() == (TaskModel::Statement { scope, statement }),
        m.scopes.len() < usize::MAX,
        imports(statement, file, module),
        binds_literal(ast, name, value),
    ensures
        step(m).1 == (ActionModel::Import { directory: m.directory(scope), path: file }),
        imported(m, ast, directory) == (EvaluatorModel {
            scopes: with_import(m.scopes, scope, module, name, number(Either::Left(value))),
            stack: m.stack.drop_last(),
            value: Some(undefined()),
            floats: Seq::empty(),
            directories: m.directories.push((m.scopes.len() as usize, directory)),
            ..m
        }),
{
    let body = *ast->Block_0;
    let rest = m.stack.drop_last();
    let inside = m.scopes.len() as usize;
    let opened = m.scopes.push(global_scope());
    let filled = assign(opened, inside as int, name, number(Either::Left(value)));
    let idle = EvaluatorModel {
        stack: rest,
        value: None,
        floats: Seq::empty(),
        directories: m.directories.push((inside, directory)),
        ..m
    };
    let binding = TaskModel::Bind { scope, name: module, module: inside, imported: true };
    let at = |index: usize| TaskModel::Block { scope: inside, block: body, index, terminal: true };
    // the statement asks for the file
    let waiting = TaskModel::Import { scope, name: module, path: file };
    let asked = EvaluatorModel {
        stack: rest.push(waiting),
        value: None,
        floats: Seq::empty(),
        ..m
    };
    assert(step(m).0 == asked);
    // the program is handed over
    let zero = EvaluatorModel { scopes: opened, stack: rest.push(binding).push(at(0)), ..idle };
    assert(asked.stack.drop_last() =~= rest);
    assert(import_resumed(asked, Ok(ast), directory).0 == zero);
    // it takes up its statement
    lemma_block_goes_on(zero, inside, body, 0, true);
    let assignment = *body.0@[0];
    let one = EvaluatorModel {
        scopes: opened,
        stack: rest.push(binding).push(at(1)).push(
            TaskModel::Statement { scope: inside, statement: assignment },
        ),
        ..idle
    };
    assert(zero.stack.drop_last() =~= rest.push(binding));
    assert(step(zero).0 == one);
    // which is carried out
    lemma_literal_assignment(one, inside, assignment, name, value);
    let two = EvaluatorModel {
        scopes: filled,
        stack: rest.push(binding).push(at(1)),
        value: Some(number(Either::Left(value))),
        ..idle
    };
    assert(one.stack.drop_last() =~= rest.push(binding).push(at(1)));
    assert(step(one).0 == two);
    // the program ends
    lemma_block_ends(two, inside, body, 1);
    let three = EvaluatorModel {
        scopes: filled,
        stack: rest.push(binding),
        value: Some(undefined()),
        ..idle
    };
    assert(two.stack.drop_last() =~= rest.push(binding));
    assert(step(two).0 == three);
    // its scope is bound as a module
    let four = EvaluatorModel {
        scopes: with_import(m.scopes, scope, module, name, number(Either::Left(value))),
        value: Some(undefined()),
        ..idle
    };
    assert(three.stack.drop_last() =~= rest);
    assert(step(three).0 == four);
    assert(after_steps(zero, 4) == four) by {
        reveal_with_fuel(after_steps, 5);
    }
}

/// The scopes after a file was imported twice: each import has made a
/// global scope of its own, and what is written through one is not seen
/// through the other.
pub proof fn lemma_imports_apart(
    scopes: Seq<ScopeModel>,
    scope: usize,
    first: Seq<char>,
    second: Seq<char>,
    name: Seq<char>,
    value: ValueModel,
    other: ValueModel,
)
    requires
        scope < scopes.len() < usize::MAX - 1,
        first != second,
    ensures
        ({
            let one = with_import(scopes, scope, first, name, value);
            let two = with_import(one, scope, second, name, value);
            let a = scopes.len() as int;
            let b = a + 1;
            let written = assign(two, a, name, other);
            &&& two.len() == scopes.len() + 2
            &&& lookup(two, scope as int, first) == Some(
                ValueModel::Module(ModuleModel { name: first, scope: a as usize }),
            )
            &&& lookup(two, scope as int, second) == Some(
                ValueModel::Module(ModuleModel { name: second, scope: b as usize }),
            )
            &&& two[a] == global_scope().bind(name, value)
            &&& two[b] == global_scope().bind(name, value)
            &&& written[a] == global_scope().bind(name, other)
            &&& written[b] == two[b]
            &&& lookup(written, a, name) == Some(other)
            &&& lookup(written, b, name) == Some(value)
        }),
{
    let a = scopes.len() as int;
    let b = a + 1;
    let module_a = ValueModel::Module(ModuleModel { name: first, scope: a as usize });
    let module_b = ValueModel::Module(ModuleModel { name: second, scope: b as usize });
    // the first import
    let opened = scopes.push(global_scope());
    let filled = assign(opened, a, name, value);
    assert(parent_of(opened, a) is None);
    assert(target(opened, a, name) == a);
    let one = assign(filled, scope as int, first, module_a);
    law_parent_is_earlier(filled, scope as int);
    assert(target(filled, scope as int, first) < a);
    assert(one[a] == global_scope().bind(name, value));
    law_last_write_wins(filled, scope as int, first, module_a);
    // the second import
    let reopened = one.push(global_scope());
    let refilled = assign(reopened, b, name, value);
    assert(parent_of(reopened, b) is None);
    assert(target(reopened, b, name) == b);
    let two = assign(refilled, scope as int, second, module_b);
    law_parent_is_earlier(refilled, scope as int);
    assert(target(refilled, scope as int, second) < a);
    assert(two[a] == one[a]);
    assert(two[b] == global_scope().bind(name, value));
    law_last_write_wins(refilled, scope as int, second, module_b);
    // the first module is still bound
    lemma_lookup_prefix(one, reopened, scope as int, first);
    lemma_lookup_below(reopened, refilled, scope as int, b, first);
    assert forall|i: int| 0 <= i < refilled.len() implies (#[trigger] two[i]).parent
        == refilled[i].parent && two[i].variables.remove(second) == refilled[i].variables.remove(
        second,
    ) by {
        assert(two[i].variables.remove(second) =~= refilled[i].variables.remove(second));
    }
    lemma_lookup_but(refilled, two, scope as int, first, second);
    // what is written through the first is not seen through the second
    let written = assign(two, a, name, other);
    assert(parent_of(two, a) is None);
    assert(target(two, a, name) == a);
    assert(written[a].variables =~= global_scope().bind(name, other).variables);
    assert(parent_of(written, b) is None);
    assert(parent_of(written, a) is None);
}

/// Two imports of one file are two modules. Each has a global scope of its
/// own, made for it with the standard library, in which the file's program
/// has run; and what is written through one is not seen through the other.
///
/// Two imports of a file, under two names, are next on the stack, to be
/// run in one scope; the file's program assigns an integer to `name`. When
/// both have run to their end, the two names are bound, seen from that
/// scope, to modules of different scopes, in each of which `name` is bound
/// to the integer. After an assignment to `name` from the scope of the
/// first module, the name is bound to the new value seen from there, and
/// to the integer still seen from the scope of the second.
pub proof fn law_two_imports(
    m: EvaluatorModel,
    scope: usize,
    first: Statement,
    second: Statement,
    file: Seq<char>,
    one: Seq<char>,
    two: Seq<char>,
    ast: ASTNode,
    directory: Seq<char>,
    name: Seq<char>,
    value: isize,
    other: ValueModel,
)
    requires
        m.stack.len() >= 2,
        m.stack.last() == (TaskModel::Statement { scope, statement: first }),
        m.stack[m.stack.len() - 2] == (TaskModel::Statement { scope, statement: second }),
        scope < m.scopes.len() < usize::MAX - 1,
        imports(first, file, one),
        imports(second, file, two),
        one != two,
        binds_literal(ast, name, value),
    ensures
        ({
            let done = imported(imported(m, ast, directory), ast, directory);
            let a = m.scopes.len() as int;
            let b = a + 1;
            let written = assign(done.scopes, a, name, other);
            &&& done.stack == m.stack.drop_last().drop_last()
            &&& done.value == Some(undefined())
            &&& lookup(done.scopes, scope as int, one) == Some(
                ValueModel::Module(ModuleModel { name: one, scope: a as usize }),
            )
            &&& lookup(done.scopes, scope as int, two) == Some(
                ValueModel::Module(ModuleModel { name: two, scope: b as usize }),
            )
            &&& done.scopes[a] == global_scope().bind(name, number(Either::Left(value)))
            &&& done.scopes[b] == global_scope().bind(name, number(Either::Left(value)))
            &&& lookup(written, a, name) == Some(other)
            &&& lookup(written, b, name) == Some(number(Either::Left(value)))
        }),
{
    let literal = number(Either::Left(value));
    lemma_import_steps(m, scope, first, file, one, ast, directory, name, value);
    let between = imported(m, ast, directory);
    assert(between.stack.last() == m.stack[m.stack.len() - 2]);
    assert(between.scopes.len() == m.scopes.len() + 1) by {
        lemma_imports_apart(m.scopes, scope, one, two, name, literal, other);
    }
    lemma_import_steps(between, scope, second, file, two, ast, directory, name, value);
    lemma_imports_apart(m.scopes, scope, one, two, name, literal, other);
}

/// The program of an imported file runs in a scope of its own, made for
/// this import: a root scope at the end of the scopes, so that its index is
/// that of no scope made before. The scopes that were there are as they
/// were.
pub proof fn law_import_is_fresh(m: EvaluatorModel, ast: ASTNode, directory: Seq<char>)
    requires
        m.stack.len() > 0,
        m.stack.last() is Import,
    ensures
        ({
            let after = import_resumed(m, Ok(ast), directory).0;
            &&& after.scopes.len() == m.scopes.len() + 1
            &&& after.scopes.subrange(0, m.scopes.len() as int) == m.scopes
            &&& after.scopes.last().parent is None
            &&& after.stack.len() == m.stack.len() + 1
            &&& after.stack[after.stack.len() - 2] == (TaskModel::Bind {
                scope: m.stack.last()->Import_scope,
                name: m.stack.last()->Import_name,
                module: m.scopes.len() as usize,
                imported: true,
            })
        }),
{
    let after = import_resumed(m, Ok(ast), directory).0;
    assert(after.scopes.subrange(0, m.scopes.len() as int) =~= m.scopes);
}

} // verus!
