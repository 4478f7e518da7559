//! The evaluation of expressions.
//!
//! To evaluate an expression changes nothing: it reads the scopes and the
//! floating-point results that the engine has been told, and gives an
//! outcome.

pub mod comparison_expression;
pub mod logic_expression;
pub mod math_expression;
pub mod namespace_expression;

use crate::ast::names_model;
use crate::ast;
use crate::error::{Error, ErrorKind, ErrorModel};
use crate::evaluator::Evaluator;
use crate::expression::comparison_expression::{evaluate_comparison, evaluate_comparison_expression};
use crate::expression::logic_expression::{boolean_value, evaluate_logic, evaluate_logic_expression};
use crate::expression::math_expression::{evaluate_math, evaluate_math_expression, number_value};
use crate::expression::namespace_expression::{evaluate_namespace_expression, namespace_outcome};
use crate::number::{Float, Rank};
use crate::order::{compare_text, text_rank};
use crate::outcome::{Outcome, OutcomeModel};
use crate::request::{copy_number, FloatRequest};
use crate::scope::{lookup, scopes_model, Scope, ScopeModel};
use crate::value::{
    entries_model, lemma_array_model, lemma_object_model, values_model, PrimitiveModel,
    PrimitiveTypes, ValueModel, ValueType,
};
use vstd::prelude::*;
use vstd::string::*;

verus! {

/// The message of the error for a name that is bound nowhere.
pub open spec fn not_found_message(name: Seq<char>) -> Seq<char> {
    "Identifier(\""@ + name + "\") variable not found"@
}

/// An array as a binding.
pub open spec fn array(items: Seq<ValueModel>) -> ValueModel {
    ValueModel::Variable(PrimitiveModel::Array(items))
}

/// An object as a binding.
pub open spec fn object(entries: Seq<(Seq<char>, ValueModel)>) -> ValueModel {
    ValueModel::Variable(PrimitiveModel::Object(entries))
}

/// The position of the first entry from `from` on whose key does not come
/// before `key`; the number of entries where there is none.
pub open spec fn slot(entries: Seq<(Seq<char>, ValueModel)>, key: Seq<char>, from: int) -> int
    decreases entries.len() - from,
{
    if from < 0 || from >= entries.len() {
        entries.len() as int
    } else if text_rank(entries[from].0, key) == Rank::Less {
        slot(entries, key, from + 1)
    } else {
        from
    }
}

/// The entries of an object after a key has been given a value: the entry
/// stands after the entries whose keys come before its key, in place of
/// the entry with its key where there is one.
pub open spec fn placed(
    entries: Seq<(Seq<char>, ValueModel)>,
    key: Seq<char>,
    value: ValueModel,
) -> Seq<(Seq<char>, ValueModel)> {
    let at = slot(entries, key, 0);
    if at < entries.len() && text_rank(entries[at].0, key) == Rank::Equal {
        entries.update(at, (key, value))
    } else {
        entries.insert(at, (key, value))
    }
}

/// The value of an expression, seen from a scope.
///
/// A literal is its own value. The entries of an array and of an object are
/// evaluated in their order. An identifier is looked up in the chain of
/// scopes; it is a reference error where no scope binds it.
pub open spec fn evaluate(
    scopes: Seq<ScopeModel>,
    scope: int,
    known: Seq<(FloatRequest, Float)>,
    expression: ast::Expression,
) -> OutcomeModel
    decreases expression,
{
    match expression {
        ast::Expression::Null => OutcomeModel::Value(ValueModel::Variable(PrimitiveModel::Null)),
        ast::Expression::Undefined => OutcomeModel::Value(
            ValueModel::Variable(PrimitiveModel::Undefined),
        ),
        ast::Expression::Boolean(b) => OutcomeModel::Value(
            ValueModel::Variable(PrimitiveModel::Boolean(b)),
        ),
        ast::Expression::Number(n) => OutcomeModel::Value(
            ValueModel::Variable(PrimitiveModel::Number(n)),
        ),
        ast::Expression::String(s) => OutcomeModel::Value(
            ValueModel::Variable(PrimitiveModel::String(s@)),
        ),
        ast::Expression::Array(items) => evaluate_items(
            scopes,
            scope,
            known,
            items@,
            items@.len() as int,
        ),
        ast::Expression::Object(entries) => evaluate_entries(
            scopes,
            scope,
            known,
            entries@,
            entries@.len() as int,
        ),
        ast::Expression::Identifier(name) => match lookup(scopes, scope, name@) {
            Some(value) => OutcomeModel::Value(value),
            None => OutcomeModel::Failure(ErrorModel::reference(not_found_message(name@))),
        },
        ast::Expression::Namespace(path) => namespace_outcome(scopes, scope, names_model(path@)),
        ast::Expression::MathExpression(math) => evaluate_math(scopes, scope, known, math),
        ast::Expression::LogicExpression(logic) => evaluate_logic(scopes, scope, known, logic),
        ast::Expression::ComparisonExpression(comparison) => evaluate_comparison(
            scopes,
            scope,
            known,
            comparison,
        ),
    }
}

/// The array of the values of the first `count` expressions of a list, or
/// the outcome of the first of them that does not give a value.
pub open spec fn evaluate_items(
    scopes: Seq<ScopeModel>,
    scope: int,
    known: Seq<(FloatRequest, Float)>,
    items: Seq<ast::Expression>,
    count: int,
) -> OutcomeModel
    decreases items, count,
{
    if count <= 0 || count > items.len() {
        OutcomeModel::Value(array(Seq::empty()))
    } else {
        match evaluate_items(scopes, scope, known, items, count - 1) {
            OutcomeModel::Value(ValueModel::Variable(PrimitiveModel::Array(values))) => match evaluate(
                scopes,
                scope,
                known,
                items[count - 1],
            ) {
                OutcomeModel::Value(value) => OutcomeModel::Value(array(values.push(value))),
                other => other,
            },
            other => other,
        }
    }
}

/// The object of the first `count` entries of an object literal, each key
/// with the value of its expression, or the outcome of the first of the
/// expressions that does not give a value.
pub open spec fn evaluate_entries(
    scopes: Seq<ScopeModel>,
    scope: int,
    known: Seq<(FloatRequest, Float)>,
    entries: Seq<(String, ast::Expression)>,
    count: int,
) -> OutcomeModel
    decreases entries, count,
{
    if count <= 0 || count > entries.len() {
        OutcomeModel::Value(object(Seq::empty()))
    } else {
        match evaluate_entries(scopes, scope, known, entries, count - 1) {
            OutcomeModel::Value(ValueModel::Variable(PrimitiveModel::Object(values))) => match evaluate(
                scopes,
                scope,
                known,
                entries[count - 1].1,
            ) {
                OutcomeModel::Value(value) => OutcomeModel::Value(
                    object(placed(values, entries[count - 1].0@, value)),
                ),
                other => other,
            },
            other => other,
        }
    }
}

/// Gives a key of an object a value.
pub fn put(entries: &mut Vec<(String, ValueType)>, key: String, value: ValueType)
    ensures
        entries_model(final(entries)@) == placed(entries_model(old(entries)@), key@, value@),
{
    let ghost before = entries_model(entries@);
    let ghost text = key@;
    let ghost model = value@;
    let mut i: usize = 0;
    while i < entries.len()
        invariant
            i <= entries@.len(),
            before == entries_model(entries@),
            before == entries_model(old(entries)@),
            text == key@,
            model == value@,
            slot(before, text, 0) == slot(before, text, i as int),
        decreases entries@.len() - i,
    {
        match compare_text(entries[i].0.as_str(), key.as_str()) {
            Rank::Less => {
                i += 1;
            },
            Rank::Equal => {
                entries.set(i, (key, value));
                assert(entries_model(entries@) =~= before.update(i as int, (text, model)));
                return ;
            },
            Rank::Greater => {
                entries.insert(i, (key, value));
                assert(entries_model(entries@) =~= before.insert(i as int, (text, model)));
                return ;
            },
        }
    }
    entries.push((key, value));
    assert(entries_model(entries@) =~= before.insert(i as int, (text, model)));
}

/// The evaluator of expressions.
pub struct Expression;

impl Expression {
    /// Evaluates an expression, seen from the scope with the given index.
    pub fn parse_expression(evaluator: &Evaluator, scope: usize, ast: &ast::Expression) -> (r:
        Outcome)
        ensures
            r@ == evaluate(
                scopes_model(evaluator.scopes@),
                scope as int,
                evaluator.floats@,
                *ast,
            ),
        decreases *ast, 0int,
    {
        let ghost scopes = scopes_model(evaluator.scopes@);
        let ghost known = evaluator.floats@;
        match ast {
            ast::Expression::Null => Outcome::Value(ValueType::Variable(PrimitiveTypes::Null)),
            ast::Expression::Undefined => Outcome::Value(ValueType::undefined()),
            ast::Expression::Boolean(value) => Outcome::Value(boolean_value(*value)),
            ast::Expression::Number(value) => Outcome::Value(number_value(copy_number(value))),
            ast::Expression::String(value) => Outcome::Value(
                ValueType::Variable(PrimitiveTypes::String(value.clone())),
            ),
            ast::Expression::Array(items) => {
                let mut array: Vec<ValueType> = Vec::new();
                let mut i: usize = 0;
                assert(values_model(array@) =~= Seq::empty());
                while i < items.len()
                    invariant
                        *ast == ast::Expression::Array(*items),
                        scopes == scopes_model(evaluator.scopes@),
                        known == evaluator.floats@,
                        i <= items@.len(),
                        evaluate_items(scopes, scope as int, known, items@, i as int)
                            == OutcomeModel::Value(self::array(values_model(array@))),
                    decreases items@.len() - i,
                {
                    assert(decreases_to!(*ast => ast->Array_0));
                    assert(decreases_to!(*items => items[i as int]));
                    let ghost before = values_model(array@);
                    match evaluate_expression(evaluator, scope, &items[i]) {
                        Outcome::Value(value) => {
                            array.push(value);
                            assert(values_model(array@) =~= before.push(value@));
                        },
                        other => {
                            proof {
                                lemma_items_stop(
                                    scopes,
                                    scope as int,
                                    known,
                                    items@,
                                    i as int + 1,
                                    items@.len() as int,
                                );
                            }
                            return other;
                        },
                    }
                    i += 1;
                }
                proof {
                    lemma_array_model(array);
                }
                Outcome::Value(ValueType::Variable(PrimitiveTypes::Array(array)))
            },
            ast::Expression::Object(entries) => {
                let mut object: Vec<(String, ValueType)> = Vec::new();
                let mut i: usize = 0;
                assert(entries_model(object@) =~= Seq::empty());
                while i < entries.len()
                    invariant
                        *ast == ast::Expression::Object(*entries),
                        scopes == scopes_model(evaluator.scopes@),
                        known == evaluator.floats@,
                        i <= entries@.len(),
                        evaluate_entries(scopes, scope as int, known, entries@, i as int)
                            == OutcomeModel::Value(self::object(entries_model(object@))),
                    decreases entries@.len() - i,
                {
                    assert(decreases_to!(*ast => ast->Object_0));
                    assert(decreases_to!(*entries => entries[i as int]));
                    assert(decreases_to!(entries[i as int] => entries[i as int].1));
                    match evaluate_expression(evaluator, scope, &entries[i].1) {
                        Outcome::Value(value) => {
                            put(&mut object, entries[i].0.clone(), value);
                        },
                        other => {
                            proof {
                                lemma_entries_stop(
                                    scopes,
                                    scope as int,
                                    known,
                                    entries@,
                                    i as int + 1,
                                    entries@.len() as int,
                                );
                            }
                            return other;
                        },
                    }
                    i += 1;
                }
                proof {
                    lemma_object_model(object);
                }
                Outcome::Value(ValueType::Variable(PrimitiveTypes::Object(object)))
            },
            ast::Expression::Identifier(name) => {
                match Scope::get(&evaluator.scopes, scope, name.as_str()) {
                    Some(value) => Outcome::Value(value),
                    None => {
                        let mut message = "Identifier(\"".to_owned();
                        message.append(name.as_str());
                        message.append("\") variable not found");
                        Outcome::Failure(Error { message, kind: ErrorKind::Reference })
                    },
                }
            },
            ast::Expression::Namespace(path) => evaluate_namespace_expression(
                evaluator,
                scope,
                path,
            ),
            ast::Expression::MathExpression(math) => evaluate_math_expression(
                evaluator,
                scope,
                math,
            ),
            ast::Expression::LogicExpression(logic) => evaluate_logic_expression(
                evaluator,
                scope,
                logic,
            ),
            ast::Expression::ComparisonExpression(comparison) => evaluate_comparison_expression(
                evaluator,
                scope,
                comparison,
            ),
        }
    }
}

/// Evaluates an expression, seen from the scope with the given index.
pub fn evaluate_expression(evaluator: &Evaluator, scope: usize, expression: &ast::Expression) -> (r:
    Outcome)
    ensures
        r@ == evaluate(
            scopes_model(evaluator.scopes@),
            scope as int,
            evaluator.floats@,
            *expression,
        ),
    decreases *expression, 1int,
{
    Expression::parse_expression(evaluator, scope, expression)
}

/// Once an entry of an array has not given a value, its outcome is that of
/// every longer part of the array.
pub proof fn lemma_items_stop(
    scopes: Seq<ScopeModel>,
    scope: int,
    known: Seq<(FloatRequest, Float)>,
    items: Seq<ast::Expression>,
    count: int,
    more: int,
)
    requires
        0 < count <= more <= items.len(),
        !(evaluate_items(scopes, scope, known, items, count) is Value),
    ensures
        evaluate_items(scopes, scope, known, items, more) == evaluate_items(
            scopes,
            scope,
            known,
            items,
            count,
        ),
    decreases more - count,
{
    if count < more {
        lemma_items_stop(scopes, scope, known, items, count, more - 1);
    }
}

/// Once an entry of an object has not given a value, its outcome is that
/// of every longer part of the object.
pub proof fn lemma_entries_stop(
    scopes: Seq<ScopeModel>,
    scope: int,
    known: Seq<(FloatRequest, Float)>,
    entries: Seq<(String, ast::Expression)>,
    count: int,
    more: int,
)
    requires
        0 < count <= more <= entries.len(),
        !(evaluate_entries(scopes, scope, known, entries, count) is Value),
    ensures
        evaluate_entries(scopes, scope, known, entries, more) == evaluate_entries(
            scopes,
            scope,
            known,
            entries,
            count,
        ),
    decreases more - count,
{
    if count < more {
        lemma_entries_stop(scopes, scope, known, entries, count, more - 1);
    }
}

} // verus!
