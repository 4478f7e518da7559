//! Dotted paths: `a.b.c`.

use crate::ast::names_model;
use crate::error::{Error, ErrorKind, ErrorModel};
use crate::evaluator::Evaluator;
use crate::outcome::{Outcome, OutcomeModel};
use crate::scope::{
    bindings, lemma_bindings_absent, lemma_bindings_first, lookup, scopes_model, Scope, ScopeModel,
};
use crate::value::{
    entries_model, lemma_object_model, undefined, PrimitiveModel, PrimitiveTypes, ValueModel,
    ValueType,
};
use vstd::prelude::*;
use vstd::string::*;

verus! {

/// The message of the error for a path whose first name is not bound.
pub open spec fn no_properties_message(name: Seq<char>) -> Seq<char> {
    "cannot read properties of \""@ + name + "\""@
}

/// The message of the error for a path without names.
pub open spec fn empty_path_message() -> Seq<char> {
    "cannot read properties of an empty path"@
}

/// The member of a plain value under a name: the value of the first entry
/// with that key where the value is an object that has one, else undefined.
pub open spec fn property(value: PrimitiveModel, name: Seq<char>) -> ValueModel {
    match value {
        PrimitiveModel::Object(entries) => if bindings(entries).contains_key(name) {
            bindings(entries)[name]
        } else {
            undefined()
        },
        _ => undefined(),
    }
}

/// The member of a binding under a name.
///
/// A module's member is what the module's own scope binds the name to, not
/// what a parent of that scope binds it to. An object's member is the value
/// of the entry with that key. Where there is no such binding or entry, and
/// for every other kind of binding, the member is undefined.
pub open spec fn member(scopes: Seq<ScopeModel>, value: ValueModel, name: Seq<char>) -> ValueModel {
    match value {
        ValueModel::Module(module) => if module.scope < scopes.len() && scopes[module.scope as int].variables.contains_key(
            name,
        ) {
            scopes[module.scope as int].variables[name]
        } else {
            undefined()
        },
        ValueModel::Variable(variable) => property(variable, name),
        _ => undefined(),
    }
}

/// The binding that is reached from `value` along the names of `path` from
/// position `from` on: each name takes the member of what was reached.
pub open spec fn descend(
    scopes: Seq<ScopeModel>,
    value: ValueModel,
    path: Seq<Seq<char>>,
    from: int,
) -> ValueModel
    decreases path.len() - from,
{
    if from < 0 || from >= path.len() {
        value
    } else {
        descend(scopes, member(scopes, value, path[from]), path, from + 1)
    }
}

/// The value of a dotted path, seen from a scope.
///
/// The first name is looked up in the chain of scopes; a reference error
/// where it is bound nowhere, or where the path has no name at all. Each
/// further name takes the member of what was reached so far.
pub open spec fn namespace_outcome(
    scopes: Seq<ScopeModel>,
    scope: int,
    path: Seq<Seq<char>>,
) -> OutcomeModel {
    if path.len() == 0 {
        OutcomeModel::Failure(ErrorModel::reference(empty_path_message()))
    } else {
        match lookup(scopes, scope, path[0]) {
            Some(value) => OutcomeModel::Value(descend(scopes, value, path, 1)),
            None => OutcomeModel::Failure(ErrorModel::reference(no_properties_message(path[0]))),
        }
    }
}

/// The member of a plain value under a name: the value of the entry with
/// that key where the value is an object that has one, else undefined.
pub fn read_property_of_variable(value: &PrimitiveTypes, ident: &String) -> (r: ValueType)
    ensures
        r@ == property(value@, ident@),
{
    match value {
        PrimitiveTypes::Object(entries) => {
            proof {
                lemma_object_model(*entries);
            }
            let mut i: usize = 0;
            while i < entries.len()
                invariant
                    value@ == PrimitiveModel::Object(entries_model(entries@)),
                    i <= entries@.len(),
                    forall|j: int| 0 <= j < i ==> entries@[j].0@ != ident@,
                decreases entries@.len() - i,
            {
                if entries[i].0 == *ident {
                    proof {
                        lemma_bindings_first(entries_model(entries@), ident@, i as int);
                    }
                    return entries[i].1.duplicate();
                }
                i += 1;
            }
            proof {
                lemma_bindings_absent(entries_model(entries@), ident@);
            }
            ValueType::undefined()
        },
        _ => ValueType::undefined(),
    }
}

/// The member of a binding under a name.
pub fn read_property_of_value(evaluator: &Evaluator, value: &ValueType, ident: &String) -> (r:
    ValueType)
    ensures
        r@ == member(scopes_model(evaluator.scopes@), value@, ident@),
{
    match value {
        ValueType::Module(module) => {
            if module.scope < evaluator.scopes.len() {
                match evaluator.scopes[module.scope].local(ident) {
                    Some(found) => found,
                    None => ValueType::undefined(),
                }
            } else {
                ValueType::undefined()
            }
        },
        ValueType::Variable(variable) => read_property_of_variable(variable, ident),
        ValueType::Function(_) => ValueType::undefined(),
        ValueType::InternalFunction(_) => ValueType::undefined(),
    }
}

/// Evaluates a dotted path, seen from the scope with the given index.
pub fn evaluate_namespace_expression(
    evaluator: &Evaluator,
    scope: usize,
    namespace: &Vec<String>,
) -> (r: Outcome)
    ensures
        r@ == namespace_outcome(
            scopes_model(evaluator.scopes@),
            scope as int,
            names_model(namespace@),
        ),
        !(r is Pending),
{
    if namespace.len() == 0 {
        return Outcome::Failure(
            Error {
                message: "cannot read properties of an empty path".to_owned(),
                kind: ErrorKind::Reference,
            },
        );
    }
    let ghost scopes = scopes_model(evaluator.scopes@);
    let ghost path = names_model(namespace@);
    let mut value = match Scope::get(&evaluator.scopes, scope, namespace[0].as_str()) {
        Some(value) => value,
        None => {
            let mut message = "cannot read properties of \"".to_owned();
            message.append(namespace[0].as_str());
            message.append("\"");
            return Outcome::Failure(Error { message, kind: ErrorKind::Reference });
        },
    };
    let ghost first = value@;
    let mut i: usize = 1;
    while i < namespace.len()
        invariant
            1 <= i <= namespace@.len(),
            scopes == scopes_model(evaluator.scopes@),
            path == names_model(namespace@),
            descend(scopes, first, path, 1) == descend(scopes, value@, path, i as int),
        decreases namespace@.len() - i,
    {
        value = read_property_of_value(evaluator, &value, &namespace[i]);
        i += 1;
    }
    Outcome::Value(value)
}

} // verus!
