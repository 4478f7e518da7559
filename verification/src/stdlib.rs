//! The standard library: the native functions and their names.

use crate::text::{trim, trimmed};
use crate::value::{
    entries_model, Native, PrimitiveModel, PrimitiveTypes, ValueModel, ValueType,
};
use vstd::prelude::*;

verus! {

/// The bindings of the standard library.
pub open spec fn standard_library() -> Seq<(Seq<char>, ValueModel)> {
    seq![
        ("printl"@, ValueModel::InternalFunction(Native::Printl)),
        ("print"@, ValueModel::InternalFunction(Native::Print)),
        ("input"@, ValueModel::InternalFunction(Native::Input)),
        ("inspect"@, ValueModel::InternalFunction(Native::Inspect)),
    ]
}

/// The bindings of the standard library: each native function under its
/// name. They are written into the global scope once, when an evaluator is
/// made.
pub fn build_standard_library() -> (r: Vec<(String, ValueType)>)
    ensures
        entries_model(r@) == standard_library(),
{
    let mut library: Vec<(String, ValueType)> = Vec::new();
    library.push(("printl".to_owned(), ValueType::InternalFunction(Native::Printl)));
    library.push(("print".to_owned(), ValueType::InternalFunction(Native::Print)));
    library.push(("input".to_owned(), ValueType::InternalFunction(Native::Input)));
    library.push(("inspect".to_owned(), ValueType::InternalFunction(Native::Inspect)));
    assert(entries_model(library@) =~= standard_library());
    library
}

/// The result of `input` for a line that was read from the standard
/// input: the line as a string, without the white space around it.
pub fn input(line: &str) -> (r: ValueType)
    ensures
        r@ == ValueModel::Variable(PrimitiveModel::String(trimmed(line@))),
{
    ValueType::Variable(PrimitiveTypes::String(trim(line)))
}

} // verus!
