//! The values of the language and what a name can be bound to.

use crate::ast::{copy_names, names_model};
use crate::block::Block;
use crate::either::Either;
use crate::number::Float;
use vstd::prelude::*;

verus! {

/// The native functions of the standard library.
#[derive(Clone, Copy, Debug, PartialEq, Eq, Structural)]
pub enum Native {
    /// Writes its arguments, joined by spaces, and a line end.
    Printl,
    /// Writes its arguments, joined by spaces.
    Print,
    /// Reads one line from the standard input.
    Input,
    /// Writes a dump of its arguments and a line end.
    Inspect,
}

/// A plain value.
#[derive(Debug)]
pub enum PrimitiveTypes {
    Null,
    Undefined,
    Boolean(bool),
    /// An integer (`Left`) or a floating-point number (`Right`).
    Number(Either<isize, Float>),
    String(String),
    Array(Vec<ValueType>),
    /// The entries of an object, in the order of their keys.
    Object(Vec<(String, ValueType)>),
}

/// What a name is bound to.
#[derive(Debug)]
pub enum ValueType {
    Function(Function),
    Variable(PrimitiveTypes),
    InternalFunction(Native),
    Module(Module),
}

/// A function of the program: its name, its body bound to the scope that
/// was made for it when it was defined, and the names of its parameters.
#[derive(Debug)]
pub struct Function {
    pub name: String,
    pub body: Block,
    pub expected_parameters: Vec<String>,
}

/// A named scope that was filled by running a block or a file once.
#[derive(Debug)]
pub struct Module {
    pub name: String,
    /// The index of the module's scope among the evaluator's scopes.
    pub scope: usize,
}

/// A function as a mathematical value.
pub struct FunctionModel {
    pub name: Seq<char>,
    pub body: Block,
    pub expected_parameters: Seq<Seq<char>>,
}

/// A module as a mathematical value.
pub struct ModuleModel {
    pub name: Seq<char>,
    pub scope: usize,
}

/// A plain value as a mathematical value.
pub enum PrimitiveModel {
    Null,
    Undefined,
    Boolean(bool),
    Number(Either<isize, Float>),
    String(Seq<char>),
    Array(Seq<ValueModel>),
    Object(Seq<(Seq<char>, ValueModel)>),
}

/// A binding as a mathematical value.
pub enum ValueModel {
    Function(FunctionModel),
    Variable(PrimitiveModel),
    InternalFunction(Native),
    Module(ModuleModel),
}

/// The undefined value.
pub open spec fn undefined() -> ValueModel {
    ValueModel::Variable(PrimitiveModel::Undefined)
}

/// The mathematical value of a binding.
pub open spec fn value_model(value: ValueType) -> ValueModel
    decreases value,
{
    match value {
        ValueType::Function(function) => ValueModel::Function(function@),
        ValueType::Variable(primitive) => ValueModel::Variable(primitive_model(primitive)),
        ValueType::InternalFunction(native) => ValueModel::InternalFunction(native),
        ValueType::Module(module) => ValueModel::Module(module@),
    }
}

/// The mathematical value of a plain value.
pub open spec fn primitive_model(primitive: PrimitiveTypes) -> PrimitiveModel
    decreases primitive,
{
    match primitive {
        PrimitiveTypes::Null => PrimitiveModel::Null,
        PrimitiveTypes::Undefined => PrimitiveModel::Undefined,
        PrimitiveTypes::Boolean(b) => PrimitiveModel::Boolean(b),
        PrimitiveTypes::Number(n) => PrimitiveModel::Number(n),
        PrimitiveTypes::String(s) => PrimitiveModel::String(s@),
        PrimitiveTypes::Array(items) => PrimitiveModel::Array(
            Seq::new(
                items@.len(),
                |i: int|
                    if 0 <= i < items@.len() {
                        value_model(items@[i])
                    } else {
                        undefined()
                    },
            ),
        ),
        PrimitiveTypes::Object(entries) => PrimitiveModel::Object(
            Seq::new(
                entries@.len(),
                |i: int|
                    if 0 <= i < entries@.len() {
                        (entries@[i].0@, value_model(entries@[i].1))
                    } else {
                        (Seq::empty(), undefined())
                    },
            ),
        ),
    }
}

impl View for Function {
    type V = FunctionModel;

    open spec fn view(&self) -> FunctionModel {
        FunctionModel {
            name: self.name@,
            body: self.body,
            expected_parameters: names_model(self.expected_parameters@),
        }
    }
}

impl View for Module {
    type V = ModuleModel;

    open spec fn view(&self) -> ModuleModel {
        ModuleModel { name: self.name@, scope: self.scope }
    }
}

impl View for PrimitiveTypes {
    type V = PrimitiveModel;

    open spec fn view(&self) -> PrimitiveModel {
        primitive_model(*self)
    }
}

impl View for ValueType {
    type V = ValueModel;

    open spec fn view(&self) -> ValueModel {
        value_model(*self)
    }
}

/// The mathematical values of a list of bindings.
pub open spec fn values_model(values: Seq<ValueType>) -> Seq<ValueModel> {
    Seq::new(values.len(), |i: int| values[i]@)
}

/// The mathematical values of a list of named bindings.
pub open spec fn entries_model(entries: Seq<(String, ValueType)>) -> Seq<(Seq<char>, ValueModel)> {
    Seq::new(entries.len(), |i: int| (entries[i].0@, entries[i].1@))
}

/// An array's value is the list of its entries' values.
pub proof fn lemma_array_model(items: Vec<ValueType>)
    ensures
        PrimitiveTypes::Array(items)@ == PrimitiveModel::Array(values_model(items@)),
        ValueType::Variable(PrimitiveTypes::Array(items))@ == ValueModel::Variable(
            PrimitiveModel::Array(values_model(items@)),
        ),
{
    assert(PrimitiveTypes::Array(items)@->Array_0 =~= values_model(items@));
}

/// An object's value is the list of its entries' keys and values.
pub proof fn lemma_object_model(entries: Vec<(String, ValueType)>)
    ensures
        PrimitiveTypes::Object(entries)@ == PrimitiveModel::Object(entries_model(entries@)),
        ValueType::Variable(PrimitiveTypes::Object(entries))@ == ValueModel::Variable(
            PrimitiveModel::Object(entries_model(entries@)),
        ),
{
    assert(PrimitiveTypes::Object(entries)@->Object_0 =~= entries_model(entries@));
}

impl Function {
    /// A function with the given name, body and parameter names.
    pub fn new(name: String, body: Block, expected_parameters: Vec<String>) -> (r: Self)
        ensures
            r.name == name,
            r.body == body,
            r.expected_parameters == expected_parameters,
    {
        Self { name, body, expected_parameters }
    }

    /// A copy of the function, which shares its body and its scope.
    pub fn duplicate(&self) -> (r: Self)
        ensures
            r@ == self@,
    {
        Self {
            name: self.name.clone(),
            body: self.body.duplicate(),
            expected_parameters: copy_names(&self.expected_parameters),
        }
    }
}

impl Module {
    /// A copy of the module, which shares its scope.
    pub fn duplicate(&self) -> (r: Self)
        ensures
            r@ == self@,
    {
        Self { name: self.name.clone(), scope: self.scope }
    }
}

impl PrimitiveTypes {
    /// A copy of the value.
    pub fn duplicate(&self) -> (r: Self)
        ensures
            r@ == self@,
        decreases *self,
    {
        match self {
            PrimitiveTypes::Null => PrimitiveTypes::Null,
            PrimitiveTypes::Undefined => PrimitiveTypes::Undefined,
            PrimitiveTypes::Boolean(b) => PrimitiveTypes::Boolean(*b),
            PrimitiveTypes::Number(n) => PrimitiveTypes::Number(
                match n {
                    Either::Left(i) => Either::Left(*i),
                    Either::Right(f) => Either::Right(*f),
                },
            ),
            PrimitiveTypes::String(s) => PrimitiveTypes::String(s.clone()),
            PrimitiveTypes::Array(items) => {
                let mut out: Vec<ValueType> = Vec::new();
                let mut i: usize = 0;
                while i < items.len()
                    invariant
                        *self == PrimitiveTypes::Array(*items),
                        i <= items.len(),
                        out@.len() == i,
                        forall|j: int| 0 <= j < i ==> out@[j]@ == items@[j]@,
                    decreases items.len() - i,
                {
                    assert(decreases_to!(*self => self->Array_0));
                    assert(decreases_to!(*items => items[i as int]));
                    out.push(items[i].duplicate());
                    i += 1;
                }
                assert(PrimitiveTypes::Array(out)@->Array_0 =~= self@->Array_0);
                PrimitiveTypes::Array(out)
            },
            PrimitiveTypes::Object(entries) => {
                let mut out: Vec<(String, ValueType)> = Vec::new();
                let mut i: usize = 0;
                while i < entries.len()
                    invariant
                        *self == PrimitiveTypes::Object(*entries),
                        i <= entries.len(),
                        out@.len() == i,
                        forall|j: int|
                            0 <= j < i ==> out@[j].0@ == entries@[j].0@ && out@[j].1@
                                == entries@[j].1@,
                    decreases entries.len() - i,
                {
                    assert(decreases_to!(*self => self->Object_0));
                    assert(decreases_to!(*entries => entries[i as int]));
                    assert(decreases_to!(entries[i as int] => entries[i as int].1));
                    out.push((entries[i].0.clone(), entries[i].1.duplicate()));
                    i += 1;
                }
                assert(PrimitiveTypes::Object(out)@->Object_0 =~= self@->Object_0);
                PrimitiveTypes::Object(out)
            },
        }
    }
}

impl ValueType {
    /// A copy of the binding. A plain value is copied whole; a function or
    /// a module shares its scope with the copy.
    pub fn duplicate(&self) -> (r: Self)
        ensures
            r@ == self@,
        decreases *self,
    {
        match self {
            ValueType::Function(function) => ValueType::Function(function.duplicate()),
            ValueType::Variable(primitive) => ValueType::Variable(primitive.duplicate()),
            ValueType::InternalFunction(native) => ValueType::InternalFunction(*native),
            ValueType::Module(module) => ValueType::Module(module.duplicate()),
        }
    }

    /// The undefined value.
    pub fn undefined() -> (r: Self)
        ensures
            r@ == undefined(),
    {
        ValueType::Variable(PrimitiveTypes::Undefined)
    }
}

} // verus!
