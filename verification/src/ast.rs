//! The syntax tree that the evaluator runs.
//!
//! Blocks and statements are shared (`Rc`): the machine keeps hold of the
//! code it has yet to run, and a function value keeps hold of its body.

use crate::either::Either;
use crate::number::Float;
use std::rc::Rc;
use vstd::prelude::*;

verus! {

/// A parsed program.
#[derive(Debug)]
pub enum ASTNode {
    Block(Rc<Block>),
}

/// A sequence of statements and the terminal that gives the block's value.
#[derive(Debug)]
pub struct Block(pub Vec<Rc<Statement>>, pub ReturnStatement);

#[derive(Debug)]
pub enum Statement {
    /// Binds the value of `right` to every name of `left`.
    Assignment { left: Vec<String>, right: Either<Expression, Rc<Statement>> },
    /// Defines a function in the current scope.
    FunctionDefinition { name: String, parameters: Vec<String>, body: Rc<Block> },
    /// Calls what `expression` evaluates to.
    FunctionCall { expression: Expression, arguments: Vec<Either<Expression, Rc<Statement>>> },
    /// Runs `body` in a scope of its own and binds the scope as a module.
    ModuleDefinition { name: String, body: Rc<Block> },
    If {
        condition: Expression,
        body: Rc<Block>,
        else_if: Vec<(Expression, Rc<Block>)>,
        else_body: Option<Rc<Block>>,
    },
    While { condition: Expression, body: Rc<Block> },
    /// Runs the program in the file at `path` and binds its global scope as
    /// the module `ident`.
    Import { path: String, ident: String },
}

#[derive(Debug)]
pub enum Expression {
    Null,
    Undefined,
    Boolean(bool),
    Number(Either<isize, Float>),
    String(String),
    /// The entries of an object literal, in source order. Where a key
    /// occurs twice, the later entry stands.
    Object(Vec<(String, Expression)>),
    Array(Vec<Expression>),
    Identifier(String),
    /// A dotted path `a.b.c`.
    Namespace(Vec<String>),
    MathExpression(MathExpression),
    LogicExpression(LogicExpression),
    ComparisonExpression(ComparisonExpression),
}

#[derive(Debug)]
pub enum MathExpression {
    Number(Either<isize, Float>),
    Operation { left: Box<Expression>, operation: MathOperation, right: Box<Expression> },
}

#[derive(Clone, Copy, Debug, PartialEq, Eq, Structural)]
pub enum MathOperation {
    Add,
    Subtract,
    Multiply,
    Divide,
    Modulus,
    Exponentiation,
}

#[derive(Debug)]
pub enum LogicExpression {
    Not { expr: Box<Expression> },
    And { left: Box<Expression>, right: Box<Expression> },
    Or { left: Box<Expression>, right: Box<Expression> },
    Boolean(bool),
}

#[derive(Debug)]
pub struct ComparisonExpression {
    pub left: Box<Expression>,
    pub operation: ComparisonOperation,
    pub right: Box<Expression>,
}

#[derive(Clone, Copy, Debug, PartialEq, Eq, Structural)]
pub enum ComparisonOperation {
    Equal,
    NotEqual,
    GreaterThan,
    GreaterThanOrEqual,
    LessThan,
    LessThanOrEqual,
}

/// The terminal of a block.
#[derive(Debug)]
pub enum ReturnStatement {
    /// The block's value is the value of the expression.
    Return(Expression),
    /// The block's value is undefined. No loop is left early.
    Break,
    /// The block's value is undefined. No iteration is skipped.
    Continue,
}

/// The views of a list of names.
pub open spec fn names_model(names: Seq<String>) -> Seq<Seq<char>> {
    Seq::new(names.len(), |i: int| names[i]@)
}

/// A copy of a list of names.
pub fn copy_names(names: &Vec<String>) -> (r: Vec<String>)
    ensures
        names_model(r@) == names_model(names@),
{
    let mut out: Vec<String> = Vec::new();
    let mut i: usize = 0;
    while i < names.len()
        invariant
            i <= names.len(),
            out@.len() == i,
            forall|j: int| 0 <= j < i ==> out@[j]@ == names@[j]@,
        decreases names.len() - i,
    {
        out.push(names[i].clone());
        i += 1;
    }
    assert(names_model(out@) =~= names_model(names@));
    out
}

/// A second handle on a shared node: `Rc::clone`, which copies the pointer
/// and leaves the node as it is.
#[verifier::external_body]
pub(crate) fn share<T>(node: &Rc<T>) -> (r: Rc<T>)
    ensures
        r == *node,
{
    Rc::clone(node)
}

} // verus!
