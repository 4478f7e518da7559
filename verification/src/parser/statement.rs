//! The statements that nodes stand for.

use crate::ast;
use crate::ast::{names_model, Expression, Statement};
use crate::either::Either;
use crate::error::{Error, ErrorModel};
use crate::parser::expression::{expression_defect, is_expression};
use crate::parser::{block_defect, is_block, parse_block, texts, unexpected, Node, Rule};
use std::rc::Rc;
use vstd::prelude::*;

verus! {

/// What is wrong with a node as the value of an assignment or as an
/// argument of a call: it wraps an expression or a statement.
pub open spec fn argument_defect(node: Node) -> Option<ErrorModel>
    decreases node, 1int,
{
    if !(node.rule is Expr || node.rule is Stmt) || node.children@.len() == 0 {
        Some(unexpected(node))
    } else if node.rule is Expr {
        expression_defect(node.children@[0])
    } else {
        statement_defect(node.children@[0])
    }
}

/// What is wrong with the nodes of a list from position `from` on, as
/// arguments of a call.
pub open spec fn first_argument_defect(nodes: Seq<Node>, from: int) -> Option<ErrorModel>
    decreases nodes, nodes.len() - from,
{
    if from < 0 || from >= nodes.len() {
        None
    } else {
        match argument_defect(nodes[from]) {
            Some(error) => Some(error),
            None => first_argument_defect(nodes, from + 1),
        }
    }
}

/// What is wrong with the nodes of a conditional from position `from` on:
/// pairs of a condition and a block, and after them at most one block.
pub open spec fn clauses_defect(nodes: Seq<Node>, from: int) -> Option<ErrorModel>
    decreases nodes, nodes.len() - from,
{
    if from < 0 || from >= nodes.len() {
        None
    } else if from == nodes.len() - 1 {
        block_defect(nodes[from])
    } else if !(nodes[from].rule is LogicExpr) {
        Some(unexpected(nodes[from]))
    } else {
        match expression_defect(nodes[from]) {
            Some(error) => Some(error),
            None => match block_defect(nodes[from + 1]) {
                Some(error) => Some(error),
                None => clauses_defect(nodes, from + 2),
            },
        }
    }
}

/// What is wrong with a node as a condition: it wraps an expression.
pub open spec fn condition_defect(node: Node) -> Option<ErrorModel>
    decreases node, 1int,
{
    if node.children@.len() == 0 {
        Some(unexpected(node))
    } else {
        expression_defect(node.children@[0])
    }
}

/// What is wrong with a node as a statement: the error of the first node,
/// in the order of the text, that does not belong where it stands, lacks
/// what belongs inside it, or is an integer that does not fit. None where
/// the node stands for a statement.
pub open spec fn statement_defect(node: Node) -> Option<ErrorModel>
    decreases node, 2int,
{
    match node.rule {
        Rule::Assign => if node.children@.len() < 2 {
            Some(unexpected(node))
        } else {
            argument_defect(node.children@[1])
        },
        Rule::FunctionCall => if node.children@.len() == 0 {
            Some(unexpected(node))
        } else {
            match expression_defect(node.children@[0]) {
                Some(error) => Some(error),
                None => first_argument_defect(node.children@, 1),
            }
        },
        Rule::FunctionDef => if node.children@.len() < 2 {
            Some(unexpected(node))
        } else if node.children@[1].rule is NameList {
            if node.children@.len() < 3 {
                Some(unexpected(node))
            } else {
                block_defect(node.children@[2])
            }
        } else {
            block_defect(node.children@[1])
        },
        Rule::ModuleDef => if node.children@.len() < 2 {
            Some(unexpected(node))
        } else {
            block_defect(node.children@[1])
        },
        Rule::ImportStatement => if node.children@.len() < 2 {
            Some(unexpected(node))
        } else if node.children@[0].children@.len() == 0 {
            Some(unexpected(node.children@[0]))
        } else {
            None
        },
        Rule::IfStatement => if node.children@.len() < 2 {
            Some(unexpected(node))
        } else {
            match condition_defect(node.children@[0]) {
                Some(error) => Some(error),
                None => match block_defect(node.children@[1]) {
                    Some(error) => Some(error),
                    None => clauses_defect(node.children@, 2),
                },
            }
        },
        Rule::WhileStatement => if node.children@.len() < 2 {
            Some(unexpected(node))
        } else {
            match condition_defect(node.children@[0]) {
                Some(error) => Some(error),
                None => block_defect(node.children@[1]),
            }
        },
        _ => Some(unexpected(node)),
    }
}

/// Whether the value of an assignment, or an argument of a call, is the
/// one that a node stands for.
pub open spec fn is_argument(node: Node, argument: Either<Expression, Rc<Statement>>) -> bool
    decreases node, 1int,
{
    node.children@.len() > 0 && match argument {
        Either::Left(expression) => node.rule is Expr && is_expression(
            node.children@[0],
            expression,
        ),
        Either::Right(statement) => node.rule is Stmt && is_statement(
            node.children@[0],
            *statement,
        ),
    }
}

/// The number of `else if` clauses among the children of a conditional.
pub open spec fn clauses(node: Node) -> int {
    (node.children@.len() - 2) / 2
}

/// Whether the children of a conditional end with an `else` block.
pub open spec fn has_else(node: Node) -> bool {
    (node.children@.len() - 2) % 2 == 1
}

/// Whether a statement is the one that a node stands for.
///
/// An assignment has the names of its targets and, as its value, an
/// expression or a statement. A call has its callee and its arguments in
/// their order. A function definition has its name, the names of its
/// parameters, where there are any, and its body. A module definition has
/// its name and its body, an import the text inside its path and its name.
/// A conditional has its condition and block, then its `else if` clauses
/// in their order, then its `else` block where the number of what follows
/// the first block is odd. A loop has its condition and its body.
pub open spec fn is_statement(node: Node, statement: Statement) -> bool
    decreases node, 2int,
{
    match statement {
        Statement::Assignment { left, right } => node.rule is Assign && node.children@.len() >= 2
            && names_model(left@) == texts(node.children@[0].children@) && is_argument(
            node.children@[1],
            right,
        ),
        Statement::FunctionCall { expression, arguments } => node.rule is FunctionCall
            && node.children@.len() >= 1 && is_expression(node.children@[0], expression)
            && arguments@.len() == node.children@.len() - 1 && forall|i: int|
            0 <= i < arguments@.len() ==> is_argument(
                node.children@[i + 1],
                #[trigger] arguments@[i],
            ),
        Statement::FunctionDefinition { name, parameters, body } => node.rule is FunctionDef
            && node.children@.len() >= 2 && name@ == node.children@[0].text@ && if node.children@[1].rule is NameList {
            node.children@.len() >= 3 && names_model(parameters@) == texts(
                node.children@[1].children@,
            ) && is_block(node.children@[2], *body)
        } else {
            parameters@.len() == 0 && is_block(node.children@[1], *body)
        },
        Statement::ModuleDefinition { name, body } => node.rule is ModuleDef
            && node.children@.len() >= 2 && name@ == node.children@[0].text@ && is_block(
            node.children@[1],
            *body,
        ),
        Statement::Import { path, ident } => node.rule is ImportStatement && node.children@.len()
            >= 2 && node.children@[0].children@.len() > 0 && path@
            == node.children@[0].children@[0].text@ && ident@ == node.children@[1].text@,
        Statement::If { condition, body, else_if, else_body } => node.rule is IfStatement
            && node.children@.len() >= 2 && node.children@[0].children@.len() > 0 && is_expression(
            node.children@[0].children@[0],
            condition,
        ) && is_block(node.children@[1], *body) && else_if@.len() == clauses(node) && (forall|
            i: int,
        |
            0 <= i < clauses(node) ==> is_expression(
                node.children@[2 + 2 * i],
                (#[trigger] else_if@[i]).0,
            ) && is_block(node.children@[3 + 2 * i], *else_if@[i].1)) && match else_body {
            Some(block) => has_else(node) && is_block(
                node.children@[node.children@.len() - 1],
                *block,
            ),
            None => !has_else(node),
        },
        Statement::While { condition, body } => node.rule is WhileStatement && node.children@.len()
            >= 2 && node.children@[0].children@.len() > 0 && is_expression(
            node.children@[0].children@[0],
            condition,
        ) && is_block(node.children@[1], *body),
    }
}

/// The value of an assignment, or the argument of a call, that the child
/// of a node at a position stands for.
fn parse_argument(node: &Node, at: usize) -> (r: Result<Either<Expression, Rc<Statement>>, Error>)
    requires
        at < node.children@.len(),
    ensures
        match r {
            Ok(argument) => argument_defect(node.children@[at as int]) is None && is_argument(
                node.children@[at as int],
                argument,
            ),
            Err(error) => argument_defect(node.children@[at as int]) == Some(error@),
        },
    decreases *node, 0int,
{
    let child = &node.children[at];
    assert(decreases_to!(*node => node.children));
    assert(decreases_to!(node.children => node.children[at as int]));
    match child.rule {
        Rule::Expr => {
            if child.children.len() == 0 {
                return Err(child.unexpected());
            }
            match crate::parser::expression::parse(&child.children[0]) {
                Ok(expression) => Ok(Either::Left(expression)),
                Err(error) => Err(error),
            }
        },
        Rule::Stmt => {
            if child.children.len() == 0 {
                return Err(child.unexpected());
            }
            assert(decreases_to!(*child => child.children));
            assert(decreases_to!(child.children => child.children[0]));
            match parse(&child.children[0]) {
                Ok(statement) => Ok(Either::Right(Rc::new(statement))),
                Err(error) => Err(error),
            }
        },
        _ => Err(child.unexpected()),
    }
}

/// The condition that the child of a node at a position stands for.
fn parse_condition(node: &Node, at: usize) -> (r: Result<Expression, Error>)
    requires
        at < node.children@.len(),
    ensures
        match r {
            Ok(condition) => condition_defect(node.children@[at as int]) is None
                && node.children@[at as int].children@.len() > 0 && is_expression(
                node.children@[at as int].children@[0],
                condition,
            ),
            Err(error) => condition_defect(node.children@[at as int]) == Some(error@),
        },
{
    let child = &node.children[at];
    if child.children.len() == 0 {
        return Err(child.unexpected());
    }
    crate::parser::expression::parse(&child.children[0])
}

/// The block that the child of a node at a position stands for.
fn parse_body(node: &Node, at: usize) -> (r: Result<Rc<ast::Block>, Error>)
    requires
        at < node.children@.len(),
    ensures
        match r {
            Ok(block) => block_defect(node.children@[at as int]) is None && is_block(
                node.children@[at as int],
                *block,
            ),
            Err(error) => block_defect(node.children@[at as int]) == Some(error@),
        },
    decreases *node, 0int,
{
    assert(decreases_to!(*node => node.children));
    assert(decreases_to!(node.children => node.children[at as int]));
    parse_block(&node.children[at])
}

/// The statement that a node stands for, or the error of what is wrong
/// with the node.
pub fn parse(node: &Node) -> (r: Result<Statement, Error>)
    ensures
        match r {
            Ok(statement) => statement_defect(*node) is None && is_statement(*node, statement),
            Err(error) => statement_defect(*node) == Some(error@),
        },
    decreases *node, 1int,
{
    match node.rule {
        Rule::Assign => {
            if node.children.len() < 2 {
                return Err(node.unexpected());
            }
            let left = node.children[0].names();
            match parse_argument(node, 1) {
                Ok(right) => Ok(Statement::Assignment { left, right }),
                Err(error) => Err(error),
            }
        },
        Rule::FunctionCall => {
            if node.children.len() == 0 {
                return Err(node.unexpected());
            }
            let expression = match crate::parser::expression::parse(&node.children[0]) {
                Ok(expression) => expression,
                Err(error) => {
                    return Err(error);
                },
            };
            let mut arguments: Vec<Either<Expression, Rc<Statement>>> = Vec::new();
            let mut i: usize = 1;
            while i < node.children.len()
                invariant
                    node.rule is FunctionCall,
                    expression_defect(node.children@[0]) is None,
                    1 <= i <= node.children@.len(),
                    arguments@.len() == i - 1,
                    first_argument_defect(node.children@, 1) == first_argument_defect(
                        node.children@,
                        i as int,
                    ),
                    forall|j: int|
                        0 <= j < i - 1 ==> is_argument(
                            node.children@[j + 1],
                            #[trigger] arguments@[j],
                        ),
                decreases node.children@.len() - i,
            {
                match parse_argument(node, i) {
                    Ok(argument) => {
                        arguments.push(argument);
                    },
                    Err(error) => {
                        return Err(error);
                    },
                }
                i += 1;
            }
            Ok(Statement::FunctionCall { expression, arguments })
        },
        Rule::FunctionDef => {
            if node.children.len() < 2 {
                return Err(node.unexpected());
            }
            let name = node.children[0].text.clone();
            match node.children[1].rule {
                Rule::NameList => {
                    if node.children.len() < 3 {
                        return Err(node.unexpected());
                    }
                    let parameters = node.children[1].names();
                    match parse_body(node, 2) {
                        Ok(body) => Ok(Statement::FunctionDefinition { name, parameters, body }),
                        Err(error) => Err(error),
                    }
                },
                _ => match parse_body(node, 1) {
                    Ok(body) => Ok(
                        Statement::FunctionDefinition { name, parameters: Vec::new(), body },
                    ),
                    Err(error) => Err(error),
                },
            }
        },
        Rule::ModuleDef => {
            if node.children.len() < 2 {
                return Err(node.unexpected());
            }
            let name = node.children[0].text.clone();
            match parse_body(node, 1) {
                Ok(body) => Ok(Statement::ModuleDefinition { name, body }),
                Err(error) => Err(error),
            }
        },
        Rule::ImportStatement => {
            if node.children.len() < 2 {
                return Err(node.unexpected());
            }
            if node.children[0].children.len() == 0 {
                return Err(node.children[0].unexpected());
            }
            Ok(
                Statement::Import {
                    path: node.children[0].children[0].text.clone(),
                    ident: node.children[1].text.clone(),
                },
            )
        },
        Rule::IfStatement => {
            if node.children.len() < 2 {
                return Err(node.unexpected());
            }
            let condition = match parse_condition(node, 0) {
                Ok(condition) => condition,
                Err(error) => {
                    return Err(error);
                },
            };
            let body = match parse_body(node, 1) {
                Ok(body) => body,
                Err(error) => {
                    return Err(error);
                },
            };
            let count = node.children.len();
            let mut else_if: Vec<(Expression, Rc<ast::Block>)> = Vec::new();
            let mut i: usize = 2;
            while i + 1 < count
                invariant
                    node.rule is IfStatement,
                    condition_defect(node.children@[0]) is None,
                    block_defect(node.children@[1]) is None,
                    count == node.children@.len(),
                    2 <= i <= count,
                    i == 2 + 2 * else_if@.len(),
                    clauses_defect(node.children@, 2) == clauses_defect(node.children@, i as int),
                    forall|j: int|
                        0 <= j < else_if@.len() ==> is_expression(
                            node.children@[2 + 2 * j],
                            (#[trigger] else_if@[j]).0,
                        ) && is_block(node.children@[3 + 2 * j], *else_if@[j].1),
                decreases count - i,
            {
                // an else-if clause
                match node.children[i].rule {
                    Rule::LogicExpr => {},
                    _ => {
                        return Err(node.children[i].unexpected());
                    },
                }
                assert(decreases_to!(*node => node.children));
                assert(decreases_to!(node.children => node.children[i as int]));
                let condition = match crate::parser::expression::parse(&node.children[i]) {
                    Ok(condition) => condition,
                    Err(error) => {
                        return Err(error);
                    },
                };
                let block = match parse_body(node, i + 1) {
                    Ok(block) => block,
                    Err(error) => {
                        return Err(error);
                    },
                };
                else_if.push((condition, block));
                i += 2;
            }
            // the else block
            let else_body = if i < count {
                match parse_body(node, i) {
                    Ok(block) => Some(block),
                    Err(error) => {
                        return Err(error);
                    },
                }
            } else {
                None
            };
            Ok(Statement::If { condition, body, else_if, else_body })
        },
        Rule::WhileStatement => {
            if node.children.len() < 2 {
                return Err(node.unexpected());
            }
            let condition = match parse_condition(node, 0) {
                Ok(condition) => condition,
                Err(error) => {
                    return Err(error);
                },
            };
            match parse_body(node, 1) {
                Ok(body) => Ok(Statement::While { condition, body }),
                Err(error) => Err(error),
            }
        },
        _ => Err(node.unexpected()),
    }
}

} // verus!
