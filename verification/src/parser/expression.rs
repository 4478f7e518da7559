//! The expressions that nodes stand for.

use crate::ast::{
    names_model, ComparisonExpression, ComparisonOperation, Expression, LogicExpression,
    MathExpression, MathOperation,
};
use crate::either::Either;
use crate::error::{Error, ErrorModel};
use crate::parser::{out_of_range, texts, unexpected, Node, Rule};
use crate::text::{integer, integer_of};
use vstd::prelude::*;

verus! {

/// The math operation of a rule.
pub open spec fn math_operation(rule: Rule) -> Option<MathOperation> {
    match rule {
        Rule::Add => Some(MathOperation::Add),
        Rule::Subtract => Some(MathOperation::Subtract),
        Rule::Multiply => Some(MathOperation::Multiply),
        Rule::Divide => Some(MathOperation::Divide),
        Rule::Modulus => Some(MathOperation::Modulus),
        Rule::Exponentiation => Some(MathOperation::Exponentiation),
        _ => None,
    }
}

/// The comparison of a rule.
pub open spec fn comparison_operation(rule: Rule) -> Option<ComparisonOperation> {
    match rule {
        Rule::Equal => Some(ComparisonOperation::Equal),
        Rule::NotEqual => Some(ComparisonOperation::NotEqual),
        Rule::Greather => Some(ComparisonOperation::GreaterThan),
        Rule::Less => Some(ComparisonOperation::LessThan),
        Rule::GreatherEq => Some(ComparisonOperation::GreaterThanOrEqual),
        Rule::LessEq => Some(ComparisonOperation::LessThanOrEqual),
        _ => None,
    }
}

/// Whether a rule is that of an operator with two operands.
pub open spec fn binary(rule: Rule) -> bool {
    math_operation(rule) is Some || comparison_operation(rule) is Some || rule is And || rule is Or
}

/// The key that the first node of an object's pair stands for: the text
/// inside a string, or the text of an identifier.
pub open spec fn key_of(node: Node) -> Seq<char> {
    if node.rule is String && node.children@.len() > 0 {
        node.children@[0].text@
    } else {
        node.text@
    }
}

/// What is wrong with a node as an expression: the error of the first
/// node, in the order of the text, that does not belong where it stands,
/// lacks what belongs inside it, or is an integer that does not fit. None
/// where the node stands for an expression.
pub open spec fn expression_defect(node: Node) -> Option<ErrorModel>
    decreases node,
{
    match node.rule {
        Rule::Null | Rule::Undefined | Rule::Ident | Rule::Namespace => None,
        Rule::Boolean => if node.text@ == "true"@ || node.text@ == "false"@ {
            None
        } else {
            Some(unexpected(node))
        },
        Rule::Number => if node.children@.len() == 0 {
            Some(unexpected(node))
        } else {
            match node.children@[0].rule {
                Rule::Integer => if integer_of(node.children@[0].text@) is Some {
                    None
                } else {
                    Some(out_of_range(node.children@[0]))
                },
                Rule::Float => None,
                _ => Some(unexpected(node.children@[0])),
            }
        },
        Rule::String => if node.children@.len() == 0 {
            Some(unexpected(node))
        } else {
            None
        },
        Rule::Array => first_defect(node.children@, 0),
        Rule::Object => first_pair_defect(node.children@, 0),
        Rule::Expr | Rule::MathExpr | Rule::LogicExpr | Rule::Not => if node.children@.len() == 0 {
            Some(unexpected(node))
        } else {
            expression_defect(node.children@[0])
        },
        _ => if binary(node.rule) {
            if node.children@.len() < 2 {
                Some(unexpected(node))
            } else {
                match expression_defect(node.children@[0]) {
                    Some(error) => Some(error),
                    None => expression_defect(node.children@[1]),
                }
            }
        } else {
            Some(unexpected(node))
        },
    }
}

/// What is wrong with a node as a math expression: it is the node of a
/// math expression, and stands for an expression.
pub open spec fn math_defect(node: Node) -> Option<ErrorModel> {
    if node.rule is MathExpr {
        expression_defect(node)
    } else {
        Some(unexpected(node))
    }
}

/// What is wrong with a node as a logic expression: it is the node of a
/// logic expression, and stands for an expression.
pub open spec fn logic_defect(node: Node) -> Option<ErrorModel> {
    if node.rule is LogicExpr {
        expression_defect(node)
    } else {
        Some(unexpected(node))
    }
}

/// What is wrong with the nodes of a list from position `from` on, as
/// expressions.
pub open spec fn first_defect(nodes: Seq<Node>, from: int) -> Option<ErrorModel>
    decreases nodes, nodes.len() - from,
{
    if from < 0 || from >= nodes.len() {
        None
    } else {
        match expression_defect(nodes[from]) {
            Some(error) => Some(error),
            None => first_defect(nodes, from + 1),
        }
    }
}

/// What is wrong with a node as a pair of an object: it needs a key, which
/// is a string or an identifier, and after it an expression.
pub open spec fn pair_defect(node: Node) -> Option<ErrorModel>
    decreases node, 0int,
{
    if node.children@.len() < 2 {
        Some(unexpected(node))
    } else if node.children@[0].rule is String {
        if node.children@[0].children@.len() == 0 {
            Some(unexpected(node.children@[0]))
        } else {
            expression_defect(node.children@[1])
        }
    } else if node.children@[0].rule is Ident {
        expression_defect(node.children@[1])
    } else {
        Some(unexpected(node.children@[0]))
    }
}

/// What is wrong with the nodes of a list from position `from` on, as
/// pairs of an object.
pub open spec fn first_pair_defect(nodes: Seq<Node>, from: int) -> Option<ErrorModel>
    decreases nodes, nodes.len() - from,
{
    if from < 0 || from >= nodes.len() {
        None
    } else {
        match pair_defect(nodes[from]) {
            Some(error) => Some(error),
            None => first_pair_defect(nodes, from + 1),
        }
    }
}

/// Whether an expression is the one that a node stands for.
///
/// A literal stands for itself: a boolean by its text, an integer by its
/// decimal text, a float by the number that came with it, a string by the
/// text inside it. An identifier stands for its name, a dotted path for the
/// names of its parts. An array stands for its entries in their order, an
/// object for its pairs in their order. The node of an operator stands
/// for the operation on what its children stand for. A node that only
/// wraps another stands for what the other stands for.
pub open spec fn is_expression(node: Node, expression: Expression) -> bool
    decreases node,
{
    match node.rule {
        Rule::Null => expression is Null,
        Rule::Undefined => expression is Undefined,
        Rule::Boolean => match expression {
            Expression::Boolean(b) => b == (node.text@ == "true"@),
            _ => false,
        },
        Rule::Number => node.children@.len() > 0 && match expression {
            Expression::Number(Either::Left(i)) => node.children@[0].rule is Integer && integer_of(
                node.children@[0].text@,
            ) == Some(i),
            Expression::Number(Either::Right(f)) => node.children@[0].rule is Float && f
                == node.children@[0].float,
            _ => false,
        },
        Rule::Ident => match expression {
            Expression::Identifier(name) => name@ == node.text@,
            _ => false,
        },
        Rule::String => node.children@.len() > 0 && match expression {
            Expression::String(text) => text@ == node.children@[0].text@,
            _ => false,
        },
        Rule::Namespace => match expression {
            Expression::Namespace(path) => names_model(path@) == texts(node.children@),
            _ => false,
        },
        Rule::Array => match expression {
            Expression::Array(items) => items@.len() == node.children@.len() && forall|i: int|
                0 <= i < node.children@.len() ==> is_expression(
                    #[trigger] node.children@[i],
                    items@[i],
                ),
            _ => false,
        },
        Rule::Object => match expression {
            Expression::Object(entries) => entries@.len() == node.children@.len() && forall|i: int|
                0 <= i < node.children@.len() ==> is_pair(#[trigger] node.children@[i], entries@[i]),
            _ => false,
        },
        Rule::Expr | Rule::MathExpr | Rule::LogicExpr => node.children@.len() > 0 && is_expression(
            node.children@[0],
            expression,
        ),
        Rule::Not => node.children@.len() > 0 && match expression {
            Expression::LogicExpression(LogicExpression::Not { expr }) => is_expression(
                node.children@[0],
                *expr,
            ),
            _ => false,
        },
        Rule::And => node.children@.len() >= 2 && match expression {
            Expression::LogicExpression(LogicExpression::And { left, right }) => is_expression(
                node.children@[0],
                *left,
            ) && is_expression(node.children@[1], *right),
            _ => false,
        },
        Rule::Or => node.children@.len() >= 2 && match expression {
            Expression::LogicExpression(LogicExpression::Or { left, right }) => is_expression(
                node.children@[0],
                *left,
            ) && is_expression(node.children@[1], *right),
            _ => false,
        },
        _ => node.children@.len() >= 2 && match expression {
            Expression::MathExpression(MathExpression::Operation { left, operation, right }) => {
                math_operation(node.rule) == Some(operation) && is_expression(
                    node.children@[0],
                    *left,
                ) && is_expression(node.children@[1], *right)
            },
            Expression::ComparisonExpression(comparison) => comparison_operation(node.rule) == Some(
                comparison.operation,
            ) && is_expression(node.children@[0], *comparison.left) && is_expression(
                node.children@[1],
                *comparison.right,
            ),
            _ => false,
        },
    }
}

/// Whether an entry of an object literal is the one that a pair stands
/// for.
pub open spec fn is_pair(node: Node, entry: (String, Expression)) -> bool
    decreases node, 0int,
{
    node.children@.len() >= 2 && entry.0@ == key_of(node.children@[0]) && is_expression(
        node.children@[1],
        entry.1,
    )
}

/// The math operation of a rule.
pub fn math_operation_of(rule: Rule) -> (r: Option<MathOperation>)
    ensures
        r == math_operation(rule),
{
    match rule {
        Rule::Add => Some(MathOperation::Add),
        Rule::Subtract => Some(MathOperation::Subtract),
        Rule::Multiply => Some(MathOperation::Multiply),
        Rule::Divide => Some(MathOperation::Divide),
        Rule::Modulus => Some(MathOperation::Modulus),
        Rule::Exponentiation => Some(MathOperation::Exponentiation),
        _ => None,
    }
}

/// The comparison of a rule.
pub fn comparison_operation_of(rule: Rule) -> (r: Option<ComparisonOperation>)
    ensures
        r == comparison_operation(rule),
{
    match rule {
        Rule::Equal => Some(ComparisonOperation::Equal),
        Rule::NotEqual => Some(ComparisonOperation::NotEqual),
        Rule::Greather => Some(ComparisonOperation::GreaterThan),
        Rule::Less => Some(ComparisonOperation::LessThan),
        Rule::GreatherEq => Some(ComparisonOperation::GreaterThanOrEqual),
        Rule::LessEq => Some(ComparisonOperation::LessThanOrEqual),
        _ => None,
    }
}

/// Whether a text is a given word.
fn is_word(text: &String, word: &str) -> (r: bool)
    ensures
        r == (text@ == word@),
{
    *text == word.to_owned()
}

/// The entry of an object literal that a pair stands for.
fn parse_pair(node: &Node) -> (r: Result<(String, Expression), Error>)
    ensures
        match r {
            Ok(entry) => pair_defect(*node) is None && is_pair(*node, entry),
            Err(error) => pair_defect(*node) == Some(error@),
        },
    decreases *node, 0int,
{
    if node.children.len() < 2 {
        return Err(node.unexpected());
    }
    let first = &node.children[0];
    let key = match first.rule {
        Rule::String => {
            if first.children.len() == 0 {
                return Err(first.unexpected());
            }
            first.children[0].text.clone()
        },
        Rule::Ident => first.text.clone(),
        _ => {
            return Err(first.unexpected());
        },
    };
    assert(decreases_to!(*node => node.children));
    assert(decreases_to!(node.children => node.children[1]));
    match parse(&node.children[1]) {
        Ok(value) => Ok((key, value)),
        Err(error) => Err(error),
    }
}

/// The operand of an operator at a position.
fn parse_operand(node: &Node, at: usize) -> (r: Result<Expression, Error>)
    requires
        at < node.children@.len(),
    ensures
        match r {
            Ok(expression) => expression_defect(node.children@[at as int]) is None && is_expression(
                node.children@[at as int],
                expression,
            ),
            Err(error) => expression_defect(node.children@[at as int]) == Some(error@),
        },
    decreases *node, 0int,
{
    assert(decreases_to!(*node => node.children));
    assert(decreases_to!(node.children => node.children[at as int]));
    parse(&node.children[at])
}

/// The expression that a node stands for, or the error of what is wrong
/// with the node.
pub fn parse(node: &Node) -> (r: Result<Expression, Error>)
    ensures
        match r {
            Ok(expression) => expression_defect(*node) is None && is_expression(*node, expression),
            Err(error) => expression_defect(*node) == Some(error@),
        },
    decreases *node, 2int,
{
    match node.rule {
        Rule::Null => Ok(Expression::Null),
        Rule::Undefined => Ok(Expression::Undefined),
        Rule::Boolean => {
            if is_word(&node.text, "true") {
                Ok(Expression::Boolean(true))
            } else if is_word(&node.text, "false") {
                Ok(Expression::Boolean(false))
            } else {
                Err(node.unexpected())
            }
        },
        Rule::Number => {
            if node.children.len() == 0 {
                return Err(node.unexpected());
            }
            let inner = &node.children[0];
            match inner.rule {
                Rule::Integer => match integer(inner.text.as_str()) {
                    Some(value) => Ok(Expression::Number(Either::Left(value))),
                    None => Err(inner.out_of_range()),
                },
                Rule::Float => Ok(Expression::Number(Either::Right(inner.float))),
                _ => Err(inner.unexpected()),
            }
        },
        Rule::Ident => Ok(Expression::Identifier(node.text.clone())),
        Rule::String => {
            if node.children.len() == 0 {
                return Err(node.unexpected());
            }
            Ok(Expression::String(node.children[0].text.clone()))
        },
        Rule::Namespace => Ok(Expression::Namespace(node.names())),
        Rule::Array => {
            let mut array: Vec<Expression> = Vec::new();
            let mut i: usize = 0;
            while i < node.children.len()
                invariant
                    node.rule is Array,
                    i <= node.children@.len(),
                    array@.len() == i,
                    first_defect(node.children@, 0) == first_defect(node.children@, i as int),
                    forall|j: int|
                        0 <= j < i ==> is_expression(#[trigger] node.children@[j], array@[j]),
                decreases node.children@.len() - i,
            {
                match parse_operand(node, i) {
                    Ok(item) => {
                        array.push(item);
                    },
                    Err(error) => {
                        return Err(error);
                    },
                }
                i += 1;
            }
            Ok(Expression::Array(array))
        },
        Rule::Object => {
            let mut object: Vec<(String, Expression)> = Vec::new();
            let mut i: usize = 0;
            while i < node.children.len()
                invariant
                    node.rule is Object,
                    i <= node.children@.len(),
                    object@.len() == i,
                    first_pair_defect(node.children@, 0) == first_pair_defect(
                        node.children@,
                        i as int,
                    ),
                    forall|j: int| 0 <= j < i ==> is_pair(#[trigger] node.children@[j], object@[j]),
                decreases node.children@.len() - i,
            {
                assert(decreases_to!(*node => node.children));
                assert(decreases_to!(node.children => node.children[i as int]));
                match parse_pair(&node.children[i]) {
                    Ok(entry) => {
                        object.push(entry);
                    },
                    Err(error) => {
                        return Err(error);
                    },
                }
                i += 1;
            }
            Ok(Expression::Object(object))
        },
        Rule::Expr => {
            if node.children.len() == 0 {
                return Err(node.unexpected());
            }
            parse_operand(node, 0)
        },
        Rule::MathExpr => parse_math_expression(node),
        Rule::LogicExpr => parse_logic_expression(node),
        Rule::Not => {
            if node.children.len() == 0 {
                return Err(node.unexpected());
            }
            match parse_operand(node, 0) {
                Ok(operand) => Ok(
                    Expression::LogicExpression(LogicExpression::Not { expr: Box::new(operand) }),
                ),
                Err(error) => Err(error),
            }
        },
        rule => {
            let math = math_operation_of(rule);
            let comparison = comparison_operation_of(rule);
            let logic = match rule {
                Rule::And => true,
                Rule::Or => true,
                _ => false,
            };
            if math.is_none() && comparison.is_none() && !logic {
                return Err(node.unexpected());
            }
            if node.children.len() < 2 {
                return Err(node.unexpected());
            }
            let left = match parse_operand(node, 0) {
                Ok(left) => Box::new(left),
                Err(error) => {
                    return Err(error);
                },
            };
            let right = match parse_operand(node, 1) {
                Ok(right) => Box::new(right),
                Err(error) => {
                    return Err(error);
                },
            };
            match (math, comparison) {
                (Some(operation), _) => Ok(
                    Expression::MathExpression(MathExpression::Operation { left, operation, right }),
                ),
                (None, Some(operation)) => Ok(
                    Expression::ComparisonExpression(
                        ComparisonExpression { left, operation, right },
                    ),
                ),
                (None, None) => match rule {
                    Rule::And => Ok(
                        Expression::LogicExpression(LogicExpression::And { left, right }),
                    ),
                    _ => Ok(Expression::LogicExpression(LogicExpression::Or { left, right })),
                },
            }
        },
    }
}

/// The expression that the node of a math expression stands for: what the
/// tree of its operators stands for. A node of any other rule is an error.
pub fn parse_math_expression(node: &Node) -> (r: Result<Expression, Error>)
    ensures
        match r {
            Ok(expression) => math_defect(*node) is None && is_expression(*node, expression),
            Err(error) => math_defect(*node) == Some(error@),
        },
    decreases *node, 1int,
{
    match node.rule {
        Rule::MathExpr => {},
        _ => {
            return Err(node.unexpected());
        },
    }
    if node.children.len() == 0 {
        return Err(node.unexpected());
    }
    parse_operand(node, 0)
}

/// The expression that the node of a logic expression stands for: what the
/// tree of its operators stands for. A node of any other rule is an error.
pub fn parse_logic_expression(node: &Node) -> (r: Result<Expression, Error>)
    ensures
        match r {
            Ok(expression) => logic_defect(*node) is None && is_expression(*node, expression),
            Err(error) => logic_defect(*node) == Some(error@),
        },
    decreases *node, 1int,
{
    match node.rule {
        Rule::LogicExpr => {},
        _ => {
            return Err(node.unexpected());
        },
    }
    if node.children.len() == 0 {
        return Err(node.unexpected());
    }
    parse_operand(node, 0)
}

} // verus!
