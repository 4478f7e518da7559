//! From the tree that the parser of the grammar gives to the syntax tree
//! that the evaluator runs.
//!
//! The parser of the grammar matches the text of a program against the
//! rules of the grammar and gives a tree of nodes: each node has the rule
//! that it matched, the text that it matched, and the nodes of the rules
//! that were matched inside it. In a math or logic expression it has put
//! the operators in the order of their precedence: the node of a binary
//! operator has the two operands as its children, the node of `not` its one
//! operand.

pub mod expression;
pub mod statement;

use crate::ast::{ASTNode, Block, Expression, ReturnStatement, Statement};
use crate::error::{Error, ErrorKindModel, ErrorModel, SyntaxError, SyntaxErrorModel};
use crate::number::Float;
use std::rc::Rc;
use vstd::prelude::*;

verus! {

/// The rules of the grammar.
#[derive(Clone, Copy, Debug, PartialEq, Eq, Structural)]
pub enum Rule {
    Program,
    Block,
    Stmt,
    ReturnStatement,
    Break,
    Continue,
    Assign,
    VarList,
    FunctionCall,
    FunctionDef,
    NameList,
    ModuleDef,
    ImportStatement,
    IfStatement,
    WhileStatement,
    Expr,
    LogicExpr,
    MathExpr,
    Null,
    Undefined,
    Boolean,
    Number,
    Integer,
    Float,
    Ident,
    String,
    Inner,
    Object,
    Pair,
    Array,
    Namespace,
    Add,
    Subtract,
    Multiply,
    Divide,
    Modulus,
    Exponentiation,
    And,
    Or,
    Not,
    GreatherEq,
    LessEq,
    Greather,
    Less,
    Equal,
    NotEqual,
}

/// A node of the tree that the parser of the grammar gives.
#[derive(Debug)]
pub struct Node {
    pub rule: Rule,
    /// The text that the rule has matched.
    pub text: String,
    /// For a float literal, the number that the text stands for.
    pub float: Float,
    /// The line of the text, counted from 1.
    pub line: usize,
    /// The column of the text, counted from 1.
    pub column: usize,
    /// The nodes of the rules that were matched inside this one.
    pub children: Vec<Node>,
}

/// The error for a node that does not belong where it stands, or that
/// lacks what belongs inside it.
pub open spec fn unexpected(node: Node) -> ErrorModel {
    ErrorModel {
        message: "unexpected syntax"@,
        kind: ErrorKindModel::Syntax(
            SyntaxErrorModel { line: node.text@, line_pos: node.line, column_pos: node.column },
        ),
    }
}

/// The error for an integer literal that does not fit the machine's
/// integer.
pub open spec fn out_of_range(node: Node) -> ErrorModel {
    ErrorModel {
        message: "integer literal out of range"@,
        kind: ErrorKindModel::Syntax(
            SyntaxErrorModel { line: node.text@, line_pos: node.line, column_pos: node.column },
        ),
    }
}

/// The texts of the nodes of a list.
pub open spec fn texts(nodes: Seq<Node>) -> Seq<Seq<char>> {
    Seq::new(nodes.len(), |i: int| nodes[i].text@)
}

impl Node {
    /// The error for this node where it does not belong where it stands.
    pub fn unexpected(&self) -> (r: Error)
        ensures
            r@ == unexpected(*self),
    {
        Error::syntax("unexpected syntax", SyntaxError::new(self.text.as_str(), self.line, self.column))
    }

    /// The error for this node where it is an integer literal that does not
    /// fit.
    pub fn out_of_range(&self) -> (r: Error)
        ensures
            r@ == out_of_range(*self),
    {
        Error::syntax(
            "integer literal out of range",
            SyntaxError::new(self.text.as_str(), self.line, self.column),
        )
    }

    /// The texts of the children.
    pub fn names(&self) -> (r: Vec<String>)
        ensures
            crate::ast::names_model(r@) == texts(self.children@),
    {
        let mut names: Vec<String> = Vec::new();
        let mut i: usize = 0;
        while i < self.children.len()
            invariant
                i <= self.children@.len(),
                names@.len() == i,
                forall|j: int| 0 <= j < i ==> names@[j]@ == self.children@[j].text@,
            decreases self.children@.len() - i,
        {
            names.push(self.children[i].text.clone());
            i += 1;
        }
        assert(crate::ast::names_model(names@) =~= texts(self.children@));
        names
    }
}

/// The number of statements among the children of a block: all the
/// children but a return statement at the end.
pub open spec fn statements(node: Node) -> int {
    if node.children@.len() > 0 && node.children@.last().rule is ReturnStatement {
        node.children@.len() - 1
    } else {
        node.children@.len() as int
    }
}

/// What is wrong with a node as a statement of a block or as its return
/// statement, which must be the last child of the block.
pub open spec fn member_defect(node: Node, last: bool) -> Option<ErrorModel>
    decreases node, 1int,
{
    if node.rule is Stmt {
        if node.children@.len() == 0 {
            Some(unexpected(node))
        } else {
            statement::statement_defect(node.children@[0])
        }
    } else if node.rule is ReturnStatement && last {
        if node.children@.len() == 0 {
            Some(unexpected(node))
        } else if node.children@[0].rule is Expr {
            expression::expression_defect(node.children@[0])
        } else if node.children@[0].text@ == "break"@ || node.children@[0].text@ == "continue"@ {
            None
        } else {
            Some(unexpected(node.children@[0]))
        }
    } else {
        Some(unexpected(node))
    }
}

/// What is wrong with the children of a block from position `from` on.
pub open spec fn first_member_defect(nodes: Seq<Node>, from: int) -> Option<ErrorModel>
    decreases nodes, nodes.len() - from,
{
    if from < 0 || from >= nodes.len() {
        None
    } else {
        match member_defect(nodes[from], from == nodes.len() - 1) {
            Some(error) => Some(error),
            None => first_member_defect(nodes, from + 1),
        }
    }
}

/// What is wrong with a node as a block: the error of the first node, in
/// the order of the text, that does not belong where it stands, lacks what
/// belongs inside it, or is an integer that does not fit. None where the
/// node stands for a block.
pub open spec fn block_defect(node: Node) -> Option<ErrorModel>
    decreases node, 3int,
{
    if node.rule is Block {
        first_member_defect(node.children@, 0)
    } else {
        Some(unexpected(node))
    }
}

/// Whether a terminal is the one that a return statement stands for.
pub open spec fn is_terminal(node: Node, terminal: ReturnStatement) -> bool {
    node.children@.len() > 0 && match terminal {
        ReturnStatement::Return(expression) => node.children@[0].rule is Expr
            && expression::is_expression(node.children@[0], expression),
        ReturnStatement::Break => !(node.children@[0].rule is Expr) && node.children@[0].text@
            == "break"@,
        ReturnStatement::Continue => !(node.children@[0].rule is Expr) && node.children@[0].text@
            != "break"@ && node.children@[0].text@ == "continue"@,
    }
}

/// Whether a block is the one that a node stands for: its statements are
/// those of the node, in their order, and its terminal is that of the
/// return statement at the end; where there is none, the block returns
/// undefined.
pub open spec fn is_block(node: Node, block: Block) -> bool
    decreases node, 3int,
{
    &&& node.rule is Block
    &&& block.0@.len() == statements(node)
    &&& forall|i: int|
        0 <= i < statements(node) ==> (#[trigger] node.children@[i]).children@.len() > 0
            && statement::is_statement(node.children@[i].children@[0], *block.0@[i])
    &&& if statements(node) < node.children@.len() {
        is_terminal(node.children@.last(), block.1)
    } else {
        block.1 matches ReturnStatement::Return(expression) && expression is Undefined
    }
}

/// What is wrong with the tree of a program: it needs a block.
pub open spec fn program_defect(node: Node) -> Option<ErrorModel> {
    if node.children@.len() == 0 {
        Some(unexpected(node))
    } else {
        block_defect(node.children@[0])
    }
}

/// Whether a text is a given word.
fn is_word(text: &String, word: &str) -> (r: bool)
    ensures
        r == (text@ == word@),
{
    *text == word.to_owned()
}

/// The terminal that a return statement stands for.
fn parse_return(node: &Node) -> (r: Result<ReturnStatement, Error>)
    requires
        node.rule is ReturnStatement,
    ensures
        match r {
            Ok(terminal) => member_defect(*node, true) is None && is_terminal(*node, terminal),
            Err(error) => member_defect(*node, true) == Some(error@),
        },
{
    if node.children.len() == 0 {
        return Err(node.unexpected());
    }
    let inner = &node.children[0];
    match inner.rule {
        Rule::Expr => match expression::parse(inner) {
            Ok(expression) => Ok(ReturnStatement::Return(expression)),
            Err(error) => Err(error),
        },
        _ => {
            if is_word(&inner.text, "break") {
                Ok(ReturnStatement::Break)
            } else if is_word(&inner.text, "continue") {
                Ok(ReturnStatement::Continue)
            } else {
                Err(inner.unexpected())
            }
        },
    }
}

/// A child of a block: a statement, or the terminal.
enum Member {
    Statement(Rc<Statement>),
    Terminal(ReturnStatement),
}

/// What the child of a block at a position stands for.
fn parse_member(node: &Node, at: usize) -> (r: Result<Member, Error>)
    requires
        at < node.children@.len(),
    ensures
        match r {
            Ok(Member::Statement(statement)) => {
                &&& member_defect(node.children@[at as int], at == node.children@.len() - 1) is None
                &&& node.children@[at as int].rule is Stmt
                &&& node.children@[at as int].children@.len() > 0
                &&& statement::is_statement(node.children@[at as int].children@[0], *statement)
            },
            Ok(Member::Terminal(terminal)) => {
                &&& member_defect(node.children@[at as int], at == node.children@.len() - 1) is None
                &&& node.children@[at as int].rule is ReturnStatement
                &&& at == node.children@.len() - 1
                &&& is_terminal(node.children@[at as int], terminal)
            },
            Err(error) => member_defect(node.children@[at as int], at == node.children@.len() - 1)
                == Some(error@),
        },
    decreases *node, 0int,
{
    let child = &node.children[at];
    match child.rule {
        Rule::Stmt => {
            if child.children.len() == 0 {
                return Err(child.unexpected());
            }
            assert(decreases_to!(*node => node.children));
            assert(decreases_to!(node.children => node.children[at as int]));
            assert(decreases_to!(*child => child.children));
            assert(decreases_to!(child.children => child.children[0]));
            match statement::parse(&child.children[0]) {
                Ok(statement) => Ok(Member::Statement(Rc::new(statement))),
                Err(error) => Err(error),
            }
        },
        Rule::ReturnStatement => {
            if at < node.children.len() - 1 {
                return Err(child.unexpected());
            }
            match parse_return(child) {
                Ok(terminal) => Ok(Member::Terminal(terminal)),
                Err(error) => Err(error),
            }
        },
        _ => Err(child.unexpected()),
    }
}

/// The block that a node stands for, or the error of what is wrong with
/// the node.
pub fn parse_block(node: &Node) -> (r: Result<Rc<Block>, Error>)
    ensures
        match r {
            Ok(block) => block_defect(*node) is None && is_block(*node, *block),
            Err(error) => block_defect(*node) == Some(error@),
        },
    decreases *node, 1int,
{
    match node.rule {
        Rule::Block => {},
        _ => {
            return Err(node.unexpected());
        },
    }
    let count = node.children.len();
    let mut members: Vec<Rc<Statement>> = Vec::new();
    let mut i: usize = 0;
    while i < count
        invariant
            node.rule is Block,
            count == node.children@.len(),
            i <= count,
            i <= statements(*node),
            first_member_defect(node.children@, 0) == first_member_defect(node.children@, i as int),
            members@.len() == i,
            forall|j: int|
                0 <= j < i ==> (#[trigger] node.children@[j]).children@.len() > 0
                    && statement::is_statement(node.children@[j].children@[0], *members@[j]),
        decreases count - i,
    {
        match parse_member(node, i) {
            Ok(Member::Statement(statement)) => {
                members.push(statement);
            },
            Ok(Member::Terminal(terminal)) => {
                assert(node.children@.last() == node.children@[i as int]);
                assert(node.children@.last() == node.children@[i as int]);
                assert(first_member_defect(node.children@, i + 1) is None);
                return Ok(Rc::new(Block(members, terminal)));
            },
            Err(error) => {
                return Err(error);
            },
        }
        i += 1;
    }
    Ok(Rc::new(Block(members, ReturnStatement::Return(Expression::Undefined))))
}

/// The syntax tree that the tree of a program stands for, or the error of
/// what is wrong with it.
pub fn parse(root: &Node) -> (r: Result<ASTNode, Error>)
    ensures
        match r {
            Ok(ast) => program_defect(*root) is None && is_block(
                root.children@[0],
                *ast->Block_0,
            ),
            Err(error) => program_defect(*root) == Some(error@),
        },
{
    if root.children.len() == 0 {
        return Err(root.unexpected());
    }
    match parse_block(&root.children[0]) {
        Ok(block) => Ok(ASTNode::Block(block)),
        Err(error) => Err(error),
    }
}

} // verus!
