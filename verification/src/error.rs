//! The errors of the language: syntax, reference and type errors.

use crate::text::{decimal, digits};
use vstd::prelude::*;
use vstd::string::*;

verus! {

/// Where a syntax error was found: the offending line and the position in it.
#[derive(Debug)]
pub struct SyntaxError {
    /// The text of the offending line.
    pub line: String,
    /// The line number, counted from 1.
    pub line_pos: usize,
    /// The column number, counted from 1.
    pub column_pos: usize,
}

/// The kinds of error.
#[derive(Debug)]
pub enum ErrorKind {
    /// The source text is not a program.
    Syntax(SyntaxError),
    /// A name is bound nowhere in the chain of scopes.
    Reference,
    /// A value is of the wrong kind for what is done with it.
    Type,
}

/// An error with its message.
#[derive(Debug)]
pub struct Error {
    pub message: String,
    pub kind: ErrorKind,
}

/// A syntax error as a mathematical value.
pub struct SyntaxErrorModel {
    pub line: Seq<char>,
    pub line_pos: usize,
    pub column_pos: usize,
}

/// An error kind as a mathematical value.
pub enum ErrorKindModel {
    Syntax(SyntaxErrorModel),
    Reference,
    Type,
}

/// An error as a mathematical value.
pub struct ErrorModel {
    pub message: Seq<char>,
    pub kind: ErrorKindModel,
}

impl View for SyntaxError {
    type V = SyntaxErrorModel;

    open spec fn view(&self) -> SyntaxErrorModel {
        SyntaxErrorModel { line: self.line@, line_pos: self.line_pos, column_pos: self.column_pos }
    }
}

impl View for ErrorKind {
    type V = ErrorKindModel;

    open spec fn view(&self) -> ErrorKindModel {
        match *self {
            ErrorKind::Syntax(syntax) => ErrorKindModel::Syntax(syntax@),
            ErrorKind::Reference => ErrorKindModel::Reference,
            ErrorKind::Type => ErrorKindModel::Type,
        }
    }
}

impl View for Error {
    type V = ErrorModel;

    open spec fn view(&self) -> ErrorModel {
        ErrorModel { message: self.message@, kind: self.kind@ }
    }
}

impl ErrorModel {
    /// A reference error with the given message.
    pub open spec fn reference(message: Seq<char>) -> ErrorModel {
        ErrorModel { message, kind: ErrorKindModel::Reference }
    }

    /// A type error with the given message.
    pub open spec fn type_(message: Seq<char>) -> ErrorModel {
        ErrorModel { message, kind: ErrorKindModel::Type }
    }
}

/// A number of spaces.
pub open spec fn spaces(count: nat) -> Seq<char>
    decreases count,
{
    if count == 0 {
        Seq::empty()
    } else {
        spaces((count - 1) as nat) + " "@
    }
}

impl SyntaxErrorModel {
    /// The report of the position: the line and column numbers, the
    /// offending line behind its number, and under it a caret that is
    /// `column_pos` places to the right of the bar.
    pub open spec fn report(self) -> Seq<char> {
        "  --> at line "@ + digits(self.line_pos as nat) + ":"@ + digits(self.column_pos as nat)
            + "\n  |\n"@ + digits(self.line_pos as nat) + " | "@ + self.line + "\n  |"@ + spaces(
            self.column_pos as nat,
        ) + "^\n"@
    }
}

impl ErrorModel {
    /// The report of the error: the name of its kind, its message and, for
    /// a syntax error, the report of the position on the lines after.
    pub open spec fn report(self) -> Seq<char> {
        match self.kind {
            ErrorKindModel::Syntax(syntax) => "SyntaxError: "@ + self.message + "\n"@
                + syntax.report(),
            ErrorKindModel::Reference => "ReferenceError: "@ + self.message,
            ErrorKindModel::Type => "TypeError: "@ + self.message,
        }
    }
}

impl SyntaxError {
    /// The report of the position, for the standard error.
    pub fn report(&self) -> (r: String)
        ensures
            r@ == self@.report(),
    {
        let mut text = "  --> at line ".to_owned();
        text.append(decimal(self.line_pos).as_str());
        text.append(":");
        text.append(decimal(self.column_pos).as_str());
        text.append("\n  |\n");
        text.append(decimal(self.line_pos).as_str());
        text.append(" | ");
        text.append(self.line.as_str());
        text.append("\n  |");
        let ghost before = text@;
        let mut i: usize = 0;
        while i < self.column_pos
            invariant
                i <= self.column_pos,
                text@ == before + spaces(i as nat),
            decreases self.column_pos - i,
        {
            text.append(" ");
            i += 1;
            assert(text@ =~= before + spaces(i as nat));
        }
        text.append("^\n");
        text
    }

    /// The position of a syntax error: the line's text, its number and the column.
    pub fn new(line: &str, line_pos: usize, column_pos: usize) -> (r: Self)
        ensures
            r@ == (SyntaxErrorModel { line: line@, line_pos, column_pos }),
    {
        Self { line: line.to_owned(), line_pos, column_pos }
    }
}

impl Error {
    /// A syntax error at the given position.
    pub fn syntax(message: &str, syntax: SyntaxError) -> (r: Self)
        ensures
            r@ == (ErrorModel { message: message@, kind: ErrorKindModel::Syntax(syntax@) }),
    {
        Self { message: message.to_owned(), kind: ErrorKind::Syntax(syntax) }
    }

    /// A reference error: a name that is bound nowhere in the chain of scopes.
    pub fn reference(message: &str) -> (r: Self)
        ensures
            r@ == ErrorModel::reference(message@),
    {
        Self { message: message.to_owned(), kind: ErrorKind::Reference }
    }

    /// A type error: a value of the wrong kind for what is done with it.
    pub fn type_(message: &str) -> (r: Self)
        ensures
            r@ == ErrorModel::type_(message@),
    {
        Self { message: message.to_owned(), kind: ErrorKind::Type }
    }

    /// The report of the error, for the standard error.
    pub fn report(&self) -> (r: String)
        ensures
            r@ == self@.report(),
    {
        match &self.kind {
            ErrorKind::Syntax(syntax) => {
                let mut text = "SyntaxError: ".to_owned();
                text.append(self.message.as_str());
                text.append("\n");
                text.append(syntax.report().as_str());
                text
            },
            ErrorKind::Reference => {
                let mut text = "ReferenceError: ".to_owned();
                text.append(self.message.as_str());
                text
            },
            ErrorKind::Type => {
                let mut text = "TypeError: ".to_owned();
                text.append(self.message.as_str());
                text
            },
        }
    }
}

/// An error of the grammar, with its message.
#[derive(Debug)]
pub struct GrammarError(pub String);

impl GrammarError {
    /// A grammar error with the given message.
    pub fn with_message(msg: &str) -> (r: Self)
        ensures
            r.0@ == msg@,
    {
        Self(msg.to_owned())
    }
}

} // verus!
