//! The errors of evaluation and execution.
use vstd::prelude::*;
use vstd::string::StringExecFns;
use crate::ir::ast::ArithOp;
use crate::ir::ast::BinaryOp;
use crate::ir::ast::BoolOp;
use crate::ir::ast::Name;
use crate::ir::ast::RelOp;

verus! {

/// An operation that asks for operands of a given kind.
#[derive(Clone, Copy, Debug, PartialEq, Eq)]
pub enum Operation {
    /// A binary operator: numbers for the arithmetic and relational ones,
    /// booleans for `and` and `or`.
    Binary(BinaryOp),
    /// `not`, on a boolean.
    Not,
    /// The condition of a conditional, a boolean.
    If,
    /// The condition of a loop, a boolean.
    While,
    /// The path of a file to read, a string.
    ReadFile,
    /// The path and the content of a file to write, two strings.
    WriteToFile,
    /// The value to print, a constant.
    Print,
}

/// Why an evaluation or an execution stopped.
#[derive(Debug, PartialEq)]
pub enum Error {
    /// No frame of the scope chain defines the name.
    UndefinedName(Name),
    /// The name that a call names is bound to a constant.
    NotAFunction(Name),
    /// A call hands the function `found` arguments where it declares
    /// `expected` parameters.
    ArityMismatch { name: Name, expected: usize, found: usize },
    /// The body of the function ran to its end without returning.
    MissingReturn(Name),
    /// An operand is not of the kind the operation is defined for.
    TypeError(Operation),
    /// The construct has no evaluation rule.
    UnsupportedOperation,
    /// The outside world failed to read or write; the text is its message.
    IoFailure(String),
}

/// The view of an [`Error`].
pub ghost enum ErrorView {
    UndefinedName(Seq<char>),
    NotAFunction(Seq<char>),
    ArityMismatch { name: Seq<char>, expected: nat, found: nat },
    MissingReturn(Seq<char>),
    TypeError(Operation),
    UnsupportedOperation,
    IoFailure(Seq<char>),
}

impl View for Error {
    type V = ErrorView;

    open spec fn view(&self) -> ErrorView {
        match self {
            Error::UndefinedName(name) => ErrorView::UndefinedName(name@),
            Error::NotAFunction(name) => ErrorView::NotAFunction(name@),
            Error::ArityMismatch { name, expected, found } => ErrorView::ArityMismatch {
                name: name@,
                expected: *expected as nat,
                found: *found as nat,
            },
            Error::MissingReturn(name) => ErrorView::MissingReturn(name@),
            Error::TypeError(operation) => ErrorView::TypeError(*operation),
            Error::UnsupportedOperation => ErrorView::UnsupportedOperation,
            Error::IoFailure(message) => ErrorView::IoFailure(message@),
        }
    }
}

/// The fixed text that tells of a type error at `operation`.
pub open spec fn type_error_text(operation: Operation) -> Seq<char> {
    match operation {
        Operation::Binary(BinaryOp::Arith(ArithOp::Add)) =>
            "addition '(+)' is only defined for numbers (integers and real)."@,
        Operation::Binary(BinaryOp::Arith(ArithOp::Sub)) =>
            "subtraction '(-)' is only defined for numbers (integers and real)."@,
        Operation::Binary(BinaryOp::Arith(ArithOp::Mul)) =>
            "multiplication '(*)' is only defined for numbers (integers and real)."@,
        Operation::Binary(BinaryOp::Arith(ArithOp::Div)) =>
            "division '(/)' is only defined for numbers (integers and real)."@,
        Operation::Binary(BinaryOp::Bool(BoolOp::And)) => "'and' is only defined for booleans."@,
        Operation::Binary(BinaryOp::Bool(BoolOp::Or)) => "'or' is only defined for booleans."@,
        Operation::Binary(BinaryOp::Rel(RelOp::EQ)) =>
            "(==) is only defined for numbers (integers and real)."@,
        Operation::Binary(BinaryOp::Rel(RelOp::GT)) =>
            "(>) is only defined for numbers (integers and real)."@,
        Operation::Binary(BinaryOp::Rel(RelOp::LT)) =>
            "(<) is only defined for numbers (integers and real)."@,
        Operation::Binary(BinaryOp::Rel(RelOp::GTE)) =>
            "(>=) is only defined for numbers (integers and real)."@,
        Operation::Binary(BinaryOp::Rel(RelOp::LTE)) =>
            "(<=) is only defined for numbers (integers and real)."@,
        Operation::Not => "'not' is only defined for booleans."@,
        Operation::If => "the condition of 'if' must be a boolean."@,
        Operation::While => "the condition of 'while' must be a boolean."@,
        Operation::ReadFile => "read_file expects a string as the file path"@,
        Operation::WriteToFile => "write_to_file expects two string arguments"@,
        Operation::Print => "Cannot print this type of value"@,
    }
}

impl ErrorView {
    /// The text that tells of the error: a fixed text for its kind,
    /// followed by the name or the outside message where it has one.
    pub open spec fn message(self) -> Seq<char> {
        match self {
            ErrorView::UndefinedName(name) => "undefined name: "@ + name,
            ErrorView::NotAFunction(name) => "not a function: "@ + name,
            ErrorView::ArityMismatch { name, expected, found } =>
                "wrong number of arguments in a call of "@ + name,
            ErrorView::MissingReturn(name) => "missing return in the body of "@ + name,
            ErrorView::TypeError(operation) => type_error_text(operation),
            ErrorView::UnsupportedOperation => "Not implemented yet."@,
            ErrorView::IoFailure(message) => message,
        }
    }
}

/// The fixed text that tells of a type error at `operation`.
pub fn type_error_message(operation: Operation) -> (res: &'static str)
    ensures
        res@ == type_error_text(operation),
{
    match operation {
        Operation::Binary(BinaryOp::Arith(ArithOp::Add)) =>
            "addition '(+)' is only defined for numbers (integers and real).",
        Operation::Binary(BinaryOp::Arith(ArithOp::Sub)) =>
            "subtraction '(-)' is only defined for numbers (integers and real).",
        Operation::Binary(BinaryOp::Arith(ArithOp::Mul)) =>
            "multiplication '(*)' is only defined for numbers (integers and real).",
        Operation::Binary(BinaryOp::Arith(ArithOp::Div)) =>
            "division '(/)' is only defined for numbers (integers and real).",
        Operation::Binary(BinaryOp::Bool(BoolOp::And)) => "'and' is only defined for booleans.",
        Operation::Binary(BinaryOp::Bool(BoolOp::Or)) => "'or' is only defined for booleans.",
        Operation::Binary(BinaryOp::Rel(RelOp::EQ)) =>
            "(==) is only defined for numbers (integers and real).",
        Operation::Binary(BinaryOp::Rel(RelOp::GT)) =>
            "(>) is only defined for numbers (integers and real).",
        Operation::Binary(BinaryOp::Rel(RelOp::LT)) =>
            "(<) is only defined for numbers (integers and real).",
        Operation::Binary(BinaryOp::Rel(RelOp::GTE)) =>
            "(>=) is only defined for numbers (integers and real).",
        Operation::Binary(BinaryOp::Rel(RelOp::LTE)) =>
            "(<=) is only defined for numbers (integers and real).",
        Operation::Not => "'not' is only defined for booleans.",
        Operation::If => "the condition of 'if' must be a boolean.",
        Operation::While => "the condition of 'while' must be a boolean.",
        Operation::ReadFile => "read_file expects a string as the file path",
        Operation::WriteToFile => "write_to_file expects two string arguments",
        Operation::Print => "Cannot print this type of value",
    }
}

impl Error {
    /// The text that tells of the error.
    pub fn message(&self) -> (res: String)
        ensures
            res@ == self@.message(),
    {
        match self {
            Error::UndefinedName(name) => "undefined name: ".to_owned().concat(name.as_str()),
            Error::NotAFunction(name) => "not a function: ".to_owned().concat(name.as_str()),
            Error::ArityMismatch { name, expected, found } =>
                "wrong number of arguments in a call of ".to_owned().concat(name.as_str()),
            Error::MissingReturn(name) => "missing return in the body of ".to_owned().concat(
                name.as_str(),
            ),
            Error::TypeError(operation) => type_error_message(*operation).to_owned(),
            Error::UnsupportedOperation => "Not implemented yet.".to_owned(),
            Error::IoFailure(message) => message.clone(),
        }
    }
}

impl Clone for Error {
    fn clone(&self) -> (res: Self)
        ensures
            res@ == self@,
    {
        match self {
            Error::UndefinedName(name) => Error::UndefinedName(name.clone()),
            Error::NotAFunction(name) => Error::NotAFunction(name.clone()),
            Error::ArityMismatch { name, expected, found } => Error::ArityMismatch {
                name: name.clone(),
                expected: *expected,
                found: *found,
            },
            Error::MissingReturn(name) => Error::MissingReturn(name.clone()),
            Error::TypeError(operation) => Error::TypeError(*operation),
            Error::UnsupportedOperation => Error::UnsupportedOperation,
            Error::IoFailure(message) => Error::IoFailure(message.clone()),
        }
    }
}

} // verus!
