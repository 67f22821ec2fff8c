//! The errors of built-in functions, of loading scripts and of running them.
use crate::statement::SyntaxError;
use crate::token::Token;
use vstd::prelude::*;
use vstd::string::StringExecFns;

verus! {

/// Why a built-in function could not give a value. Each reason carries a message for people.
#[derive(Debug, PartialEq, Eq)]
pub enum FunctionErrorKind {
    /// An argument is missing.
    MissingArgument(String),
    /// An argument is of the wrong kind or cannot be read as what it should be.
    WrongArgument(String),
    /// The function failed for a reason of its own.
    Diagnostic(String),
}

/// The mathematical model of a [`FunctionErrorKind`].
pub enum FunctionFault {
    /// An argument is missing.
    MissingArgument(Seq<char>),
    /// An argument is of the wrong kind or cannot be read as what it should be.
    WrongArgument(Seq<char>),
    /// The function failed for a reason of its own.
    Diagnostic(Seq<char>),
}

impl FunctionFault {
    /// The message of the fault.
    pub open spec fn text(self) -> Seq<char> {
        match self {
            FunctionFault::MissingArgument(message) => message,
            FunctionFault::WrongArgument(message) => message,
            FunctionFault::Diagnostic(message) => message,
        }
    }

    /// The fault of something that should be a `key` and is none; `problem` says why.
    pub open spec fn wrong(key: Seq<char>, problem: Seq<char>) -> FunctionFault {
        FunctionFault::WrongArgument(key + ": "@ + problem)
    }
}

impl FunctionErrorKind {
    /// The fault that the error stands for.
    pub open spec fn view(&self) -> FunctionFault {
        match self {
            FunctionErrorKind::MissingArgument(message) => FunctionFault::MissingArgument(message@),
            FunctionErrorKind::WrongArgument(message) => FunctionFault::WrongArgument(message@),
            FunctionErrorKind::Diagnostic(message) => FunctionFault::Diagnostic(message@),
        }
    }

    /// The message of the error.
    pub fn message(&self) -> (r: &String)
        ensures
            r@ == self@.text(),
    {
        match self {
            FunctionErrorKind::MissingArgument(message) => message,
            FunctionErrorKind::WrongArgument(message) => message,
            FunctionErrorKind::Diagnostic(message) => message,
        }
    }

    /// The error of something that should be a `key` and is none; `problem` says why.
    pub fn wrong_argument(key: &str, problem: &str) -> (r: Self)
        ensures
            r@ == FunctionFault::wrong(key@, problem@),
    {
        let message = key.to_owned().concat(": ").concat(problem);
        FunctionErrorKind::WrongArgument(message)
    }
}

/// Why the text of a script could not be had.
#[derive(Clone, Copy, Debug, PartialEq, Eq, Structural)]
pub enum LoadError {
    /// No script of that name is known.
    NotFound,
    /// The script is known, and reading it failed.
    Unreadable,
}

/// Why a statement could not be run.
#[derive(Debug, PartialEq, Eq)]
pub enum InterpretError {
    /// The variable that the token names is bound in no scope.
    UndeclaredVariable(Token),
    /// A value is not of the kind that an operation takes.
    TypeMismatch,
    /// An index lies outside the array.
    IndexOutOfRange,
    /// A value that is indexed is no array.
    NotAnArray,
    /// No built-in function has the name that the token holds.
    UnknownFunction(Token),
    /// A division or a remainder by zero.
    DivisionByZero,
    /// An operator has neither one nor two operands, or one that it cannot take that many of.
    WrongOperandCount,
    /// A statement stands where it cannot be run.
    UnexpectedStatement,
    /// A loop ran more rounds than the interpreter follows.
    IterationLimit,
    /// Scripts include each other more deeply than the interpreter follows.
    NestingLimit,
    /// An included script is no sequence of statements.
    Syntax(SyntaxError),
    /// An included script could not be had.
    Load(LoadError),
    /// A built-in function failed.
    Function(FunctionErrorKind),
}

/// The mathematical model of an [`InterpretError`].
pub enum Fault {
    /// The variable that the token names is bound in no scope.
    UndeclaredVariable(Token),
    /// A value is not of the kind that an operation takes.
    TypeMismatch,
    /// An index lies outside the array.
    IndexOutOfRange,
    /// A value that is indexed is no array.
    NotAnArray,
    /// No built-in function has the name that the token holds.
    UnknownFunction(Token),
    /// A division or a remainder by zero.
    DivisionByZero,
    /// An operator has neither one nor two operands, or one that it cannot take that many of.
    WrongOperandCount,
    /// A statement stands where it cannot be run.
    UnexpectedStatement,
    /// A loop ran more rounds than the interpreter follows.
    IterationLimit,
    /// Scripts include each other more deeply than the interpreter follows.
    NestingLimit,
    /// An included script is no sequence of statements.
    Syntax(SyntaxError),
    /// An included script could not be had.
    Load(LoadError),
    /// A built-in function failed.
    Function(FunctionFault),
}

impl InterpretError {
    /// The fault that the error stands for.
    pub open spec fn view(&self) -> Fault {
        match self {
            InterpretError::UndeclaredVariable(token) => Fault::UndeclaredVariable(*token),
            InterpretError::TypeMismatch => Fault::TypeMismatch,
            InterpretError::IndexOutOfRange => Fault::IndexOutOfRange,
            InterpretError::NotAnArray => Fault::NotAnArray,
            InterpretError::UnknownFunction(token) => Fault::UnknownFunction(*token),
            InterpretError::DivisionByZero => Fault::DivisionByZero,
            InterpretError::WrongOperandCount => Fault::WrongOperandCount,
            InterpretError::UnexpectedStatement => Fault::UnexpectedStatement,
            InterpretError::IterationLimit => Fault::IterationLimit,
            InterpretError::NestingLimit => Fault::NestingLimit,
            InterpretError::Syntax(e) => Fault::Syntax(*e),
            InterpretError::Load(e) => Fault::Load(*e),
            InterpretError::Function(e) => Fault::Function(e@),
        }
    }
}

} // verus!
