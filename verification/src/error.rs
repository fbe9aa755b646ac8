//! Errors of evaluation.

use vstd::prelude::*;
use crate::text::{push_text, string_from};

verus! {

/// Why a program could not be evaluated.
#[derive(Debug, PartialEq)]
pub enum RuntimeError {
    /// A variable that has no value.
    UndefinedVariable(String),
    /// A call of a name that is neither a function nor a command.
    UndefinedFunction(String),
    /// An operand of the wrong kind.
    TypeMismatch { expected: String, got: String, operation: String },
    DivisionByZero,
    /// Any other failure, among them those that commands report.
    InvalidOperation(String),
    /// A `return` that no function call caught.
    ReturnOutsideFunction,
    InvalidPropertyAccess(String),
}

/// The view of an error of evaluation.
pub enum RuntimeErrorView {
    UndefinedVariable(Seq<char>),
    UndefinedFunction(Seq<char>),
    TypeMismatch { expected: Seq<char>, got: Seq<char>, operation: Seq<char> },
    DivisionByZero,
    InvalidOperation(Seq<char>),
    ReturnOutsideFunction,
    InvalidPropertyAccess(Seq<char>),
}

impl DeepView for RuntimeError {
    type V = RuntimeErrorView;

    open spec fn deep_view(&self) -> RuntimeErrorView {
        match self {
            RuntimeError::UndefinedVariable(name) => RuntimeErrorView::UndefinedVariable(name@),
            RuntimeError::UndefinedFunction(name) => RuntimeErrorView::UndefinedFunction(name@),
            RuntimeError::TypeMismatch { expected, got, operation } => RuntimeErrorView::TypeMismatch {
                expected: expected@,
                got: got@,
                operation: operation@,
            },
            RuntimeError::DivisionByZero => RuntimeErrorView::DivisionByZero,
            RuntimeError::InvalidOperation(message) => RuntimeErrorView::InvalidOperation(message@),
            RuntimeError::ReturnOutsideFunction => RuntimeErrorView::ReturnOutsideFunction,
            RuntimeError::InvalidPropertyAccess(message) => RuntimeErrorView::InvalidPropertyAccess(message@),
        }
    }
}

impl Clone for RuntimeError {
    fn clone(&self) -> (r: RuntimeError)
        ensures
            r.deep_view() == self.deep_view(),
    {
        match self {
            RuntimeError::UndefinedVariable(name) => RuntimeError::UndefinedVariable(name.clone()),
            RuntimeError::UndefinedFunction(name) => RuntimeError::UndefinedFunction(name.clone()),
            RuntimeError::TypeMismatch { expected, got, operation } => RuntimeError::TypeMismatch {
                expected: expected.clone(),
                got: got.clone(),
                operation: operation.clone(),
            },
            RuntimeError::DivisionByZero => RuntimeError::DivisionByZero,
            RuntimeError::InvalidOperation(message) => RuntimeError::InvalidOperation(message.clone()),
            RuntimeError::ReturnOutsideFunction => RuntimeError::ReturnOutsideFunction,
            RuntimeError::InvalidPropertyAccess(message) => RuntimeError::InvalidPropertyAccess(message.clone()),
        }
    }
}

/// The message of an error.
pub open spec fn error_text(e: RuntimeErrorView) -> Seq<char> {
    match e {
        RuntimeErrorView::UndefinedVariable(name) => "Variable '$"@ + name + "' is not defined"@,
        RuntimeErrorView::UndefinedFunction(name) => "The term '"@ + name
            + "' is not recognized as a function or command"@,
        RuntimeErrorView::TypeMismatch { expected, got, operation } => "Type mismatch in "@ + operation
            + ": expected "@ + expected + ", got "@ + got,
        RuntimeErrorView::DivisionByZero => "Division by zero"@,
        RuntimeErrorView::InvalidOperation(message) => "Invalid operation: "@ + message,
        RuntimeErrorView::ReturnOutsideFunction => "Return statement outside of function"@,
        RuntimeErrorView::InvalidPropertyAccess(message) => "Invalid property access: "@ + message,
    }
}

impl RuntimeError {
    /// The message of the error.
    pub fn to_string(&self) -> (r: String)
        ensures
            r@ == error_text(self.deep_view()),
    {
        let mut out: Vec<char> = Vec::new();
        match self {
            RuntimeError::UndefinedVariable(name) => {
                push_text(&mut out, "Variable '$");
                push_text(&mut out, name.as_str());
                push_text(&mut out, "' is not defined");
            },
            RuntimeError::UndefinedFunction(name) => {
                push_text(&mut out, "The term '");
                push_text(&mut out, name.as_str());
                push_text(&mut out, "' is not recognized as a function or command");
            },
            RuntimeError::TypeMismatch { expected, got, operation } => {
                push_text(&mut out, "Type mismatch in ");
                push_text(&mut out, operation.as_str());
                push_text(&mut out, ": expected ");
                push_text(&mut out, expected.as_str());
                push_text(&mut out, ", got ");
                push_text(&mut out, got.as_str());
            },
            RuntimeError::DivisionByZero => {
                push_text(&mut out, "Division by zero");
            },
            RuntimeError::InvalidOperation(message) => {
                push_text(&mut out, "Invalid operation: ");
                push_text(&mut out, message.as_str());
            },
            RuntimeError::ReturnOutsideFunction => {
                push_text(&mut out, "Return statement outside of function");
            },
            RuntimeError::InvalidPropertyAccess(message) => {
                push_text(&mut out, "Invalid property access: ");
                push_text(&mut out, message.as_str());
            },
        }
        assert(out@ =~= error_text(self.deep_view()));
        string_from(&out)
    }
}

} // verus!
