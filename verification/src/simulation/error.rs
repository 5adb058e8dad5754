//! The errors that a run can end in.

use vstd::prelude::*;
use vstd::string::*;
use crate::model::functions::{EvalError, EvalErrorKind};
use crate::model::grammar::ParseErrorKind;
use crate::model::parser::{kind_text, ParseError};
use crate::model::{ValidationError, ValidationErrorKind};
use crate::text::concat3;

verus! {

/// The kinds of error.
#[derive(Debug, Clone, Copy, PartialEq, Eq, Structural)]
pub enum SimulationErrorKind {
    ParseError,
    UnknownVariable,
    UnknownFunction,
    ArityMismatch,
    DomainError,
    DivByZero,
    MissingFlow,
    IntegratorFailure,
    ModelValidationError,
}

/// An error: its kind, the name or text it is about, and what it says.
#[derive(Debug, Clone)]
pub struct SimulationError {
    pub kind: SimulationErrorKind,
    pub name: String,
    pub message: String,
}

/// The kind of error that a failed evaluation becomes.
pub open spec fn eval_kind(kind: EvalErrorKind) -> SimulationErrorKind {
    match kind {
        EvalErrorKind::UnknownVariable => SimulationErrorKind::UnknownVariable,
        EvalErrorKind::UnknownFunction => SimulationErrorKind::UnknownFunction,
        EvalErrorKind::ArityMismatch => SimulationErrorKind::ArityMismatch,
        EvalErrorKind::DomainError => SimulationErrorKind::DomainError,
        EvalErrorKind::DivByZero => SimulationErrorKind::DivByZero,
    }
}

/// What a failed evaluation says.
pub open spec fn eval_text(kind: EvalErrorKind, name: Seq<char>) -> Seq<char> {
    match kind {
        EvalErrorKind::UnknownVariable => "Variable '"@ + name + "' not found"@,
        EvalErrorKind::UnknownFunction => "Unknown function: '"@ + name + "'"@,
        EvalErrorKind::ArityMismatch => "Wrong number of arguments for '"@ + name + "'"@,
        EvalErrorKind::DomainError => "Argument outside the domain of '"@ + name + "'"@,
        EvalErrorKind::DivByZero => "Division by zero in '"@ + name + "'"@,
    }
}

impl SimulationError {
    /// An error of the given kind about `name`.
    pub fn new(kind: SimulationErrorKind, name: &str, message: &str) -> (r: SimulationError)
        ensures
            r.kind == kind,
            r.name@ == name@,
            r.message@ == message@,
    {
        SimulationError { kind, name: String::from_str(name), message: String::from_str(message) }
    }

    /// The error that a text which is no expression leads to.
    pub fn from_parse(error: &ParseError) -> (r: SimulationError)
        ensures
            r.kind == SimulationErrorKind::ParseError,
            r.name@ == error.text@,
            r.message@ == kind_text(error.kind) + " in '"@ + error.text@ + "'"@,
    {
        SimulationError {
            kind: SimulationErrorKind::ParseError,
            name: error.text.clone(),
            message: error.message(),
        }
    }

    /// The error that a failed evaluation leads to.
    pub fn from_eval(error: &EvalError) -> (r: SimulationError)
        ensures
            r.kind == eval_kind(error.kind),
            r.name@ == error.name@,
            r.message@ == eval_text(error.kind, error.name@),
    {
        let name = error.name.as_str();
        let (kind, message) = match error.kind {
            EvalErrorKind::UnknownVariable => (
                SimulationErrorKind::UnknownVariable,
                concat3("Variable '", name, "' not found"),
            ),
            EvalErrorKind::UnknownFunction => (
                SimulationErrorKind::UnknownFunction,
                concat3("Unknown function: '", name, "'"),
            ),
            EvalErrorKind::ArityMismatch => (
                SimulationErrorKind::ArityMismatch,
                concat3("Wrong number of arguments for '", name, "'"),
            ),
            EvalErrorKind::DomainError => (
                SimulationErrorKind::DomainError,
                concat3("Argument outside the domain of '", name, "'"),
            ),
            EvalErrorKind::DivByZero => (
                SimulationErrorKind::DivByZero,
                concat3("Division by zero in '", name, "'"),
            ),
        };
        SimulationError { kind, name: error.name.clone(), message }
    }

    /// The error that a model which cannot be run leads to: a missing flow is
    /// reported as such, under the name of the flow; anything else as a
    /// validation error.
    pub fn from_validation(error: &ValidationError) -> (r: SimulationError)
        ensures
            match error.kind {
                ValidationErrorKind::TimeStep => r.kind
                    == SimulationErrorKind::ModelValidationError && r.name@ == "dt"@ && r.message@
                    == "The time step must be above zero"@,
                ValidationErrorKind::TimeRange => r.kind
                    == SimulationErrorKind::ModelValidationError && r.name@ == "stop"@
                    && r.message@ == "The run must not stop before it starts"@,
                ValidationErrorKind::MissingFlow => r.kind == SimulationErrorKind::MissingFlow
                    && r.name@ == error.flow@ && r.message@ == "Flow '"@ + error.flow@
                    + "' not found for stock '"@ + error.stock@ + "'"@,
            },
    {
        match error.kind {
            ValidationErrorKind::TimeStep => SimulationError::new(
                SimulationErrorKind::ModelValidationError,
                "dt",
                "The time step must be above zero",
            ),
            ValidationErrorKind::TimeRange => SimulationError::new(
                SimulationErrorKind::ModelValidationError,
                "stop",
                "The run must not stop before it starts",
            ),
            ValidationErrorKind::MissingFlow => {
                let mut message = concat3("Flow '", error.flow.as_str(), "' not found for stock '");
                message.append(error.stock.as_str());
                message.append("'");
                SimulationError {
                    kind: SimulationErrorKind::MissingFlow,
                    name: error.flow.clone(),
                    message,
                }
            },
        }
    }
}

} // verus!
