//! The ways in which an evaluation fails.

use vstd::prelude::*;
use crate::expression::{Expression, Term};
use crate::float::{is_float_writer, write_fn, WriteFn};
use crate::number::ArithmeticError;

verus! {

/// Why an evaluation failed. Every failure ends the evaluation of the
/// top-level expression at hand.
#[derive(Debug)]
pub enum EvalError {
    /// The name is bound in no active frame.
    UndefinedSymbol(String),
    /// An empty combination, or a `define` or `cond` of the wrong shape.
    InvalidSyntax,
    /// A procedure was applied to a number of arguments that it does not
    /// take.
    WrongArgumentCount,
    /// An argument that had to be a number is none.
    TypeMismatch,
    /// The value in first position of a combination is no procedure.
    NonProcedureApplication(Expression),
    /// An exact integer was divided by the exact integer zero.
    DivisionByZero,
    /// The exact result of an operation on integers does not fit in 64 bits.
    IntegerOverflow,
    /// The evaluation nests deeper than the limit it was given.
    DepthExceeded,
}

/// The mathematical value of an [`EvalError`]: the same failure, with the
/// name by its characters and the operand by its term.
pub enum Failure {
    /// The name is bound in no active frame.
    UndefinedSymbol(Seq<char>),
    /// An empty combination, or a `define` or `cond` of the wrong shape.
    InvalidSyntax,
    /// A procedure was applied to a number of arguments that it does not
    /// take.
    WrongArgumentCount,
    /// An argument that had to be a number is none.
    TypeMismatch,
    /// The value in first position of a combination is no procedure.
    NonProcedureApplication(Term),
    /// An exact integer was divided by the exact integer zero.
    DivisionByZero,
    /// The exact result of an operation on integers does not fit in 64 bits.
    IntegerOverflow,
    /// The evaluation nests deeper than the limit it was given.
    DepthExceeded,
}

impl View for EvalError {
    type V = Failure;

    open spec fn view(&self) -> Failure {
        match self {
            EvalError::UndefinedSymbol(name) => Failure::UndefinedSymbol(name@),
            EvalError::InvalidSyntax => Failure::InvalidSyntax,
            EvalError::WrongArgumentCount => Failure::WrongArgumentCount,
            EvalError::TypeMismatch => Failure::TypeMismatch,
            EvalError::NonProcedureApplication(operand) => Failure::NonProcedureApplication(
                operand@,
            ),
            EvalError::DivisionByZero => Failure::DivisionByZero,
            EvalError::IntegerOverflow => Failure::IntegerOverflow,
            EvalError::DepthExceeded => Failure::DepthExceeded,
        }
    }
}

/// The mathematical value of what an evaluation returns.
pub open spec fn outcome(r: Result<Expression, EvalError>) -> Result<Term, Failure> {
    match r {
        Ok(value) => Ok(value@),
        Err(error) => Err(error@),
    }
}

impl Failure {
    /// The failure in words.
    pub open spec fn message(wf: WriteFn, failure: Failure) -> Seq<char> {
        match failure {
            Failure::UndefinedSymbol(name) => "Undefined symbol '"@ + name + "'"@,
            Failure::InvalidSyntax => "Invalid syntax"@,
            Failure::WrongArgumentCount => "Wrong number of arguments"@,
            Failure::TypeMismatch => "Expecting number"@,
            Failure::NonProcedureApplication(operand) => "Attempt to apply non-procedure '"@
                + Term::text(wf, operand) + "'"@,
            Failure::DivisionByZero => "Division by zero"@,
            Failure::IntegerOverflow => "Integer overflow"@,
            Failure::DepthExceeded => "Evaluation nests too deep"@,
        }
    }

    /// The failure that a failed operation on integers becomes.
    pub open spec fn of_arithmetic(error: ArithmeticError) -> Failure {
        match error {
            ArithmeticError::Overflow => Failure::IntegerOverflow,
            ArithmeticError::DivisionByZero => Failure::DivisionByZero,
        }
    }
}

impl EvalError {
    /// The error in words; see [`Failure::message`].
    pub fn message<W: Fn(u64) -> String>(&self, writer: &W) -> (r: String)
        requires
            is_float_writer(writer),
        ensures
            r@ == Failure::message(write_fn(writer), self@),
    {
        match self {
            EvalError::UndefinedSymbol(name) => {
                let mut out = "Undefined symbol '".to_owned();
                out.append(name.as_str());
                out.append("'");
                out
            },
            EvalError::InvalidSyntax => "Invalid syntax".to_owned(),
            EvalError::WrongArgumentCount => "Wrong number of arguments".to_owned(),
            EvalError::TypeMismatch => "Expecting number".to_owned(),
            EvalError::NonProcedureApplication(operand) => {
                let mut out = "Attempt to apply non-procedure '".to_owned();
                let text = operand.to_text(writer);
                out.append(text.as_str());
                out.append("'");
                out
            },
            EvalError::DivisionByZero => "Division by zero".to_owned(),
            EvalError::IntegerOverflow => "Integer overflow".to_owned(),
            EvalError::DepthExceeded => "Evaluation nests too deep".to_owned(),
        }
    }

    /// The error that a failed operation on integers becomes.
    pub fn of_arithmetic(error: ArithmeticError) -> (r: EvalError)
        ensures
            r@ == Failure::of_arithmetic(error),
    {
        match error {
            ArithmeticError::Overflow => EvalError::IntegerOverflow,
            ArithmeticError::DivisionByZero => EvalError::DivisionByZero,
        }
    }
}

} // verus!
