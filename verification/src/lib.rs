//! A small interpreter for a Scheme-like language of symbolic expressions.
//!
//! [`tokenizer`] and [`parser`] read a text into expressions, [`eval`]
//! evaluates an expression against an [`environment`] of stacked frames, and
//! [`builtins`] holds the native procedures that the global frame binds.
//! [`number`] is the numeric tower of exact integers and inexact floats, and
//! [`theorems`] states what holds of every evaluation.
//!
//! Every function comes with a contract that says what it returns, stated
//! over a mathematical model of its arguments: a [`expression::Term`] for an
//! expression, a sequence of maps for an environment, a sequence of
//! characters for a string.
//!
//! Floating-point values are carried as IEEE-754 binary64 bit patterns. The
//! library compares and negates them; the arithmetic on them, and their
//! reading and writing, is done by helpers that the caller hands in; see
//! [`float`].

pub mod builtins;
pub mod environment;
pub mod error;
pub mod eval;
pub mod expression;
pub mod float;
pub mod number;
pub mod parser;
pub mod text;
pub mod theorems;
pub mod tokenizer;
