//! The numeric tower: exact integers and inexact floats.

use vstd::prelude::*;
use crate::float::{
    ask, bits_equal, bits_less, bits_negated, float_eq, float_fn, float_lt, float_neg,
    is_float_reader, is_float_unit, is_float_writer, read_float, read_fn, write_float, write_fn,
    FloatFn, FloatOp, ReadFn, WriteFn,
};
use crate::text::{decimal, integer_text, integer_value, parse_integer};

verus! {

/// A number of the language: an exact integer, or an inexact float held as
/// its IEEE-754 binary64 bit pattern.
#[derive(Clone, Copy, Debug)]
pub enum Number {
    /// An exact integer.
    Int(i64),
    /// An inexact number, by its bits.
    Float(u64),
}

/// Why an operation on two exact integers has no result.
#[derive(Clone, Copy, Debug, PartialEq, Eq, Structural)]
pub enum ArithmeticError {
    /// The exact result does not fit in 64 bits.
    Overflow,
    /// An exact integer was divided by the exact integer zero.
    DivisionByZero,
}

impl From<i64> for Number {
    /// The exact integer.
    fn from(v: i64) -> (r: Number) {
        Number::Int(v)
    }
}

impl vstd::std_specs::convert::FromSpecImpl<i64> for Number {
    open spec fn obeys_from_spec() -> bool {
        true
    }

    open spec fn from_spec(v: i64) -> Number {
        Number::Int(v)
    }
}

/// The text denotes no number.
#[derive(Clone, Copy, Debug)]
pub struct ParseNumberError {}

/// The four operations that combine two numbers into one.
#[derive(Clone, Copy, Debug, PartialEq, Eq, Structural)]
pub enum Operation {
    /// The sum of the two.
    Add,
    /// The first less the second.
    Sub,
    /// The product of the two.
    Mul,
    /// The first divided by the second.
    Div,
}

/// The three relations between two numbers.
#[derive(Clone, Copy, Debug, PartialEq, Eq, Structural)]
pub enum Relation {
    /// The first is above the second.
    Greater,
    /// The first is below the second.
    Less,
    /// The two are equal.
    Equal,
}

impl Number {
    /// The operand as a float: an integer is promoted, a float is taken as
    /// it is.
    pub open spec fn promoted(fm: FloatFn, n: Number) -> u64 {
        match n {
            Number::Int(v) => fm(FloatOp::FromInt(v)),
            Number::Float(b) => b,
        }
    }

    /// An exact result, where it fits.
    pub open spec fn exact(v: int) -> Result<Number, ArithmeticError> {
        if i64::MIN <= v <= i64::MAX {
            Ok(Number::Int(v as i64))
        } else {
            Err(ArithmeticError::Overflow)
        }
    }

    /// The request that the float unit gets for an operation on two
    /// floats.
    pub open spec fn request(op: Operation, a: u64, b: u64) -> FloatOp {
        match op {
            Operation::Add => FloatOp::Add(a, b),
            Operation::Sub => FloatOp::Sub(a, b),
            Operation::Mul => FloatOp::Mul(a, b),
            Operation::Div => FloatOp::Div(a, b),
        }
    }

    /// The inexact result of an operation: that of the float unit on the
    /// promoted operands.
    pub open spec fn inexact(fm: FloatFn, op: Operation, a: Number, b: Number) -> Number {
        Number::Float(fm(Self::request(op, Self::promoted(fm, a), Self::promoted(fm, b))))
    }

    /// The sum: exact for two integers, else the float sum of the promoted
    /// operands.
    pub open spec fn sum(fm: FloatFn, a: Number, b: Number) -> Result<Number, ArithmeticError> {
        match (a, b) {
            (Number::Int(x), Number::Int(y)) => Self::exact(x + y),
            _ => Ok(Self::inexact(fm, Operation::Add, a, b)),
        }
    }

    /// The difference: exact for two integers, else the float difference of
    /// the promoted operands.
    pub open spec fn difference(fm: FloatFn, a: Number, b: Number) -> Result<
        Number,
        ArithmeticError,
    > {
        match (a, b) {
            (Number::Int(x), Number::Int(y)) => Self::exact(x - y),
            _ => Ok(Self::inexact(fm, Operation::Sub, a, b)),
        }
    }

    /// The product: exact for two integers, else the float product of the
    /// promoted operands.
    pub open spec fn product(fm: FloatFn, a: Number, b: Number) -> Result<Number, ArithmeticError> {
        match (a, b) {
            (Number::Int(x), Number::Int(y)) => Self::exact(x * y),
            _ => Ok(Self::inexact(fm, Operation::Mul, a, b)),
        }
    }

    /// The quotient. Two integers give an exact integer where the divisor
    /// divides the dividend, and the float quotient of the promoted operands
    /// where it does not; a zero divisor is an error. With a float among the
    /// operands the result is the float quotient.
    pub open spec fn quotient(fm: FloatFn, a: Number, b: Number) -> Result<
        Number,
        ArithmeticError,
    > {
        match (a, b) {
            (Number::Int(x), Number::Int(y)) => {
                if y == 0 {
                    Err(ArithmeticError::DivisionByZero)
                } else if (x as int) % (y as int) == 0 {
                    Self::exact((x as int) / (y as int))
                } else {
                    Ok(Self::inexact(fm, Operation::Div, a, b))
                }
            },
            _ => Ok(Self::inexact(fm, Operation::Div, a, b)),
        }
    }

    /// The negation: exact for an integer, a flipped sign for a float.
    pub open spec fn negation(a: Number) -> Result<Number, ArithmeticError> {
        match a {
            Number::Int(x) => Self::exact(-x),
            Number::Float(b) => Ok(Number::Float(bits_negated(b))),
        }
    }

    /// Equality: of the integers where both are exact, else of the promoted
    /// operands as floats.
    pub open spec fn equal(fm: FloatFn, a: Number, b: Number) -> bool {
        match (a, b) {
            (Number::Int(x), Number::Int(y)) => x == y,
            _ => bits_equal(Self::promoted(fm, a), Self::promoted(fm, b)),
        }
    }

    /// Order: of the integers where both are exact, else of the promoted
    /// operands as floats.
    pub open spec fn less(fm: FloatFn, a: Number, b: Number) -> bool {
        match (a, b) {
            (Number::Int(x), Number::Int(y)) => x < y,
            _ => bits_less(Self::promoted(fm, a), Self::promoted(fm, b)),
        }
    }

    /// The result of the given operation on two numbers.
    pub open spec fn combined(fm: FloatFn, op: Operation, a: Number, b: Number) -> Result<
        Number,
        ArithmeticError,
    > {
        match op {
            Operation::Add => Self::sum(fm, a, b),
            Operation::Sub => Self::difference(fm, a, b),
            Operation::Mul => Self::product(fm, a, b),
            Operation::Div => Self::quotient(fm, a, b),
        }
    }

    /// Whether the given relation holds between two numbers.
    pub open spec fn related(fm: FloatFn, rel: Relation, a: Number, b: Number) -> bool {
        match rel {
            Relation::Greater => Self::less(fm, b, a),
            Relation::Less => Self::less(fm, a, b),
            Relation::Equal => Self::equal(fm, a, b),
        }
    }

    /// The number that a text denotes: the integer where it denotes one,
    /// else the float where it denotes one.
    pub open spec fn parsed(rf: ReadFn, text: Seq<char>) -> Option<Number> {
        match integer_value(text) {
            Some(v) => Some(Number::Int(v)),
            None => match rf(text) {
                Some(bits) => Some(Number::Float(bits)),
                None => None,
            },
        }
    }

    /// The notation of a number: decimal digits for an integer, and what the
    /// float writer gives for a float.
    pub open spec fn text(wf: WriteFn, n: Number) -> Seq<char> {
        match n {
            Number::Int(v) => decimal(v as int),
            Number::Float(bits) => wf(bits),
        }
    }

    /// Reads a number: an integer where the text denotes one, else a float.
    pub fn parse<R: Fn(&str) -> Option<u64>>(text: &str, reader: &R) -> (r: Result<
        Number,
        ParseNumberError,
    >)
        requires
            is_float_reader(reader),
        ensures
            match r {
                Ok(n) => Self::parsed(read_fn(reader), text@) == Some(n),
                Err(_) => Self::parsed(read_fn(reader), text@) is None,
            },
    {
        match parse_integer(text) {
            Some(v) => Ok(Number::Int(v)),
            None => match read_float(reader, text) {
                Some(bits) => Ok(Number::Float(bits)),
                None => Err(ParseNumberError {  }),
            },
        }
    }

    /// Writes a number.
    pub fn to_text<W: Fn(u64) -> String>(self, writer: &W) -> (r: String)
        requires
            is_float_writer(writer),
        ensures
            r@ == Self::text(write_fn(writer), self),
    {
        match self {
            Number::Int(v) => integer_text(v),
            Number::Float(bits) => write_float(writer, bits),
        }
    }

    /// An integer and a float give a float, whichever comes first: the
    /// integer is promoted and the operation is that of the floats. The
    /// relations between them are those of the floats, the integer promoted.
    pub proof fn lemma_integer_is_promoted(fm: FloatFn, i: i64, f: u64)
        ensures
            Self::sum(fm, Number::Int(i), Number::Float(f)) == Ok::<Number, ArithmeticError>(
                Number::Float(fm(FloatOp::Add(fm(FloatOp::FromInt(i)), f))),
            ),
            Self::sum(fm, Number::Float(f), Number::Int(i)) == Ok::<Number, ArithmeticError>(
                Number::Float(fm(FloatOp::Add(f, fm(FloatOp::FromInt(i))))),
            ),
            Self::difference(fm, Number::Int(i), Number::Float(f)) == Ok::<
                Number,
                ArithmeticError,
            >(Number::Float(fm(FloatOp::Sub(fm(FloatOp::FromInt(i)), f)))),
            Self::difference(fm, Number::Float(f), Number::Int(i)) == Ok::<
                Number,
                ArithmeticError,
            >(Number::Float(fm(FloatOp::Sub(f, fm(FloatOp::FromInt(i)))))),
            Self::product(fm, Number::Int(i), Number::Float(f)) == Ok::<Number, ArithmeticError>(
                Number::Float(fm(FloatOp::Mul(fm(FloatOp::FromInt(i)), f))),
            ),
            Self::product(fm, Number::Float(f), Number::Int(i)) == Ok::<Number, ArithmeticError>(
                Number::Float(fm(FloatOp::Mul(f, fm(FloatOp::FromInt(i))))),
            ),
            Self::quotient(fm, Number::Int(i), Number::Float(f)) == Ok::<Number, ArithmeticError>(
                Number::Float(fm(FloatOp::Div(fm(FloatOp::FromInt(i)), f))),
            ),
            Self::quotient(fm, Number::Float(f), Number::Int(i)) == Ok::<Number, ArithmeticError>(
                Number::Float(fm(FloatOp::Div(f, fm(FloatOp::FromInt(i))))),
            ),
            Self::equal(fm, Number::Int(i), Number::Float(f)) == bits_equal(
                fm(FloatOp::FromInt(i)),
                f,
            ),
            Self::equal(fm, Number::Float(f), Number::Int(i)) == bits_equal(
                f,
                fm(FloatOp::FromInt(i)),
            ),
            Self::less(fm, Number::Int(i), Number::Float(f)) == bits_less(
                fm(FloatOp::FromInt(i)),
                f,
            ),
            Self::less(fm, Number::Float(f), Number::Int(i)) == bits_less(
                f,
                fm(FloatOp::FromInt(i)),
            ),
    {
    }

    /// The float made of the given bits.
    pub fn from_bits(bits: u64) -> (r: Number)
        ensures
            r == Number::Float(bits),
    {
        Number::Float(bits)
    }

    /// The operand as float bits.
    pub fn promote<F: Fn(FloatOp) -> u64>(self, unit: &F) -> (r: u64)
        requires
            is_float_unit(unit),
        ensures
            r == Self::promoted(float_fn(unit), self),
    {
        match self {
            Number::Int(v) => ask(unit, FloatOp::FromInt(v)),
            Number::Float(b) => b,
        }
    }

    /// Applies an operation to two numbers as floats: promotes the
    /// integer among them, if there is one, and asks the float unit.
    fn apply_float_op<F: Fn(FloatOp) -> u64>(self, op: Operation, other: Number, unit: &F) -> (r:
        Number)
        requires
            is_float_unit(unit),
        ensures
            r == Self::inexact(float_fn(unit), op, self, other),
    {
        let a = self.promote(unit);
        let b = other.promote(unit);
        let request = match op {
            Operation::Add => FloatOp::Add(a, b),
            Operation::Sub => FloatOp::Sub(a, b),
            Operation::Mul => FloatOp::Mul(a, b),
            Operation::Div => FloatOp::Div(a, b),
        };
        Number::Float(ask(unit, request))
    }

    /// The exact result of an operation on integers that did not overflow.
    fn checked(v: Option<i64>) -> (r: Result<Number, ArithmeticError>)
        ensures
            r == match v {
                Some(x) => Ok::<Number, ArithmeticError>(Number::Int(x)),
                None => Err(ArithmeticError::Overflow),
            },
    {
        match v {
            Some(x) => Ok(Number::Int(x)),
            None => Err(ArithmeticError::Overflow),
        }
    }

    /// Adds two numbers.
    pub fn add<F: Fn(FloatOp) -> u64>(self, other: Number, unit: &F) -> (r: Result<
        Number,
        ArithmeticError,
    >)
        requires
            is_float_unit(unit),
        ensures
            r == Self::sum(float_fn(unit), self, other),
    {
        match (self, other) {
            (Number::Int(x), Number::Int(y)) => Self::checked(x.checked_add(y)),
            _ => Ok(self.apply_float_op(Operation::Add, other, unit)),
        }
    }

    /// Subtracts the second number from the first.
    pub fn sub<F: Fn(FloatOp) -> u64>(self, other: Number, unit: &F) -> (r: Result<
        Number,
        ArithmeticError,
    >)
        requires
            is_float_unit(unit),
        ensures
            r == Self::difference(float_fn(unit), self, other),
    {
        match (self, other) {
            (Number::Int(x), Number::Int(y)) => Self::checked(x.checked_sub(y)),
            _ => Ok(self.apply_float_op(Operation::Sub, other, unit)),
        }
    }

    /// Multiplies two numbers.
    pub fn mul<F: Fn(FloatOp) -> u64>(self, other: Number, unit: &F) -> (r: Result<
        Number,
        ArithmeticError,
    >)
        requires
            is_float_unit(unit),
        ensures
            r == Self::product(float_fn(unit), self, other),
    {
        match (self, other) {
            (Number::Int(x), Number::Int(y)) => Self::checked(x.checked_mul(y)),
            _ => Ok(self.apply_float_op(Operation::Mul, other, unit)),
        }
    }

    /// Divides the first number by the second.
    pub fn div<F: Fn(FloatOp) -> u64>(self, other: Number, unit: &F) -> (r: Result<
        Number,
        ArithmeticError,
    >)
        requires
            is_float_unit(unit),
        ensures
            r == Self::quotient(float_fn(unit), self, other),
    {
        match (self, other) {
            (Number::Int(x), Number::Int(y)) => {
                if y == 0 {
                    Err(ArithmeticError::DivisionByZero)
                } else if x == i64::MIN && y == -1 {
                    Err(ArithmeticError::Overflow)
                } else {
                    match x.checked_rem_euclid(y) {
                        Some(0) => Self::checked(x.checked_div_euclid(y)),
                        _ => Ok(self.apply_float_op(Operation::Div, other, unit)),
                    }
                }
            },
            _ => Ok(self.apply_float_op(Operation::Div, other, unit)),
        }
    }

    /// Negates a number.
    pub fn neg(self) -> (r: Result<Number, ArithmeticError>)
        ensures
            r == Self::negation(self),
    {
        match self {
            Number::Int(x) => Self::checked(0i64.checked_sub(x)),
            Number::Float(b) => Ok(Number::Float(float_neg(b))),
        }
    }

    /// Tells whether two numbers are equal.
    pub fn eq<F: Fn(FloatOp) -> u64>(self, other: Number, unit: &F) -> (r: bool)
        requires
            is_float_unit(unit),
        ensures
            r == Self::equal(float_fn(unit), self, other),
    {
        match (self, other) {
            (Number::Int(x), Number::Int(y)) => x == y,
            _ => {
                let a = self.promote(unit);
                let b = other.promote(unit);
                float_eq(a, b)
            },
        }
    }

    /// Tells whether the first number is below the second.
    pub fn lt<F: Fn(FloatOp) -> u64>(self, other: Number, unit: &F) -> (r: bool)
        requires
            is_float_unit(unit),
        ensures
            r == Self::less(float_fn(unit), self, other),
    {
        match (self, other) {
            (Number::Int(x), Number::Int(y)) => x < y,
            _ => {
                let a = self.promote(unit);
                let b = other.promote(unit);
                float_lt(a, b)
            },
        }
    }

    /// Applies the given operation to two numbers.
    pub fn combine<F: Fn(FloatOp) -> u64>(self, op: Operation, other: Number, unit: &F) -> (r:
        Result<Number, ArithmeticError>)
        requires
            is_float_unit(unit),
        ensures
            r == Self::combined(float_fn(unit), op, self, other),
    {
        match op {
            Operation::Add => self.add(other, unit),
            Operation::Sub => self.sub(other, unit),
            Operation::Mul => self.mul(other, unit),
            Operation::Div => self.div(other, unit),
        }
    }

    /// Tells whether the given relation holds between two numbers.
    pub fn relate<F: Fn(FloatOp) -> u64>(self, rel: Relation, other: Number, unit: &F) -> (r: bool)
        requires
            is_float_unit(unit),
        ensures
            r == Self::related(float_fn(unit), rel, self, other),
    {
        match rel {
            Relation::Greater => self.gt(other, unit),
            Relation::Less => self.lt(other, unit),
            Relation::Equal => self.eq(other, unit),
        }
    }

    /// Tells whether the first number is above the second.
    pub fn gt<F: Fn(FloatOp) -> u64>(self, other: Number, unit: &F) -> (r: bool)
        requires
            is_float_unit(unit),
        ensures
            r == Self::less(float_fn(unit), other, self),
    {
        other.lt(self, unit)
    }
}

} // verus!
