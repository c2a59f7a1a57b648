//! The native procedures: arithmetic and comparison on numbers.

use vstd::prelude::*;
use crate::error::{outcome, EvalError, Failure};
use crate::expression::{terms, Builtin, Expression, Term};
use crate::float::{float_fn, is_float_unit, FloatFn, FloatOp};
use crate::number::{ArithmeticError, Number, Operation, Relation};

verus! {

/// Folds `op` over the arguments from position `from` on, left to right,
/// starting with `acc`. An argument that is no number, or a step without a
/// result, ends the fold with the failure.
pub open spec fn folded(fm: FloatFn, op: Operation, acc: Number, args: Seq<Term>, from: int) -> Result<
    Number,
    Failure,
>
    decreases args.len() - from,
{
    if from < 0 || from >= args.len() {
        Ok(acc)
    } else {
        match args[from] {
            Term::NumberLiteral(n) => match Number::combined(fm, op, acc, n) {
                Ok(next) => folded(fm, op, next, args, from + 1),
                Err(error) => Err(Failure::of_arithmetic(error)),
            },
            _ => Err(Failure::TypeMismatch),
        }
    }
}

/// A number, or the failure to compute one, as the result of a procedure.
pub open spec fn numeric(r: Result<Number, Failure>) -> Result<Term, Failure> {
    match r {
        Ok(n) => Ok(Term::NumberLiteral(n)),
        Err(failure) => Err(failure),
    }
}

/// Whether every argument is a number.
pub open spec fn all_numbers(args: Seq<Term>) -> bool {
    forall|i: int| 0 <= i < args.len() ==> #[trigger] args[i] is NumberLiteral
}

/// Whether `rel` holds between the argument before position `i` and the one
/// at it.
pub open spec fn holds_at(fm: FloatFn, rel: Relation, args: Seq<Term>, i: int) -> bool {
    Number::related(fm, rel, args[i - 1]->NumberLiteral_0, args[i]->NumberLiteral_0)
}

/// Whether `rel` holds between every argument and the next.
pub open spec fn chained(fm: FloatFn, rel: Relation, args: Seq<Term>) -> bool {
    forall|i: int| 0 < i < args.len() ==> #[trigger] holds_at(fm, rel, args, i)
}

/// The result of comparing the arguments, each with the next.
pub open spec fn compared(fm: FloatFn, rel: Relation, args: Seq<Term>) -> Result<Term, Failure> {
    if all_numbers(args) {
        Ok(Term::BooleanLiteral(chained(fm, rel, args)))
    } else {
        Err(Failure::TypeMismatch)
    }
}

/// What a native procedure returns for the given arguments.
///
/// `+` and `*` fold the arguments from 0 and 1. `-` and `/` need an
/// argument and fold the rest from the first; `-` of one argument is its
/// negation. `>`, `<` and `=` hold where they hold between every argument
/// and the next.
pub open spec fn applied(fm: FloatFn, builtin: Builtin, args: Seq<Term>) -> Result<Term, Failure> {
    match builtin {
        Builtin::Add => numeric(folded(fm, Operation::Add, Number::Int(0), args, 0)),
        Builtin::Mul => numeric(folded(fm, Operation::Mul, Number::Int(1), args, 0)),
        Builtin::Sub => if args.len() == 0 {
            Err(Failure::WrongArgumentCount)
        } else {
            match args[0] {
                Term::NumberLiteral(first) => if args.len() == 1 {
                    match Number::negation(first) {
                        Ok(n) => Ok(Term::NumberLiteral(n)),
                        Err(error) => Err(Failure::of_arithmetic(error)),
                    }
                } else {
                    numeric(folded(fm, Operation::Sub, first, args, 1))
                },
                _ => Err(Failure::TypeMismatch),
            }
        },
        Builtin::Div => if args.len() == 0 {
            Err(Failure::WrongArgumentCount)
        } else {
            match args[0] {
                Term::NumberLiteral(first) => numeric(folded(fm, Operation::Div, first, args, 1)),
                _ => Err(Failure::TypeMismatch),
            }
        },
        Builtin::GreaterThan => compared(fm, Relation::Greater, args),
        Builtin::LessThan => compared(fm, Relation::Less, args),
        Builtin::Equal => compared(fm, Relation::Equal, args),
    }
}

/// Without an argument `+` gives 0, `*` gives 1 and each comparison holds;
/// `-` and `/` fail with `WrongArgumentCount`.
pub proof fn lemma_applied_to_nothing(fm: FloatFn)
    ensures
        applied(fm, Builtin::Add, Seq::empty()) == Ok::<Term, Failure>(
            Term::NumberLiteral(Number::Int(0)),
        ),
        applied(fm, Builtin::Mul, Seq::empty()) == Ok::<Term, Failure>(
            Term::NumberLiteral(Number::Int(1)),
        ),
        applied(fm, Builtin::Sub, Seq::empty()) == Err::<Term, Failure>(
            Failure::WrongArgumentCount,
        ),
        applied(fm, Builtin::Div, Seq::empty()) == Err::<Term, Failure>(
            Failure::WrongArgumentCount,
        ),
        applied(fm, Builtin::GreaterThan, Seq::empty()) == Ok::<Term, Failure>(
            Term::BooleanLiteral(true),
        ),
        applied(fm, Builtin::LessThan, Seq::empty()) == Ok::<Term, Failure>(
            Term::BooleanLiteral(true),
        ),
        applied(fm, Builtin::Equal, Seq::empty()) == Ok::<Term, Failure>(
            Term::BooleanLiteral(true),
        ),
{
}

/// Of one number `-` gives the negation and `/` the number itself, `+` and
/// `*` give the number where it is a float or fits, and each comparison
/// holds.
pub proof fn lemma_applied_to_one(fm: FloatFn, n: Number)
    ensures
        applied(fm, Builtin::Sub, seq![Term::NumberLiteral(n)]) == match Number::negation(n) {
            Ok(negated) => Ok::<Term, Failure>(Term::NumberLiteral(negated)),
            Err(error) => Err(Failure::of_arithmetic(error)),
        },
        applied(fm, Builtin::Div, seq![Term::NumberLiteral(n)]) == Ok::<Term, Failure>(
            Term::NumberLiteral(n),
        ),
        n is Int ==> applied(fm, Builtin::Add, seq![Term::NumberLiteral(n)]) == Ok::<
            Term,
            Failure,
        >(Term::NumberLiteral(n)),
        n is Int ==> applied(fm, Builtin::Mul, seq![Term::NumberLiteral(n)]) == Ok::<
            Term,
            Failure,
        >(Term::NumberLiteral(n)),
        applied(fm, Builtin::GreaterThan, seq![Term::NumberLiteral(n)]) == Ok::<Term, Failure>(
            Term::BooleanLiteral(true),
        ),
        applied(fm, Builtin::LessThan, seq![Term::NumberLiteral(n)]) == Ok::<Term, Failure>(
            Term::BooleanLiteral(true),
        ),
        applied(fm, Builtin::Equal, seq![Term::NumberLiteral(n)]) == Ok::<Term, Failure>(
            Term::BooleanLiteral(true),
        ),
{
    let args = seq![Term::NumberLiteral(n)];
    reveal_with_fuel(folded, 2);
    assert(args[0] == Term::NumberLiteral(n));
    assert(all_numbers(args));
    if let Number::Int(v) = n {
        assert(Number::product(fm, Number::Int(1), n) == Ok::<Number, ArithmeticError>(n)) by {
            assert(1 * (v as int) == v);
        }
    }
}

/// Folds `op` over the arguments from position `from` on, starting with
/// `start`.
fn fold_numbers<F: Fn(FloatOp) -> u64>(
    op: Operation,
    start: Number,
    args: &Vec<Expression>,
    from: usize,
    unit: &F,
) -> (r: Result<Expression, EvalError>)
    requires
        is_float_unit(unit),
        from <= args.len(),
    ensures
        outcome(r) == numeric(folded(float_fn(unit), op, start, terms(args@), from as int)),
{
    let ghost fm = float_fn(unit);
    let ghost ts = terms(args@);
    let mut acc = start;
    let mut i: usize = from;
    while i < args.len()
        invariant
            from <= i <= args.len(),
            is_float_unit(unit),
            fm == float_fn(unit),
            ts == terms(args@),
            folded(fm, op, start, ts, from as int) == folded(fm, op, acc, ts, i as int),
        decreases args.len() - i,
    {
        match &args[i] {
            Expression::NumberLiteral(n) => match acc.combine(op, *n, unit) {
                Ok(next) => {
                    acc = next;
                },
                Err(error) => {
                    return Err(EvalError::of_arithmetic(error));
                },
            },
            _ => {
                return Err(EvalError::TypeMismatch);
            },
        }
        i += 1;
    }
    Ok(Expression::NumberLiteral(acc))
}

/// `+`: the sum of the arguments, 0 without any.
pub fn builtin_add<F: Fn(FloatOp) -> u64>(args: Vec<Expression>, unit: &F) -> (r: Result<
    Expression,
    EvalError,
>)
    requires
        is_float_unit(unit),
    ensures
        outcome(r) == applied(float_fn(unit), Builtin::Add, terms(args@)),
{
    fold_numbers(Operation::Add, Number::Int(0), &args, 0, unit)
}

/// `*`: the product of the arguments, 1 without any.
pub fn builtin_mul<F: Fn(FloatOp) -> u64>(args: Vec<Expression>, unit: &F) -> (r: Result<
    Expression,
    EvalError,
>)
    requires
        is_float_unit(unit),
    ensures
        outcome(r) == applied(float_fn(unit), Builtin::Mul, terms(args@)),
{
    fold_numbers(Operation::Mul, Number::Int(1), &args, 0, unit)
}

/// `-`: the negation of one argument, or the first argument less all the
/// others.
pub fn builtin_sub<F: Fn(FloatOp) -> u64>(args: Vec<Expression>, unit: &F) -> (r: Result<
    Expression,
    EvalError,
>)
    requires
        is_float_unit(unit),
    ensures
        outcome(r) == applied(float_fn(unit), Builtin::Sub, terms(args@)),
{
    if args.len() == 0 {
        return Err(EvalError::WrongArgumentCount);
    }
    let first = match &args[0] {
        Expression::NumberLiteral(n) => *n,
        _ => {
            return Err(EvalError::TypeMismatch);
        },
    };
    if args.len() == 1 {
        return match first.neg() {
            Ok(n) => Ok(Expression::NumberLiteral(n)),
            Err(error) => Err(EvalError::of_arithmetic(error)),
        };
    }
    fold_numbers(Operation::Sub, first, &args, 1, unit)
}

/// `/`: the first argument divided by all the others.
pub fn builtin_div<F: Fn(FloatOp) -> u64>(args: Vec<Expression>, unit: &F) -> (r: Result<
    Expression,
    EvalError,
>)
    requires
        is_float_unit(unit),
    ensures
        outcome(r) == applied(float_fn(unit), Builtin::Div, terms(args@)),
{
    if args.len() == 0 {
        return Err(EvalError::WrongArgumentCount);
    }
    let first = match &args[0] {
        Expression::NumberLiteral(n) => *n,
        _ => {
            return Err(EvalError::TypeMismatch);
        },
    };
    fold_numbers(Operation::Div, first, &args, 1, unit)
}

/// The numbers that the arguments are, where all of them are numbers.
pub fn extract_numbers(args: Vec<Expression>) -> (r: Result<Vec<Number>, EvalError>)
    ensures
        match r {
            Ok(numbers) => {
                &&& all_numbers(terms(args@))
                &&& numbers@.len() == args@.len()
                &&& forall|i: int|
                    0 <= i < args@.len() ==> args@[i]@ == Term::NumberLiteral(#[trigger] numbers@[i])
            },
            Err(error) => error@ == Failure::TypeMismatch && !all_numbers(terms(args@)),
        },
{
    let mut numbers: Vec<Number> = Vec::new();
    let mut i: usize = 0;
    while i < args.len()
        invariant
            i <= args.len(),
            numbers@.len() == i,
            forall|j: int| 0 <= j < i ==> args@[j]@ == Term::NumberLiteral(#[trigger] numbers@[j]),
        decreases args.len() - i,
    {
        match &args[i] {
            Expression::NumberLiteral(n) => {
                numbers.push(*n);
            },
            _ => {
                assert(!(terms(args@)[i as int] is NumberLiteral));
                return Err(EvalError::TypeMismatch);
            },
        }
        i += 1;
    }
    assert forall|j: int| 0 <= j < terms(args@).len() implies #[trigger] terms(
        args@,
    )[j] is NumberLiteral by {
        assert(args@[j]@ == Term::NumberLiteral(numbers@[j]));
    }
    Ok(numbers)
}

/// Compares the arguments, each with the next.
fn compare_all<F: Fn(FloatOp) -> u64>(rel: Relation, args: Vec<Expression>, unit: &F) -> (r: Result<
    Expression,
    EvalError,
>)
    requires
        is_float_unit(unit),
    ensures
        outcome(r) == compared(float_fn(unit), rel, terms(args@)),
{
    let ghost fm = float_fn(unit);
    let ghost ts = terms(args@);
    let numbers = match extract_numbers(args) {
        Ok(numbers) => numbers,
        Err(error) => {
            return Err(error);
        },
    };
    assert(forall|j: int|
        0 <= j < ts.len() ==> (#[trigger] ts[j])->NumberLiteral_0 == numbers@[j]);
    let mut i: usize = 1;
    while i < numbers.len()
        invariant
            1 <= i,
            is_float_unit(unit),
            fm == float_fn(unit),
            ts == terms(args@),
            ts.len() == numbers@.len(),
            all_numbers(ts),
            forall|j: int| 0 <= j < ts.len() ==> (#[trigger] ts[j])->NumberLiteral_0 == numbers@[j],
            forall|j: int| 0 < j < i ==> #[trigger] holds_at(fm, rel, ts, j),
        decreases numbers.len() - i,
    {
        if !numbers[i - 1].relate(rel, numbers[i], unit) {
            assert(!holds_at(fm, rel, ts, i as int));
            return Ok(Expression::BooleanLiteral(false));
        }
        assert(holds_at(fm, rel, ts, i as int));
        i += 1;
    }
    Ok(Expression::BooleanLiteral(true))
}

/// `>`: whether every argument is above the next.
pub fn builtin_greater_than<F: Fn(FloatOp) -> u64>(args: Vec<Expression>, unit: &F) -> (r: Result<
    Expression,
    EvalError,
>)
    requires
        is_float_unit(unit),
    ensures
        outcome(r) == applied(float_fn(unit), Builtin::GreaterThan, terms(args@)),
{
    compare_all(Relation::Greater, args, unit)
}

/// `<`: whether every argument is below the next.
pub fn builtin_less_than<F: Fn(FloatOp) -> u64>(args: Vec<Expression>, unit: &F) -> (r: Result<
    Expression,
    EvalError,
>)
    requires
        is_float_unit(unit),
    ensures
        outcome(r) == applied(float_fn(unit), Builtin::LessThan, terms(args@)),
{
    compare_all(Relation::Less, args, unit)
}

/// `=`: whether every argument equals the next.
pub fn builtin_equal<F: Fn(FloatOp) -> u64>(args: Vec<Expression>, unit: &F) -> (r: Result<
    Expression,
    EvalError,
>)
    requires
        is_float_unit(unit),
    ensures
        outcome(r) == applied(float_fn(unit), Builtin::Equal, terms(args@)),
{
    compare_all(Relation::Equal, args, unit)
}

/// Applies a native procedure to its arguments.
pub fn apply_builtin<F: Fn(FloatOp) -> u64>(builtin: Builtin, args: Vec<Expression>, unit: &F) -> (r:
    Result<Expression, EvalError>)
    requires
        is_float_unit(unit),
    ensures
        outcome(r) == applied(float_fn(unit), builtin, terms(args@)),
{
    match builtin {
        Builtin::Add => builtin_add(args, unit),
        Builtin::Sub => builtin_sub(args, unit),
        Builtin::Mul => builtin_mul(args, unit),
        Builtin::Div => builtin_div(args, unit),
        Builtin::GreaterThan => builtin_greater_than(args, unit),
        Builtin::LessThan => builtin_less_than(args, unit),
        Builtin::Equal => builtin_equal(args, unit),
    }
}

} // verus!
