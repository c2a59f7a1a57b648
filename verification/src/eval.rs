//! The evaluator.
//!
//! [`evaluate`] says what an expression evaluates to and what the evaluation
//! does to the frames; [`eval`] computes it.
//!
//! An evaluation nests: that of a combination holds those of its elements,
//! and that of an application holds that of the procedure's body. How deep
//! it may nest is bounded, so that every evaluation ends: one that would go
//! deeper fails with `DepthExceeded`.

use vstd::prelude::*;
use crate::builtins::{applied, apply_builtin};
use crate::environment::{bind, leave, resolve, Environment, Scope};
use crate::error::{outcome, EvalError, Failure};
use crate::expression::{names, terms, Expression, Term};
use crate::float::{float_fn, is_float_unit, FloatFn, FloatOp};

verus! {

/// How deep [`eval`] lets an evaluation nest. The bound is low enough for
/// the call stack of a thread of two megabytes; [`eval_within`] takes
/// another.
pub const MAX_DEPTH: usize = 1000;

/// What an evaluation comes to: the value or the failure, and the frames as
/// it leaves them.
pub struct Outcome {
    pub value: Result<Term, Failure>,
    pub frames: Seq<Scope>,
}

/// What the evaluation of a list of expressions comes to: the values or the
/// first failure, and the frames as it leaves them.
pub struct Gathered {
    pub values: Result<Seq<Term>, Failure>,
    pub frames: Seq<Scope>,
}

/// The names in a procedure's signature, where every element of it is a
/// name.
pub open spec fn signature_names(signature: Seq<Term>) -> Option<Seq<Seq<char>>> {
    if forall|i: int| 0 <= i < signature.len() ==> #[trigger] signature[i] is Identifier {
        Some(Seq::new(signature.len(), |i: int| signature[i]->Identifier_0))
    } else {
        None
    }
}

/// The frames with the parameters from position `from` on bound, in order,
/// to the values at their positions.
pub open spec fn bind_all(
    frames: Seq<Scope>,
    params: Seq<Seq<char>>,
    values: Seq<Term>,
    from: int,
) -> Seq<Scope>
    decreases params.len() - from,
{
    if from < 0 || from >= params.len() {
        frames
    } else {
        bind_all(bind(frames, params[from], values[from]), params, values, from + 1)
    }
}

/// The meaning of an expression: what it evaluates to in the given frames,
/// nesting no deeper than `depth`.
///
/// A name evaluates to what it resolves to. A combination is a definition
/// where it starts with the name `define`, a conditional where it starts
/// with the name `cond`, and else an application. Everything else
/// evaluates to itself.
pub open spec fn evaluate(fm: FloatFn, expr: Term, frames: Seq<Scope>, depth: nat) -> Outcome
    decreases depth, 0nat, 0nat,
{
    if depth == 0 {
        Outcome { value: Err(Failure::DepthExceeded), frames }
    } else {
        match expr {
            Term::Identifier(id) => match resolve(frames, id) {
                Some(value) => Outcome { value: Ok(value), frames },
                None => Outcome { value: Err(Failure::UndefinedSymbol(id)), frames },
            },
            Term::Combination(elements) => {
                if elements.len() == 0 {
                    Outcome { value: Err(Failure::InvalidSyntax), frames }
                } else if elements[0] == Term::Identifier("define"@) {
                    evaluate_define(fm, elements, frames, (depth - 1) as nat)
                } else if elements[0] == Term::Identifier("cond"@) {
                    evaluate_cond(fm, elements, 1, frames, (depth - 1) as nat)
                } else {
                    evaluate_application(fm, elements, frames, (depth - 1) as nat)
                }
            },
            other => Outcome { value: Ok(other), frames },
        }
    }
}

/// The meaning of `(define name body)` and of `(define (name param ...)
/// body)`.
///
/// The first evaluates the body and binds the name to its value. The second
/// binds the name to a procedure that holds the body as it stands. Both
/// bind in the innermost frame and evaluate to the void value. Any other
/// shape is a syntax error.
pub open spec fn evaluate_define(fm: FloatFn, elements: Seq<Term>, frames: Seq<Scope>, depth: nat) -> Outcome
    decreases depth, 1nat, 0nat,
{
    if elements.len() != 3 {
        Outcome { value: Err(Failure::InvalidSyntax), frames }
    } else {
        match elements[1] {
            Term::Identifier(name) => {
                let body = evaluate(fm, elements[2], frames, depth);
                match body.value {
                    Ok(value) => Outcome {
                        value: Ok(Term::Void),
                        frames: bind(body.frames, name, value),
                    },
                    Err(failure) => body,
                }
            },
            Term::Combination(signature) => match signature_names(signature) {
                Some(ids) => if ids.len() == 0 {
                    Outcome { value: Err(Failure::InvalidSyntax), frames }
                } else {
                    Outcome {
                        value: Ok(Term::Void),
                        frames: bind(
                            frames,
                            ids[0],
                            Term::Procedure(ids.drop_first(), Box::new(elements[2])),
                        ),
                    }
                },
                None => Outcome { value: Err(Failure::InvalidSyntax), frames },
            },
            _ => Outcome { value: Err(Failure::InvalidSyntax), frames },
        }
    }
}

/// The meaning of `(cond clause ...)` from the clause at position `from`
/// on.
///
/// A clause is a combination of a predicate and a consequent; anything else
/// is a syntax error. The clauses are taken in order. The first whose
/// predicate evaluates to anything but the false value gives the result:
/// its consequent is evaluated and no clause after it is looked at. Without
/// such a clause the result is the void value.
pub open spec fn evaluate_cond(
    fm: FloatFn,
    elements: Seq<Term>,
    from: int,
    frames: Seq<Scope>,
    depth: nat,
) -> Outcome
    decreases depth, 1nat, elements.len() - from,
{
    if from < 0 || from >= elements.len() {
        Outcome { value: Ok(Term::Void), frames }
    } else {
        match elements[from] {
            Term::Combination(clause) => if clause.len() != 2 {
                Outcome { value: Err(Failure::InvalidSyntax), frames }
            } else {
                let predicate = evaluate(fm, clause[0], frames, depth);
                match predicate.value {
                    Ok(Term::BooleanLiteral(false)) => evaluate_cond(
                        fm,
                        elements,
                        from + 1,
                        predicate.frames,
                        depth,
                    ),
                    Ok(_) => evaluate(fm, clause[1], predicate.frames, depth),
                    Err(_) => predicate,
                }
            },
            _ => Outcome { value: Err(Failure::InvalidSyntax), frames },
        }
    }
}

/// The values of the elements from position `from` on, evaluated left to
/// right and added to `done`. The first failure ends the evaluation.
pub open spec fn evaluate_all(
    fm: FloatFn,
    elements: Seq<Term>,
    from: int,
    done: Seq<Term>,
    frames: Seq<Scope>,
    depth: nat,
) -> Gathered
    decreases depth, 1nat, elements.len() - from,
{
    if from < 0 || from >= elements.len() {
        Gathered { values: Ok(done), frames }
    } else {
        let element = evaluate(fm, elements[from], frames, depth);
        match element.value {
            Ok(value) => evaluate_all(
                fm,
                elements,
                from + 1,
                done.push(value),
                element.frames,
                depth,
            ),
            Err(failure) => Gathered { values: Err(failure), frames: element.frames },
        }
    }
}

/// The meaning of an application `(operand argument ...)`.
///
/// The operand is evaluated first, then every argument, left to right. A
/// native procedure is handed the arguments. A user-defined procedure must
/// get as many arguments as it has parameters; its body is evaluated in the
/// frames of the caller under a new frame that binds the parameters, and
/// that frame is left again whatever the body comes to. Any other operand
/// is an error.
pub open spec fn evaluate_application(
    fm: FloatFn,
    elements: Seq<Term>,
    frames: Seq<Scope>,
    depth: nat,
) -> Outcome
    decreases depth, 2nat, 0nat,
{
    let operand = evaluate(fm, elements[0], frames, depth);
    match operand.value {
        Err(_) => operand,
        Ok(Term::BuiltinProcedure(builtin)) => {
            let args = evaluate_all(fm, elements, 1, Seq::empty(), operand.frames, depth);
            match args.values {
                Ok(values) => Outcome { value: applied(fm, builtin, values), frames: args.frames },
                Err(failure) => Outcome { value: Err(failure), frames: args.frames },
            }
        },
        Ok(Term::Procedure(params, body)) => {
            let args = evaluate_all(fm, elements, 1, Seq::empty(), operand.frames, depth);
            match args.values {
                Ok(values) => if params.len() != values.len() {
                    Outcome { value: Err(Failure::WrongArgumentCount), frames: args.frames }
                } else {
                    let inner = evaluate(
                        fm,
                        *body,
                        bind_all(args.frames.push(Map::empty()), params, values, 0),
                        depth,
                    );
                    Outcome { value: inner.value, frames: leave(inner.frames) }
                },
                Err(failure) => Outcome { value: Err(failure), frames: args.frames },
            }
        },
        Ok(other) => Outcome {
            value: Err(Failure::NonProcedureApplication(other)),
            frames: operand.frames,
        },
    }
}

/// Whether a result and the frames left behind are what `expected` says.
pub open spec fn agrees(
    expected: Outcome,
    result: Result<Expression, EvalError>,
    frames: Seq<Scope>,
) -> bool {
    outcome(result) == expected.value && frames == expected.frames
}

/// Evaluates an expression in the given environment, nesting no deeper
/// than [`MAX_DEPTH`].
pub fn eval<F: Fn(FloatOp) -> u64>(expr: &Expression, env: &mut Environment, unit: &F) -> (r: Result<
    Expression,
    EvalError,
>)
    requires
        is_float_unit(unit),
        old(env)@.len() > 0,
    ensures
        agrees(evaluate(float_fn(unit), expr@, old(env)@, MAX_DEPTH as nat), r, final(env)@),
        final(env)@.len() == old(env)@.len(),
{
    eval_within(expr, env, unit, MAX_DEPTH)
}

/// Evaluates an expression in the given environment, nesting no deeper
/// than `depth`.
pub fn eval_within<F: Fn(FloatOp) -> u64>(
    expr: &Expression,
    env: &mut Environment,
    unit: &F,
    depth: usize,
) -> (r: Result<Expression, EvalError>)
    requires
        is_float_unit(unit),
        old(env)@.len() > 0,
    ensures
        agrees(evaluate(float_fn(unit), expr@, old(env)@, depth as nat), r, final(env)@),
        final(env)@.len() == old(env)@.len(),
    decreases depth, 0nat,
{
    if depth == 0 {
        return Err(EvalError::DepthExceeded);
    }
    match expr {
        Expression::Identifier(id) => match env.lookup(id) {
            Some(value) => Ok(value.clone()),
            None => Err(EvalError::UndefinedSymbol(id.clone())),
        },
        Expression::Combination(elements) => {
            proof {
                Expression::lemma_combination_term(*elements);
            }
            if elements.len() == 0 {
                return Err(EvalError::InvalidSyntax);
            }
            if let Expression::Identifier(id) = &elements[0] {
                if id.as_str().eq("define") {
                    return eval_define(elements, env, unit, depth - 1);
                } else if id.as_str().eq("cond") {
                    return eval_cond(elements, env, unit, depth - 1);
                }
            }
            eval_application(elements, env, unit, depth - 1)
        },
        other => Ok(other.clone()),
    }
}

/// The names in a procedure's signature, where every element of it is a
/// name.
fn identifiers(signature: &Vec<Expression>) -> (r: Option<Vec<String>>)
    ensures
        match r {
            Some(ids) => signature_names(terms(signature@)) == Some(names(ids@)),
            None => signature_names(terms(signature@)) is None,
        },
{
    let ghost ts = terms(signature@);
    let mut ids: Vec<String> = Vec::new();
    let mut i: usize = 0;
    while i < signature.len()
        invariant
            i <= signature.len(),
            ts == terms(signature@),
            ids@.len() == i,
            forall|j: int| 0 <= j < i ==> #[trigger] ts[j] == Term::Identifier(ids@[j]@),
        decreases signature.len() - i,
    {
        match &signature[i] {
            Expression::Identifier(name) => {
                ids.push(name.clone());
            },
            _ => {
                assert(!(ts[i as int] is Identifier));
                return None;
            },
        }
        i += 1;
    }
    assert(signature_names(ts)->0 =~= names(ids@));
    Some(ids)
}

/// Evaluates a definition.
fn eval_define<F: Fn(FloatOp) -> u64>(
    elements: &Vec<Expression>,
    env: &mut Environment,
    unit: &F,
    depth: usize,
) -> (r: Result<Expression, EvalError>)
    requires
        is_float_unit(unit),
        old(env)@.len() > 0,
    ensures
        agrees(
            evaluate_define(float_fn(unit), terms(elements@), old(env)@, depth as nat),
            r,
            final(env)@,
        ),
        final(env)@.len() == old(env)@.len(),
    decreases depth, 1nat,
{
    if elements.len() != 3 {
        return Err(EvalError::InvalidSyntax);
    }
    let body = &elements[2];
    match &elements[1] {
        Expression::Identifier(name) => match eval_within(body, env, unit, depth) {
            Ok(value) => {
                env.insert(name.clone(), value);
                Ok(Expression::Void)
            },
            Err(error) => Err(error),
        },
        Expression::Combination(signature) => {
            proof {
                Expression::lemma_combination_term(*signature);
            }
            match identifiers(signature) {
                Some(mut ids) => {
                    if ids.len() == 0 {
                        return Err(EvalError::InvalidSyntax);
                    }
                    let ghost all = names(ids@);
                    let name = ids.remove(0);
                    assert(names(ids@) =~= all.drop_first());
                    env.insert(name, Expression::Procedure(ids, Box::new(body.clone())));
                    Ok(Expression::Void)
                },
                None => Err(EvalError::InvalidSyntax),
            }
        },
        _ => Err(EvalError::InvalidSyntax),
    }
}

/// Evaluates a conditional.
fn eval_cond<F: Fn(FloatOp) -> u64>(
    elements: &Vec<Expression>,
    env: &mut Environment,
    unit: &F,
    depth: usize,
) -> (r: Result<Expression, EvalError>)
    requires
        is_float_unit(unit),
        old(env)@.len() > 0,
    ensures
        agrees(
            evaluate_cond(float_fn(unit), terms(elements@), 1, old(env)@, depth as nat),
            r,
            final(env)@,
        ),
        final(env)@.len() == old(env)@.len(),
    decreases depth, 1nat,
{
    let ghost fm = float_fn(unit);
    let ghost ts = terms(elements@);
    let ghost goal = evaluate_cond(fm, ts, 1, env@, depth as nat);
    let mut i: usize = 1;
    while i < elements.len()
        invariant
            1 <= i,
            is_float_unit(unit),
            fm == float_fn(unit),
            ts == terms(elements@),
            env@.len() == old(env)@.len(),
            env@.len() > 0,
            goal == evaluate_cond(fm, ts, 1, old(env)@, depth as nat),
            goal == evaluate_cond(fm, ts, i as int, env@, depth as nat),
        decreases elements.len() - i,
    {
        match &elements[i] {
            Expression::Combination(clause) => {
                proof {
                    Expression::lemma_combination_term(*clause);
                }
                if clause.len() != 2 {
                    return Err(EvalError::InvalidSyntax);
                }
                match eval_within(&clause[0], env, unit, depth) {
                    Ok(Expression::BooleanLiteral(false)) => {},
                    Ok(_) => {
                        return eval_within(&clause[1], env, unit, depth);
                    },
                    Err(error) => {
                        return Err(error);
                    },
                }
            },
            _ => {
                return Err(EvalError::InvalidSyntax);
            },
        }
        i += 1;
    }
    Ok(Expression::Void)
}

/// Evaluates the elements from position `from` on, left to right.
fn eval_all<F: Fn(FloatOp) -> u64>(
    elements: &Vec<Expression>,
    from: usize,
    env: &mut Environment,
    unit: &F,
    depth: usize,
) -> (r: Result<Vec<Expression>, EvalError>)
    requires
        is_float_unit(unit),
        old(env)@.len() > 0,
        from <= elements.len(),
    ensures
        ({
            let expected = evaluate_all(
                float_fn(unit),
                terms(elements@),
                from as int,
                Seq::empty(),
                old(env)@,
                depth as nat,
            );
            &&& final(env)@ == expected.frames
            &&& match r {
                Ok(values) => expected.values == Ok::<Seq<Term>, Failure>(terms(values@)),
                Err(error) => expected.values == Err::<Seq<Term>, Failure>(error@),
            }
        }),
        final(env)@.len() == old(env)@.len(),
    decreases depth, 1nat,
{
    let ghost fm = float_fn(unit);
    let ghost ts = terms(elements@);
    let ghost goal = evaluate_all(fm, ts, from as int, Seq::empty(), env@, depth as nat);
    let mut values: Vec<Expression> = Vec::new();
    let mut i: usize = from;
    assert(terms(values@) =~= Seq::<Term>::empty());
    while i < elements.len()
        invariant
            from <= i <= elements.len(),
            is_float_unit(unit),
            fm == float_fn(unit),
            ts == terms(elements@),
            env@.len() == old(env)@.len(),
            env@.len() > 0,
            goal == evaluate_all(fm, ts, from as int, Seq::empty(), old(env)@, depth as nat),
            goal == evaluate_all(fm, ts, i as int, terms(values@), env@, depth as nat),
        decreases elements.len() - i,
    {
        let ghost done = terms(values@);
        match eval_within(&elements[i], env, unit, depth) {
            Ok(value) => {
                values.push(value);
                assert(terms(values@) =~= done.push(value@));
            },
            Err(error) => {
                return Err(error);
            },
        }
        i += 1;
    }
    Ok(values)
}

/// Evaluates an application.
fn eval_application<F: Fn(FloatOp) -> u64>(
    elements: &Vec<Expression>,
    env: &mut Environment,
    unit: &F,
    depth: usize,
) -> (r: Result<Expression, EvalError>)
    requires
        is_float_unit(unit),
        old(env)@.len() > 0,
        elements.len() > 0,
    ensures
        agrees(
            evaluate_application(float_fn(unit), terms(elements@), old(env)@, depth as nat),
            r,
            final(env)@,
        ),
        final(env)@.len() == old(env)@.len(),
    decreases depth, 2nat,
{
    let operand = match eval_within(&elements[0], env, unit, depth) {
        Ok(operand) => operand,
        Err(error) => {
            return Err(error);
        },
    };
    match operand {
        Expression::BuiltinProcedure(builtin) => match eval_all(elements, 1, env, unit, depth) {
            Ok(args) => apply_builtin(builtin, args, unit),
            Err(error) => Err(error),
        },
        Expression::Procedure(params, body) => {
            let args = match eval_all(elements, 1, env, unit, depth) {
                Ok(args) => args,
                Err(error) => {
                    return Err(error);
                },
            };
            if params.len() != args.len() {
                return Err(EvalError::WrongArgumentCount);
            }
            let ghost outer = env@;
            env.push();
            let ghost entered = env@;
            let mut i: usize = 0;
            while i < params.len()
                invariant
                    i <= params.len(),
                    params.len() == args.len(),
                    env@.len() == outer.len() + 1,
                    bind_all(entered, names(params@), terms(args@), 0) == bind_all(
                        env@,
                        names(params@),
                        terms(args@),
                        i as int,
                    ),
                decreases params.len() - i,
            {
                env.insert(params[i].clone(), args[i].clone());
                i += 1;
            }
            let result = eval_within(&body, env, unit, depth);
            env.pop();
            result
        },
        other => Err(EvalError::NonProcedureApplication(other)),
    }
}

} // verus!
