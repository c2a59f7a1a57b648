//! What holds of every evaluation.

use vstd::prelude::*;
use crate::environment::{bind, leave, resolve, Scope};
use crate::error::Failure;
use crate::eval::{
    bind_all, evaluate, evaluate_all, evaluate_application, evaluate_cond, evaluate_define,
    signature_names, Outcome,
};
use crate::expression::Term;
use crate::float::FloatFn;

verus! {

/// Whether two stacks of frames differ in nothing but what the innermost
/// frame binds.
pub open spec fn outer_frames_kept(before: Seq<Scope>, after: Seq<Scope>) -> bool {
    &&& after.len() == before.len()
    &&& after.drop_last() == before.drop_last()
}

/// Binding a name touches the innermost frame alone.
pub proof fn lemma_bind_keeps_outer_frames(frames: Seq<Scope>, key: Seq<char>, value: Term)
    ensures
        outer_frames_kept(frames, bind(frames, key, value)),
{
    if frames.len() > 0 {
        assert(bind(frames, key, value).drop_last() =~= frames.drop_last());
    }
}

/// Binding parameters touches the innermost frame alone, and in it only
/// the parameters' names.
pub proof fn lemma_bind_all_keeps_outer_frames(
    frames: Seq<Scope>,
    params: Seq<Seq<char>>,
    values: Seq<Term>,
    from: int,
)
    requires
        frames.len() > 0,
        0 <= from,
    ensures
        outer_frames_kept(frames, bind_all(frames, params, values, from)),
        forall|key: Seq<char>|
            !params.contains(key) ==> {
                let after = bind_all(frames, params, values, from);
                &&& after.last().contains_key(key) == frames.last().contains_key(key)
                &&& after.last()[key] == frames.last()[key]
            },
    decreases params.len() - from,
{
    if from < params.len() {
        let next = bind(frames, params[from], values[from]);
        lemma_bind_keeps_outer_frames(frames, params[from], values[from]);
        lemma_bind_all_keeps_outer_frames(next, params, values, from + 1);
        assert(params.contains(params[from]));
    }
}

/// An evaluation leaves as many frames as it found, and the outer ones as
/// it found them: whatever it comes to, each frame that it entered it has
/// left again, and what it defined it defined in the innermost frame.
pub proof fn lemma_evaluate_keeps_outer_frames(
    fm: FloatFn,
    expr: Term,
    frames: Seq<Scope>,
    depth: nat,
)
    ensures
        outer_frames_kept(frames, evaluate(fm, expr, frames, depth).frames),
    decreases depth, 0nat, 0nat,
{
    if depth > 0 {
        match expr {
            Term::Combination(elements) => {
                if elements.len() == 0 {
                } else if elements[0] == Term::Identifier("define"@) {
                    lemma_define_keeps_outer_frames(fm, elements, frames, (depth - 1) as nat);
                } else if elements[0] == Term::Identifier("cond"@) {
                    lemma_cond_keeps_outer_frames(fm, elements, 1, frames, (depth - 1) as nat);
                } else {
                    lemma_application_keeps_outer_frames(fm, elements, frames, (depth - 1) as nat);
                }
            },
            _ => {},
        }
    }
}

/// A definition keeps the outer frames.
pub proof fn lemma_define_keeps_outer_frames(
    fm: FloatFn,
    elements: Seq<Term>,
    frames: Seq<Scope>,
    depth: nat,
)
    ensures
        outer_frames_kept(frames, evaluate_define(fm, elements, frames, depth).frames),
    decreases depth, 1nat, 0nat,
{
    if elements.len() == 3 {
        match elements[1] {
            Term::Identifier(name) => {
                lemma_evaluate_keeps_outer_frames(fm, elements[2], frames, depth);
                let body = evaluate(fm, elements[2], frames, depth);
                if let Ok(value) = body.value {
                    lemma_bind_keeps_outer_frames(body.frames, name, value);
                }
            },
            Term::Combination(signature) => {
                let after = evaluate_define(fm, elements, frames, depth).frames;
                if after != frames {
                    let ids = signature_names(signature)->0;
                    lemma_bind_keeps_outer_frames(
                        frames,
                        ids[0],
                        Term::Procedure(ids.drop_first(), Box::new(elements[2])),
                    );
                }
            },
            _ => {},
        }
    }
}

/// A conditional keeps the outer frames.
pub proof fn lemma_cond_keeps_outer_frames(
    fm: FloatFn,
    elements: Seq<Term>,
    from: int,
    frames: Seq<Scope>,
    depth: nat,
)
    ensures
        outer_frames_kept(frames, evaluate_cond(fm, elements, from, frames, depth).frames),
    decreases depth, 1nat, elements.len() - from,
{
    if 0 <= from < elements.len() {
        match elements[from] {
            Term::Combination(clause) => {
                if clause.len() == 2 {
                    lemma_evaluate_keeps_outer_frames(fm, clause[0], frames, depth);
                    let predicate = evaluate(fm, clause[0], frames, depth);
                    match predicate.value {
                        Ok(Term::BooleanLiteral(false)) => {
                            lemma_cond_keeps_outer_frames(
                                fm,
                                elements,
                                from + 1,
                                predicate.frames,
                                depth,
                            );
                        },
                        Ok(_) => {
                            lemma_evaluate_keeps_outer_frames(
                                fm,
                                clause[1],
                                predicate.frames,
                                depth,
                            );
                        },
                        Err(_) => {},
                    }
                }
            },
            _ => {},
        }
    }
}

/// The evaluation of a list of expressions keeps the outer frames, and
/// gives a value for each expression where it gives values.
pub proof fn lemma_all_keeps_outer_frames(
    fm: FloatFn,
    elements: Seq<Term>,
    from: int,
    done: Seq<Term>,
    frames: Seq<Scope>,
    depth: nat,
)
    requires
        0 <= from <= elements.len(),
    ensures
        outer_frames_kept(frames, evaluate_all(fm, elements, from, done, frames, depth).frames),
        evaluate_all(fm, elements, from, done, frames, depth).values matches Ok(values)
            ==> values.len() == done.len() + elements.len() - from,
    decreases depth, 1nat, elements.len() - from,
{
    if from < elements.len() {
        lemma_evaluate_keeps_outer_frames(fm, elements[from], frames, depth);
        let element = evaluate(fm, elements[from], frames, depth);
        if let Ok(value) = element.value {
            lemma_all_keeps_outer_frames(
                fm,
                elements,
                from + 1,
                done.push(value),
                element.frames,
                depth,
            );
        }
    }
}

/// An application leaves the frames as the evaluation of its operand and
/// arguments left them: the body of the procedure leaves no trace.
pub proof fn lemma_application_keeps_outer_frames(
    fm: FloatFn,
    elements: Seq<Term>,
    frames: Seq<Scope>,
    depth: nat,
)
    requires
        elements.len() > 0,
    ensures
        outer_frames_kept(frames, evaluate_application(fm, elements, frames, depth).frames),
        ({
            let operand = evaluate(fm, elements[0], frames, depth);
            let args = evaluate_all(fm, elements, 1, Seq::empty(), operand.frames, depth);
            operand.value is Ok && (operand.value->Ok_0 is Procedure
                || operand.value->Ok_0 is BuiltinProcedure) ==> evaluate_application(
                fm,
                elements,
                frames,
                depth,
            ).frames == args.frames
        }),
    decreases depth, 2nat, 0nat,
{
    lemma_evaluate_keeps_outer_frames(fm, elements[0], frames, depth);
    let operand = evaluate(fm, elements[0], frames, depth);
    match operand.value {
        Ok(Term::BuiltinProcedure(_)) => {
            lemma_all_keeps_outer_frames(fm, elements, 1, Seq::empty(), operand.frames, depth);
        },
        Ok(Term::Procedure(params, body)) => {
            lemma_all_keeps_outer_frames(fm, elements, 1, Seq::empty(), operand.frames, depth);
            let args = evaluate_all(fm, elements, 1, Seq::empty(), operand.frames, depth);
            if let Ok(values) = args.values {
                if params.len() == values.len() {
                    let entered = args.frames.push(Map::empty());
                    let bound = bind_all(entered, params, values, 0);
                    lemma_bind_all_keeps_outer_frames(entered, params, values, 0);
                    lemma_evaluate_keeps_outer_frames(fm, *body, bound, depth);
                    let inner = evaluate(fm, *body, bound, depth);
                    assert(entered.drop_last() =~= args.frames);
                    assert(leave(inner.frames) == args.frames);
                }
            }
        },
        _ => {},
    }
}

/// Whether an evaluation ended, by a value or by a failure, without
/// reaching the bound on its depth.
pub open spec fn within_depth(value: Result<Term, Failure>) -> bool {
    value != Err::<Term, Failure>(Failure::DepthExceeded)
}

/// The bound on the depth only cuts evaluations off: one that ends within
/// the bound comes to the same under every greater bound.
pub proof fn lemma_evaluate_under_greater_bound(
    fm: FloatFn,
    expr: Term,
    frames: Seq<Scope>,
    depth: nat,
    greater: nat,
)
    requires
        depth <= greater,
        within_depth(evaluate(fm, expr, frames, depth).value),
    ensures
        evaluate(fm, expr, frames, greater) == evaluate(fm, expr, frames, depth),
    decreases depth, 0nat, 0nat,
{
    match expr {
        Term::Combination(elements) => {
            if elements.len() == 0 {
            } else if elements[0] == Term::Identifier("define"@) {
                lemma_define_under_greater_bound(
                    fm,
                    elements,
                    frames,
                    (depth - 1) as nat,
                    (greater - 1) as nat,
                );
            } else if elements[0] == Term::Identifier("cond"@) {
                lemma_cond_under_greater_bound(
                    fm,
                    elements,
                    1,
                    frames,
                    (depth - 1) as nat,
                    (greater - 1) as nat,
                );
            } else {
                lemma_application_under_greater_bound(
                    fm,
                    elements,
                    frames,
                    (depth - 1) as nat,
                    (greater - 1) as nat,
                );
            }
        },
        _ => {},
    }
}

/// An evaluation comes to one thing: whatever it comes to within one bound
/// it comes to within every other bound within which it ends.
pub proof fn lemma_evaluation_is_unique(
    fm: FloatFn,
    expr: Term,
    frames: Seq<Scope>,
    one: nat,
    other: nat,
)
    requires
        within_depth(evaluate(fm, expr, frames, one).value),
        within_depth(evaluate(fm, expr, frames, other).value),
    ensures
        evaluate(fm, expr, frames, one) == evaluate(fm, expr, frames, other),
{
    if one <= other {
        lemma_evaluate_under_greater_bound(fm, expr, frames, one, other);
    } else {
        lemma_evaluate_under_greater_bound(fm, expr, frames, other, one);
    }
}

/// A definition that ends within the bound comes to the same under every
/// greater bound.
pub proof fn lemma_define_under_greater_bound(
    fm: FloatFn,
    elements: Seq<Term>,
    frames: Seq<Scope>,
    depth: nat,
    greater: nat,
)
    requires
        depth <= greater,
        within_depth(evaluate_define(fm, elements, frames, depth).value),
    ensures
        evaluate_define(fm, elements, frames, greater) == evaluate_define(
            fm,
            elements,
            frames,
            depth,
        ),
    decreases depth, 1nat, 0nat,
{
    if elements.len() == 3 {
        if elements[1] is Identifier {
            lemma_evaluate_under_greater_bound(fm, elements[2], frames, depth, greater);
        }
    }
}

/// A conditional that ends within the bound comes to the same under every
/// greater bound.
pub proof fn lemma_cond_under_greater_bound(
    fm: FloatFn,
    elements: Seq<Term>,
    from: int,
    frames: Seq<Scope>,
    depth: nat,
    greater: nat,
)
    requires
        depth <= greater,
        within_depth(evaluate_cond(fm, elements, from, frames, depth).value),
    ensures
        evaluate_cond(fm, elements, from, frames, greater) == evaluate_cond(
            fm,
            elements,
            from,
            frames,
            depth,
        ),
    decreases depth, 1nat, elements.len() - from,
{
    if 0 <= from < elements.len() {
        match elements[from] {
            Term::Combination(clause) => {
                if clause.len() == 2 {
                    let predicate = evaluate(fm, clause[0], frames, depth);
                    lemma_evaluate_under_greater_bound(fm, clause[0], frames, depth, greater);
                    match predicate.value {
                        Ok(Term::BooleanLiteral(false)) => {
                            lemma_cond_under_greater_bound(
                                fm,
                                elements,
                                from + 1,
                                predicate.frames,
                                depth,
                                greater,
                            );
                        },
                        Ok(_) => {
                            lemma_evaluate_under_greater_bound(
                                fm,
                                clause[1],
                                predicate.frames,
                                depth,
                                greater,
                            );
                        },
                        Err(_) => {},
                    }
                }
            },
            _ => {},
        }
    }
}

/// The evaluation of a list of expressions that ends within the bound comes
/// to the same under every greater bound.
pub proof fn lemma_all_under_greater_bound(
    fm: FloatFn,
    elements: Seq<Term>,
    from: int,
    done: Seq<Term>,
    frames: Seq<Scope>,
    depth: nat,
    greater: nat,
)
    requires
        depth <= greater,
        evaluate_all(fm, elements, from, done, frames, depth).values != Err::<
            Seq<Term>,
            Failure,
        >(Failure::DepthExceeded),
    ensures
        evaluate_all(fm, elements, from, done, frames, greater) == evaluate_all(
            fm,
            elements,
            from,
            done,
            frames,
            depth,
        ),
    decreases depth, 1nat, elements.len() - from,
{
    if 0 <= from < elements.len() {
        let element = evaluate(fm, elements[from], frames, depth);
        lemma_evaluate_under_greater_bound(fm, elements[from], frames, depth, greater);
        if let Ok(value) = element.value {
            lemma_all_under_greater_bound(
                fm,
                elements,
                from + 1,
                done.push(value),
                element.frames,
                depth,
                greater,
            );
        }
    }
}

/// An application that ends within the bound comes to the same under every
/// greater bound.
pub proof fn lemma_application_under_greater_bound(
    fm: FloatFn,
    elements: Seq<Term>,
    frames: Seq<Scope>,
    depth: nat,
    greater: nat,
)
    requires
        depth <= greater,
        elements.len() > 0,
        within_depth(evaluate_application(fm, elements, frames, depth).value),
    ensures
        evaluate_application(fm, elements, frames, greater) == evaluate_application(
            fm,
            elements,
            frames,
            depth,
        ),
    decreases depth, 2nat, 0nat,
{
    let operand = evaluate(fm, elements[0], frames, depth);
    lemma_evaluate_under_greater_bound(fm, elements[0], frames, depth, greater);
    match operand.value {
        Ok(Term::BuiltinProcedure(_)) => {
            lemma_all_under_greater_bound(
                fm,
                elements,
                1,
                Seq::empty(),
                operand.frames,
                depth,
                greater,
            );
        },
        Ok(Term::Procedure(params, body)) => {
            let args = evaluate_all(fm, elements, 1, Seq::empty(), operand.frames, depth);
            lemma_all_under_greater_bound(
                fm,
                elements,
                1,
                Seq::empty(),
                operand.frames,
                depth,
                greater,
            );
            if let Ok(values) = args.values {
                if params.len() == values.len() {
                    lemma_evaluate_under_greater_bound(
                        fm,
                        *body,
                        bind_all(args.frames.push(Map::empty()), params, values, 0),
                        depth,
                        greater,
                    );
                }
            }
        },
        _ => {},
    }
}

/// A combination that starts with the name `define` is a definition, and
/// one that starts with the name `cond` is a conditional, whatever the
/// frames bind these names to.
pub proof fn lemma_special_forms_are_not_shadowed(
    fm: FloatFn,
    elements: Seq<Term>,
    frames: Seq<Scope>,
    depth: nat,
)
    requires
        depth > 0,
        elements.len() > 0,
    ensures
        elements[0] == Term::Identifier("define"@) ==> evaluate(
            fm,
            Term::Combination(elements),
            frames,
            depth,
        ) == evaluate_define(fm, elements, frames, (depth - 1) as nat),
        elements[0] == Term::Identifier("cond"@) ==> evaluate(
            fm,
            Term::Combination(elements),
            frames,
            depth,
        ) == evaluate_cond(fm, elements, 1, frames, (depth - 1) as nat),
{
    reveal_strlit("define");
    reveal_strlit("cond");
    assert("define"@.len() != "cond"@.len());
}

/// A combination that starts with neither `define` nor `cond` is an
/// application, whatever the frames bind.
pub proof fn lemma_combination_is_application(
    fm: FloatFn,
    elements: Seq<Term>,
    frames: Seq<Scope>,
    depth: nat,
)
    requires
        depth > 0,
        elements.len() > 0,
        elements[0] != Term::Identifier("define"@),
        elements[0] != Term::Identifier("cond"@),
    ensures
        evaluate(fm, Term::Combination(elements), frames, depth) == evaluate_application(
            fm,
            elements,
            frames,
            (depth - 1) as nat,
        ),
{
}

/// A procedure applied to more or fewer arguments than it has parameters
/// fails with `WrongArgumentCount`, once the arguments are evaluated and
/// before a frame is entered.
pub proof fn lemma_wrong_argument_count(
    fm: FloatFn,
    elements: Seq<Term>,
    frames: Seq<Scope>,
    depth: nat,
)
    requires
        elements.len() > 0,
        evaluate(fm, elements[0], frames, depth).value is Ok,
        evaluate(fm, elements[0], frames, depth).value->Ok_0 is Procedure,
        evaluate(fm, elements[0], frames, depth).value->Ok_0->Procedure_0.len() != elements.len()
            - 1,
        evaluate_all(
            fm,
            elements,
            1,
            Seq::empty(),
            evaluate(fm, elements[0], frames, depth).frames,
            depth,
        ).values is Ok,
    ensures
        evaluate_application(fm, elements, frames, depth) == (Outcome {
            value: Err(Failure::WrongArgumentCount),
            frames: evaluate_all(
                fm,
                elements,
                1,
                Seq::empty(),
                evaluate(fm, elements[0], frames, depth).frames,
                depth,
            ).frames,
        }),
{
    let operand = evaluate(fm, elements[0], frames, depth);
    lemma_all_keeps_outer_frames(fm, elements, 1, Seq::empty(), operand.frames, depth);
}

/// The application of a value that is no procedure fails with
/// `NonProcedureApplication`, and no argument is evaluated.
pub proof fn lemma_non_procedure_application(
    fm: FloatFn,
    elements: Seq<Term>,
    frames: Seq<Scope>,
    depth: nat,
)
    requires
        elements.len() > 0,
        evaluate(fm, elements[0], frames, depth).value is Ok,
        !(evaluate(fm, elements[0], frames, depth).value->Ok_0 is Procedure),
        !(evaluate(fm, elements[0], frames, depth).value->Ok_0 is BuiltinProcedure),
    ensures
        evaluate_application(fm, elements, frames, depth) == (Outcome {
            value: Err(
                Failure::NonProcedureApplication(
                    evaluate(fm, elements[0], frames, depth).value->Ok_0,
                ),
            ),
            frames: evaluate(fm, elements[0], frames, depth).frames,
        }),
{
}

/// Whether the expression is a number, a string, a truth value or the void
/// value.
pub open spec fn is_literal(expr: Term) -> bool {
    expr is NumberLiteral || expr is StringLiteral || expr is BooleanLiteral || expr is Void
}

/// A literal evaluates to itself and leaves the frames alone.
pub proof fn lemma_literal_evaluates_to_itself(
    fm: FloatFn,
    expr: Term,
    frames: Seq<Scope>,
    depth: nat,
)
    requires
        depth > 0,
        is_literal(expr),
    ensures
        evaluate(fm, expr, frames, depth) == (Outcome { value: Ok(expr), frames }),
{
}

/// A combination with a literal in first position, such as `(1 2 3)`, fails
/// with `NonProcedureApplication` of that literal.
pub proof fn lemma_literal_is_not_applicable(
    fm: FloatFn,
    elements: Seq<Term>,
    frames: Seq<Scope>,
    depth: nat,
)
    requires
        depth >= 2,
        elements.len() > 0,
        is_literal(elements[0]),
    ensures
        evaluate(fm, Term::Combination(elements), frames, depth) == (Outcome {
            value: Err(Failure::NonProcedureApplication(elements[0])),
            frames,
        }),
{
    lemma_literal_evaluates_to_itself(fm, elements[0], frames, (depth - 1) as nat);
    lemma_non_procedure_application(fm, elements, frames, (depth - 1) as nat);
}

/// Whether every clause from position `from` on is a pair whose predicate
/// evaluates to the false value.
pub open spec fn no_clause_holds(
    fm: FloatFn,
    elements: Seq<Term>,
    from: int,
    frames: Seq<Scope>,
    depth: nat,
) -> bool
    decreases elements.len() - from,
{
    if from < 0 || from >= elements.len() {
        true
    } else {
        &&& elements[from] is Combination
        &&& elements[from]->Combination_0.len() == 2
        &&& evaluate(fm, elements[from]->Combination_0[0], frames, depth).value == Ok::<
            Term,
            Failure,
        >(Term::BooleanLiteral(false))
        &&& no_clause_holds(
            fm,
            elements,
            from + 1,
            evaluate(fm, elements[from]->Combination_0[0], frames, depth).frames,
            depth,
        )
    }
}

/// A conditional none of whose clauses holds evaluates to the void value.
pub proof fn lemma_cond_without_match(
    fm: FloatFn,
    elements: Seq<Term>,
    from: int,
    frames: Seq<Scope>,
    depth: nat,
)
    requires
        no_clause_holds(fm, elements, from, frames, depth),
    ensures
        evaluate_cond(fm, elements, from, frames, depth).value == Ok::<Term, Failure>(Term::Void),
    decreases elements.len() - from,
{
    if 0 <= from < elements.len() {
        let predicate = evaluate(fm, elements[from]->Combination_0[0], frames, depth);
        lemma_cond_without_match(fm, elements, from + 1, predicate.frames, depth);
    }
}

/// The void value is equal to itself and to nothing else: no literal can
/// be taken for it.
pub proof fn lemma_void_is_distinct(fm: FloatFn, other: Term)
    ensures
        Term::same(fm, Term::Void, other) <==> other is Void,
        Term::same(fm, other, Term::Void) <==> other is Void,
{
}

/// Scope is dynamic: a name that a procedure refers to and that is none of
/// its parameters resolves in the frames of the caller, as they are when
/// the procedure is applied. Here the procedure's body is that name.
pub proof fn lemma_free_name_resolves_at_call(
    fm: FloatFn,
    elements: Seq<Term>,
    frames: Seq<Scope>,
    depth: nat,
    params: Seq<Seq<char>>,
    name: Seq<char>,
)
    requires
        depth > 0,
        elements.len() > 0,
        evaluate(fm, elements[0], frames, depth).value == Ok::<Term, Failure>(
            Term::Procedure(params, Box::new(Term::Identifier(name))),
        ),
        !params.contains(name),
        params.len() == elements.len() - 1,
        evaluate_all(
            fm,
            elements,
            1,
            Seq::empty(),
            evaluate(fm, elements[0], frames, depth).frames,
            depth,
        ).values is Ok,
    ensures
        ({
            let operand = evaluate(fm, elements[0], frames, depth);
            let args = evaluate_all(fm, elements, 1, Seq::empty(), operand.frames, depth);
            evaluate_application(fm, elements, frames, depth) == (Outcome {
                value: match resolve(args.frames, name) {
                    Some(value) => Ok(value),
                    None => Err(Failure::UndefinedSymbol(name)),
                },
                frames: args.frames,
            })
        }),
{
    let operand = evaluate(fm, elements[0], frames, depth);
    let args = evaluate_all(fm, elements, 1, Seq::empty(), operand.frames, depth);
    lemma_all_keeps_outer_frames(fm, elements, 1, Seq::empty(), operand.frames, depth);
    lemma_application_keeps_outer_frames(fm, elements, frames, depth);
    let values = args.values->Ok_0;
    let entered = args.frames.push(Map::empty());
    let bound = bind_all(entered, params, values, 0);
    lemma_bind_all_keeps_outer_frames(entered, params, values, 0);
    assert(entered.drop_last() =~= args.frames);
    assert(!bound.last().contains_key(name));
    assert(resolve(bound, name) == resolve(args.frames, name));
}

} // verus!
