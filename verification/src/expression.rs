//! Expressions: the one type that is both the syntax tree and the run-time
//! value.

use vstd::prelude::*;
use crate::float::{
    float_fn, is_float_unit, is_float_writer, write_fn, FloatFn, FloatOp, WriteFn,
};
use crate::number::Number;

verus! {

/// The native procedures of the language.
#[derive(Clone, Copy, Debug, PartialEq, Eq, Structural)]
pub enum Builtin {
    /// `+`
    Add,
    /// `-`
    Sub,
    /// `*`
    Mul,
    /// `/`
    Div,
    /// `>`
    GreaterThan,
    /// `<`
    LessThan,
    /// `=`
    Equal,
}

/// A syntax node or a run-time value.
#[derive(Debug)]
pub enum Expression {
    /// A parenthesized form.
    Combination(Vec<Expression>),
    /// A symbol, looked up when it is evaluated.
    Identifier(String),
    /// A string literal.
    StringLiteral(String),
    /// A number literal.
    NumberLiteral(Number),
    /// One of the two truth values.
    BooleanLiteral(bool),
    /// A user-defined procedure: its parameter names and its body. It holds
    /// no environment: free names in the body are looked up where the
    /// procedure is applied.
    Procedure(Vec<String>, Box<Expression>),
    /// A native procedure.
    BuiltinProcedure(Builtin),
    /// The value of a definition, and of a `cond` none of whose clauses held.
    Void,
}

/// The mathematical value of an [`Expression`]: the same tree, over
/// sequences in place of vectors and strings.
pub enum Term {
    /// A parenthesized form, by its elements.
    Combination(Seq<Term>),
    /// A symbol, by its characters.
    Identifier(Seq<char>),
    /// A string literal, by its characters.
    StringLiteral(Seq<char>),
    /// A number literal.
    NumberLiteral(Number),
    /// One of the two truth values.
    BooleanLiteral(bool),
    /// A user-defined procedure, by its parameter names and its body.
    Procedure(Seq<Seq<char>>, Box<Term>),
    /// A native procedure.
    BuiltinProcedure(Builtin),
    /// The void value.
    Void,
}

/// The terms of a sequence of expressions.
pub open spec fn terms(es: Seq<Expression>) -> Seq<Term> {
    Seq::new(es.len(), |i: int| es[i]@)
}

/// The character sequences of a sequence of strings.
pub open spec fn names(ss: Seq<String>) -> Seq<Seq<char>> {
    Seq::new(ss.len(), |i: int| ss[i]@)
}

impl Expression {
    /// The term that the expression stands for.
    pub open spec fn term(self) -> Term
        decreases self,
    {
        match self {
            Expression::Combination(es) => Term::Combination(
                Seq::new(
                    es@.len(),
                    |i: int|
                        if 0 <= i < es@.len() {
                            es@[i].term()
                        } else {
                            Term::Void
                        },
                ),
            ),
            Expression::Identifier(s) => Term::Identifier(s@),
            Expression::StringLiteral(s) => Term::StringLiteral(s@),
            Expression::NumberLiteral(n) => Term::NumberLiteral(n),
            Expression::BooleanLiteral(b) => Term::BooleanLiteral(b),
            Expression::Procedure(ps, body) => Term::Procedure(names(ps@), Box::new(body.term())),
            Expression::BuiltinProcedure(b) => Term::BuiltinProcedure(b),
            Expression::Void => Term::Void,
        }
    }

    /// The term of a combination is the combination of its elements' terms.
    pub proof fn lemma_combination_term(es: Vec<Expression>)
        ensures
            Expression::Combination(es)@ == Term::Combination(terms(es@)),
    {
        assert(Expression::Combination(es).term()->Combination_0 =~= terms(es@));
    }

    /// A copy of the expression.
    pub fn duplicate(&self) -> (r: Expression)
        ensures
            r@ == self@,
        decreases self,
    {
        match self {
            Expression::Combination(es) => {
                let mut out: Vec<Expression> = Vec::new();
                let mut i: usize = 0;
                while i < es.len()
                    invariant
                        i <= es.len(),
                        out@.len() == i,
                        forall|j: int| 0 <= j < i ==> out@[j]@ == es@[j]@,
                        decreases_to!(*self => *es),
                    decreases es.len() - i,
                {
                    out.push(es[i].duplicate());
                    i += 1;
                }
                proof {
                    Self::lemma_combination_term(out);
                    Self::lemma_combination_term(*es);
                    assert(terms(out@) =~= terms(es@));
                }
                Expression::Combination(out)
            },
            Expression::Identifier(s) => Expression::Identifier(s.clone()),
            Expression::StringLiteral(s) => Expression::StringLiteral(s.clone()),
            Expression::NumberLiteral(n) => Expression::NumberLiteral(*n),
            Expression::BooleanLiteral(b) => Expression::BooleanLiteral(*b),
            Expression::Procedure(ps, body) => {
                let params = duplicate_names(ps);
                let b = body.duplicate();
                Expression::Procedure(params, Box::new(b))
            },
            Expression::BuiltinProcedure(b) => Expression::BuiltinProcedure(*b),
            Expression::Void => Expression::Void,
        }
    }

    /// Writes the expression; see [`Term::text`].
    pub fn to_text<W: Fn(u64) -> String>(&self, writer: &W) -> (r: String)
        requires
            is_float_writer(writer),
        ensures
            r@ == Term::text(write_fn(writer), self@),
    {
        let mut out = String::new();
        self.write_to(&mut out, writer);
        out
    }

    /// Appends the notation of the expression.
    fn write_to<W: Fn(u64) -> String>(&self, out: &mut String, writer: &W)
        requires
            is_float_writer(writer),
        ensures
            final(out)@ == old(out)@ + Term::text(write_fn(writer), self@),
        decreases self,
    {
        let ghost wf = write_fn(writer);
        match self {
            Expression::Combination(es) => {
                proof {
                    Self::lemma_combination_term(*es);
                }
                let ghost ts = terms(es@);
                out.push('(');
                let mut i: usize = 0;
                while i < es.len()
                    invariant
                        i <= es.len(),
                        is_float_writer(writer),
                        wf == write_fn(writer),
                        ts == terms(es@),
                        out@ + Term::spaced(wf, ts, i as int) == old(out)@ + seq!['('] + Term::spaced(
                            wf,
                            ts,
                            0,
                        ),
                        decreases_to!(*self => *es),
                    decreases es.len() - i,
                {
                    let ghost before = out@;
                    es[i].write_to(out, writer);
                    if i + 1 < es.len() {
                        out.push(' ');
                    }
                    proof {
                        assert(ts[i as int] == es@[i as int]@);
                        if i + 1 < es.len() {
                            assert(out@ + Term::spaced(wf, ts, i + 1) =~= before + Term::spaced(
                                wf,
                                ts,
                                i as int,
                            ));
                        } else {
                            assert(out@ + Term::spaced(wf, ts, i + 1) =~= before + Term::spaced(
                                wf,
                                ts,
                                i as int,
                            ));
                        }
                    }
                    i += 1;
                }
                let ghost inner = out@;
                out.push(')');
                assert(out@ =~= old(out)@ + Term::text(wf, self@)) by {
                    assert(inner + Term::spaced(wf, ts, i as int) =~= inner);
                }
            },
            Expression::Identifier(id) => {
                out.append(id.as_str());
            },
            Expression::StringLiteral(s) => {
                out.push('"');
                out.append(s.as_str());
                out.push('"');
                assert(out@ =~= old(out)@ + Term::text(wf, self@));
            },
            Expression::NumberLiteral(n) => {
                let text = n.to_text(writer);
                out.append(text.as_str());
            },
            Expression::BooleanLiteral(b) => {
                out.push('#');
                out.push(
                    if *b {
                        't'
                    } else {
                        'f'
                    },
                );
                assert(out@ =~= old(out)@ + Term::text(wf, self@));
            },
            Expression::Procedure(_, _) => {
                out.append("#procedure");
            },
            Expression::BuiltinProcedure(_) => {
                out.append("#builtin");
            },
            Expression::Void => {
                assert(out@ =~= old(out)@ + Term::text(wf, self@));
            },
        }
    }

    /// Tells whether two expressions are equal; see [`Term::same`].
    pub fn same_as<F: Fn(FloatOp) -> u64>(&self, other: &Expression, unit: &F) -> (r: bool)
        requires
            is_float_unit(unit),
        ensures
            r == Term::same(float_fn(unit), self@, other@),
        decreases self,
    {
        match (self, other) {
            (Expression::Combination(xs), Expression::Combination(ys)) => {
                proof {
                    Self::lemma_combination_term(*xs);
                    Self::lemma_combination_term(*ys);
                }
                if xs.len() != ys.len() {
                    return false;
                }
                let mut i: usize = 0;
                while i < xs.len()
                    invariant
                        i <= xs.len(),
                        xs.len() == ys.len(),
                        is_float_unit(unit),
                        self@ == Term::Combination(terms(xs@)),
                        other@ == Term::Combination(terms(ys@)),
                        forall|j: int|
                            0 <= j < i ==> Term::same(float_fn(unit), xs@[j]@, ys@[j]@),
                        decreases_to!(*self => *xs),
                    decreases xs.len() - i,
                {
                    if !xs[i].same_as(&ys[i], unit) {
                        assert(terms(ys@)[i as int] == ys@[i as int]@);
                        return false;
                    }
                    i += 1;
                }
                true
            },
            (Expression::Identifier(x), Expression::Identifier(y)) => *x == *y,
            (Expression::StringLiteral(x), Expression::StringLiteral(y)) => *x == *y,
            (Expression::NumberLiteral(x), Expression::NumberLiteral(y)) => x.eq(*y, unit),
            (Expression::BooleanLiteral(x), Expression::BooleanLiteral(y)) => *x == *y,
            (Expression::Void, Expression::Void) => true,
            _ => false,
        }
    }
}

impl View for Expression {
    type V = Term;

    open spec fn view(&self) -> Term {
        self.term()
    }
}

impl Clone for Expression {
    fn clone(&self) -> (r: Self)
        ensures
            r@ == self@,
    {
        self.duplicate()
    }
}

impl Term {
    /// The notation of an expression.
    ///
    /// A combination is written as its elements between parentheses, one
    /// space between two of them; a name as it is; a string between double
    /// quotes; a number as [`Number::text`] says; the truth values as `#t`
    /// and `#f`; a procedure as `#procedure` or `#builtin`; the void value
    /// as nothing.
    pub open spec fn text(wf: WriteFn, t: Term) -> Seq<char>
        decreases t,
    {
        match t {
            Term::Combination(es) => seq!['('] + Self::spaced(wf, es, 0) + seq![')'],
            Term::Identifier(id) => id,
            Term::StringLiteral(s) => seq!['"'] + s + seq!['"'],
            Term::NumberLiteral(n) => Number::text(wf, n),
            Term::BooleanLiteral(b) => if b {
                seq!['#', 't']
            } else {
                seq!['#', 'f']
            },
            Term::Procedure(_, _) => "#procedure"@,
            Term::BuiltinProcedure(_) => "#builtin"@,
            Term::Void => Seq::empty(),
        }
    }

    /// The notations of the elements from position `from` on, one space
    /// between two of them.
    pub open spec fn spaced(wf: WriteFn, es: Seq<Term>, from: int) -> Seq<char>
        decreases es, es.len() - from,
    {
        if from < 0 || from >= es.len() {
            Seq::empty()
        } else if from == es.len() - 1 {
            Self::text(wf, es[from])
        } else {
            Self::text(wf, es[from]) + seq![' '] + Self::spaced(wf, es, from + 1)
        }
    }

    /// Equality of expressions. Combinations are equal where their elements
    /// are, names and strings where their characters are, numbers where
    /// [`Number::equal`] holds, truth values where they are the same, and
    /// the void value equals itself. A procedure equals nothing, not even
    /// itself.
    pub open spec fn same(fm: FloatFn, a: Term, b: Term) -> bool
        decreases a,
    {
        match (a, b) {
            (Term::Combination(xs), Term::Combination(ys)) => {
                &&& xs.len() == ys.len()
                &&& forall|i: int| 0 <= i < xs.len() ==> Term::same(fm, xs[i], #[trigger] ys[i])
            },
            (Term::Identifier(x), Term::Identifier(y)) => x == y,
            (Term::StringLiteral(x), Term::StringLiteral(y)) => x == y,
            (Term::NumberLiteral(x), Term::NumberLiteral(y)) => Number::equal(fm, x, y),
            (Term::BooleanLiteral(x), Term::BooleanLiteral(y)) => x == y,
            (Term::Void, Term::Void) => true,
            _ => false,
        }
    }
}

/// A copy of a list of names.
pub fn duplicate_names(ss: &Vec<String>) -> (r: Vec<String>)
    ensures
        names(r@) == names(ss@),
{
    let mut out: Vec<String> = Vec::new();
    let mut i: usize = 0;
    while i < ss.len()
        invariant
            i <= ss.len(),
            out@.len() == i,
            forall|j: int| 0 <= j < i ==> out@[j]@ == ss@[j]@,
        decreases ss.len() - i,
    {
        out.push(ss[i].clone());
        i += 1;
    }
    assert(names(out@) =~= names(ss@));
    out
}

} // verus!
