//! The parser: from tokens to expressions.

use vstd::prelude::*;
use crate::expression::{terms, Expression, Term};
use crate::tokenizer::{lexemes, Lexeme, Token};

verus! {

/// Why a sequence of tokens holds no expression.
#[derive(Clone, Copy, Debug, PartialEq, Eq, Structural)]
pub enum SyntaxError {
    /// A `)` that closes nothing.
    UnexpectedCloseParen,
    /// The tokens end inside a combination.
    UnexpectedEndOfInput,
}

impl SyntaxError {
    /// The error in words.
    pub open spec fn text(self) -> Seq<char> {
        match self {
            SyntaxError::UnexpectedCloseParen => "Unexpected ')'"@,
            SyntaxError::UnexpectedEndOfInput => "Unexpected end of input"@,
        }
    }

    /// The error in words.
    pub fn message(&self) -> (r: String)
        ensures
            r@ == self.text(),
    {
        match self {
            SyntaxError::UnexpectedCloseParen => "Unexpected ')'".to_owned(),
            SyntaxError::UnexpectedEndOfInput => "Unexpected end of input".to_owned(),
        }
    }
}

/// What one step of the parser finds: the expression or the error, if
/// there is a token left, and the position behind it.
pub struct Parsed {
    pub result: Option<Result<Term, SyntaxError>>,
    pub next: int,
}

/// The expression that a token other than a parenthesis stands for.
pub open spec fn atom(lexeme: Lexeme) -> Term {
    match lexeme {
        Lexeme::Identifier(id) => Term::Identifier(id),
        Lexeme::StringLiteral(s) => Term::StringLiteral(s),
        Lexeme::NumberLiteral(n) => Term::NumberLiteral(n),
        _ => Term::Void,
    }
}

/// The open combinations with one more element in the innermost.
pub open spec fn joined(open: Seq<Seq<Term>>, element: Term) -> Seq<Seq<Term>> {
    open.update(open.len() - 1, open.last().push(element))
}

/// The expression that starts at position `at`, where `open` holds the
/// elements read so far of the combinations that are open, the innermost
/// last.
///
/// A `(` opens a combination and a `)` closes the innermost. An expression
/// that is complete joins the innermost open combination, or is the result
/// where none is open. A `)` that closes nothing is an error, and so is the
/// end of the tokens while a combination is open. Without a token left
/// there is no expression.
pub open spec fn parse(tokens: Seq<Lexeme>, at: int, open: Seq<Seq<Term>>) -> Parsed
    decreases tokens.len() - at,
{
    if at < 0 || at >= tokens.len() {
        Parsed {
            result: if open.len() == 0 {
                None
            } else {
                Some(Err(SyntaxError::UnexpectedEndOfInput))
            },
            next: at,
        }
    } else {
        match tokens[at] {
            Lexeme::LParen => parse(tokens, at + 1, open.push(Seq::empty())),
            Lexeme::RParen => if open.len() == 0 {
                Parsed { result: Some(Err(SyntaxError::UnexpectedCloseParen)), next: at + 1 }
            } else if open.len() == 1 {
                Parsed { result: Some(Ok(Term::Combination(open.last()))), next: at + 1 }
            } else {
                parse(tokens, at + 1, joined(open.drop_last(), Term::Combination(open.last())))
            },
            other => if open.len() == 0 {
                Parsed { result: Some(Ok(atom(other))), next: at + 1 }
            } else {
                parse(tokens, at + 1, joined(open, atom(other)))
            },
        }
    }
}

/// Whether an expression can be written as tokens: whether it is made of
/// combinations, names, strings and numbers alone.
pub open spec fn is_readable(expr: Term) -> bool
    decreases expr,
{
    match expr {
        Term::Combination(elements) => forall|i: int|
            0 <= i < elements.len() ==> is_readable(#[trigger] elements[i]),
        Term::Identifier(_) => true,
        Term::StringLiteral(_) => true,
        Term::NumberLiteral(_) => true,
        _ => false,
    }
}

/// The tokens of an expression.
pub open spec fn flatten(expr: Term) -> Seq<Lexeme>
    decreases expr, 0nat,
{
    match expr {
        Term::Combination(elements) => seq![Lexeme::LParen] + flatten_all(elements, 0) + seq![
            Lexeme::RParen,
        ],
        Term::Identifier(id) => seq![Lexeme::Identifier(id)],
        Term::StringLiteral(s) => seq![Lexeme::StringLiteral(s)],
        Term::NumberLiteral(n) => seq![Lexeme::NumberLiteral(n)],
        _ => Seq::empty(),
    }
}

/// The tokens of the expressions from position `from` on, one after the
/// other.
pub open spec fn flatten_all(elements: Seq<Term>, from: int) -> Seq<Lexeme>
    decreases elements, elements.len() - from,
{
    if from < 0 || from >= elements.len() {
        Seq::empty()
    } else {
        flatten(elements[from]) + flatten_all(elements, from + 1)
    }
}

/// Whether the tokens from position `at` on start with `part`.
pub open spec fn holds_at(tokens: Seq<Lexeme>, at: int, part: Seq<Lexeme>) -> bool {
    &&& 0 <= at
    &&& at + part.len() <= tokens.len()
    &&& forall|j: int| 0 <= j < part.len() ==> tokens[at + j] == #[trigger] part[j]
}

/// Where the tokens of a readable expression stand, the parser reads that
/// expression and ends behind them: the expression is the result where no
/// combination is open, and else joins the innermost.
pub proof fn lemma_parse_reads_expression(
    tokens: Seq<Lexeme>,
    at: int,
    open: Seq<Seq<Term>>,
    expr: Term,
)
    requires
        is_readable(expr),
        holds_at(tokens, at, flatten(expr)),
    ensures
        flatten(expr).len() > 0,
        parse(tokens, at, open) == if open.len() == 0 {
            Parsed { result: Some(Ok(expr)), next: at + flatten(expr).len() }
        } else {
            parse(tokens, at + flatten(expr).len(), joined(open, expr))
        },
    decreases expr, 0nat,
{
    let part = flatten(expr);
    match expr {
        Term::Combination(elements) => {
            let inner = flatten_all(elements, 0);
            assert(part[0] == Lexeme::LParen);
            assert(tokens[at] == Lexeme::LParen);
            assert(holds_at(tokens, at + 1, inner)) by {
                assert forall|j: int| 0 <= j < inner.len() implies tokens[at + 1 + j]
                    == #[trigger] inner[j] by {
                    assert(part[1 + j] == inner[j]);
                }
            }
            let entered = open.push(Seq::empty());
            lemma_parse_reads_elements(tokens, at + 1, open, Seq::empty(), elements, 0);
            let close = at + 1 + inner.len();
            assert(part[1 + inner.len() as int] == Lexeme::RParen);
            assert(tokens[close] == Lexeme::RParen);
            assert(Seq::<Term>::empty() + elements.subrange(0, elements.len() as int)
                =~= elements);
            let full = open.push(elements);
            assert(full.last() == elements);
            assert(full.drop_last() =~= open);
            assert(close + 1 == at + part.len());
        },
        _ => {
            assert(part[0] == tokens[at]);
        },
    }
}

/// Where the tokens of readable expressions stand one after the other
/// inside an open combination, the parser reads them all into it.
pub proof fn lemma_parse_reads_elements(
    tokens: Seq<Lexeme>,
    at: int,
    open: Seq<Seq<Term>>,
    done: Seq<Term>,
    elements: Seq<Term>,
    from: int,
)
    requires
        0 <= from <= elements.len(),
        forall|i: int| 0 <= i < elements.len() ==> is_readable(#[trigger] elements[i]),
        holds_at(tokens, at, flatten_all(elements, from)),
    ensures
        parse(tokens, at, open.push(done)) == parse(
            tokens,
            at + flatten_all(elements, from).len(),
            open.push(done + elements.subrange(from, elements.len() as int)),
        ),
    decreases elements, elements.len() - from,
{
    if from >= elements.len() {
        assert(done + elements.subrange(from, elements.len() as int) =~= done);
    } else {
        let first = flatten(elements[from]);
        let rest = flatten_all(elements, from + 1);
        let all = flatten_all(elements, from);
        assert(holds_at(tokens, at, first)) by {
            assert forall|j: int| 0 <= j < first.len() implies tokens[at + j]
                == #[trigger] first[j] by {
                assert(all[j] == first[j]);
            }
        }
        assert(holds_at(tokens, at + first.len(), rest)) by {
            assert forall|j: int| 0 <= j < rest.len() implies tokens[at + first.len() + j]
                == #[trigger] rest[j] by {
                assert(all[first.len() as int + j] == rest[j]);
            }
        }
        lemma_parse_reads_expression(tokens, at, open.push(done), elements[from]);
        assert(joined(open.push(done), elements[from]) =~= open.push(
            done.push(elements[from]),
        ));
        lemma_parse_reads_elements(
            tokens,
            at + first.len(),
            open,
            done.push(elements[from]),
            elements,
            from + 1,
        );
        assert(done.push(elements[from]) + elements.subrange(
            from + 1,
            elements.len() as int,
        ) =~= done + elements.subrange(from, elements.len() as int));
    }
}

/// What is written is read back: from the tokens of a readable expression
/// the parser reads that expression, and all the tokens.
pub proof fn lemma_flatten_is_parsed_back(expr: Term)
    requires
        is_readable(expr),
    ensures
        parse(flatten(expr), 0, Seq::empty()) == (Parsed {
            result: Some(Ok(expr)),
            next: flatten(expr).len() as int,
        }),
{
    lemma_parse_reads_expression(flatten(expr), 0, Seq::empty(), expr);
}

/// The elements of the open combinations as terms.
pub open spec fn opened(open: Seq<Vec<Expression>>) -> Seq<Seq<Term>> {
    Seq::new(open.len(), |i: int| terms(open[i]@))
}

/// A parser: a sequence of tokens and the position up to which it has been
/// read.
pub struct Parser {
    tokens: Vec<Token>,
    pos: usize,
}

impl Parser {
    /// The tokens.
    pub closed spec fn source(&self) -> Seq<Lexeme> {
        lexemes(self.tokens@)
    }

    /// The position up to which the tokens have been read.
    pub closed spec fn offset(&self) -> int {
        self.pos as int
    }

    /// A parser at the start of the given tokens.
    pub fn new(tokens: Vec<Token>) -> (r: Parser)
        ensures
            r.source() == lexemes(tokens@),
            r.offset() == 0,
    {
        Parser { tokens, pos: 0 }
    }

    /// Reads one expression, if there is a token left; see [`parse`].
    pub fn single(&mut self) -> (r: Result<Option<Expression>, SyntaxError>)
        ensures
            final(self).source() == old(self).source(),
            final(self).offset() == parse(
                old(self).source(),
                old(self).offset(),
                Seq::empty(),
            ).next,
            parse(old(self).source(), old(self).offset(), Seq::empty()).result == match r {
                Ok(Some(expr)) => Some(Ok::<Term, SyntaxError>(expr@)),
                Ok(None) => None,
                Err(error) => Some(Err(error)),
            },
    {
        let ghost ts = self.source();
        let ghost goal = parse(ts, self.offset(), Seq::empty());
        let n = self.tokens.len();
        let mut open: Vec<Vec<Expression>> = Vec::new();
        assert(opened(open@) =~= Seq::<Seq<Term>>::empty());
        while self.pos < n
            invariant
                n == self.tokens@.len(),
                ts == lexemes(self.tokens@),
                self.source() == old(self).source(),
                goal == parse(old(self).source(), old(self).offset(), Seq::empty()),
                goal == parse(ts, self.pos as int, opened(open@)),
            decreases n - self.pos,
        {
            let ghost before = opened(open@);
            assert(ts[self.pos as int] == self.tokens@[self.pos as int]@);
            let complete: Option<Expression> = match &self.tokens[self.pos] {
                Token::LParen => {
                    let elements: Vec<Expression> = Vec::new();
                    assert(terms(elements@) =~= Seq::<Term>::empty());
                    open.push(elements);
                    assert(opened(open@) =~= before.push(Seq::empty()));
                    None
                },
                Token::RParen => match open.pop() {
                    Some(elements) => {
                        proof {
                            Expression::lemma_combination_term(elements);
                            assert(opened(open@) =~= before.drop_last());
                        }
                        Some(Expression::Combination(elements))
                    },
                    None => {
                        self.pos += 1;
                        return Err(SyntaxError::UnexpectedCloseParen);
                    },
                },
                Token::Identifier(id) => Some(Expression::Identifier(id.clone())),
                Token::StringLiteral(s) => Some(Expression::StringLiteral(s.clone())),
                Token::NumberLiteral(n) => Some(Expression::NumberLiteral(*n)),
            };
            self.pos += 1;
            if let Some(expr) = complete {
                let ghost rest = opened(open@);
                match open.pop() {
                    Some(mut elements) => {
                        let ghost inner = terms(elements@);
                        elements.push(expr);
                        assert(terms(elements@) =~= inner.push(expr@));
                        open.push(elements);
                        assert(opened(open@) =~= joined(rest, expr@));
                    },
                    None => {
                        return Ok(Some(expr));
                    },
                }
            }
        }
        if open.len() == 0 {
            Ok(None)
        } else {
            Err(SyntaxError::UnexpectedEndOfInput)
        }
    }

    /// Reads the next expression, if there is a token left; see [`parse`].
    pub fn next(&mut self) -> (r: Option<Result<Expression, SyntaxError>>)
        ensures
            final(self).source() == old(self).source(),
            final(self).offset() == parse(
                old(self).source(),
                old(self).offset(),
                Seq::empty(),
            ).next,
            parse(old(self).source(), old(self).offset(), Seq::empty()).result == match r {
                Some(Ok(expr)) => Some(Ok::<Term, SyntaxError>(expr@)),
                Some(Err(error)) => Some(Err(error)),
                None => None,
            },
    {
        match self.single() {
            Ok(Some(expr)) => Some(Ok(expr)),
            Ok(None) => None,
            Err(error) => Some(Err(error)),
        }
    }
}

} // verus!
