//! The tokenizer: from characters to tokens.

use vstd::prelude::*;
use crate::float::{
    float_fn, is_float_reader, is_float_unit, is_float_writer, read_fn, write_fn, FloatFn,
    FloatOp, ReadFn, WriteFn,
};
use crate::number::Number;
use crate::text::{chars_of, is_white_space};

verus! {

/// A token of the language.
#[derive(Debug)]
pub enum Token {
    /// `(`
    LParen,
    /// `)`
    RParen,
    /// A word that denotes no number.
    Identifier(String),
    /// The characters between two double quotes.
    StringLiteral(String),
    /// A word that denotes a number.
    NumberLiteral(Number),
}

/// The mathematical value of a [`Token`]: the same token, with its
/// characters as a sequence.
pub enum Lexeme {
    /// `(`
    LParen,
    /// `)`
    RParen,
    /// A word that denotes no number.
    Identifier(Seq<char>),
    /// The characters between two double quotes.
    StringLiteral(Seq<char>),
    /// A word that denotes a number.
    NumberLiteral(Number),
}

impl View for Token {
    type V = Lexeme;

    open spec fn view(&self) -> Lexeme {
        match self {
            Token::LParen => Lexeme::LParen,
            Token::RParen => Lexeme::RParen,
            Token::Identifier(id) => Lexeme::Identifier(id@),
            Token::StringLiteral(s) => Lexeme::StringLiteral(s@),
            Token::NumberLiteral(n) => Lexeme::NumberLiteral(*n),
        }
    }
}

impl Lexeme {
    /// The notation of a token: a parenthesis, a word as it is, a string
    /// between double quotes, a number as [`Number::text`] says.
    pub open spec fn text(wf: WriteFn, lexeme: Lexeme) -> Seq<char> {
        match lexeme {
            Lexeme::LParen => seq!['('],
            Lexeme::RParen => seq![')'],
            Lexeme::Identifier(id) => id,
            Lexeme::StringLiteral(s) => seq!['"'] + s + seq!['"'],
            Lexeme::NumberLiteral(n) => Number::text(wf, n),
        }
    }

    /// Equality of tokens: of the same kind, and with the same characters
    /// or with numbers that are equal as [`Number::equal`] says.
    pub open spec fn same(fm: FloatFn, a: Lexeme, b: Lexeme) -> bool {
        match (a, b) {
            (Lexeme::LParen, Lexeme::LParen) => true,
            (Lexeme::RParen, Lexeme::RParen) => true,
            (Lexeme::Identifier(x), Lexeme::Identifier(y)) => x == y,
            (Lexeme::StringLiteral(x), Lexeme::StringLiteral(y)) => x == y,
            (Lexeme::NumberLiteral(x), Lexeme::NumberLiteral(y)) => Number::equal(fm, x, y),
            _ => false,
        }
    }
}

impl Token {
    /// Writes the token; see [`Lexeme::text`].
    pub fn to_text<W: Fn(u64) -> String>(&self, writer: &W) -> (r: String)
        requires
            is_float_writer(writer),
        ensures
            r@ == Lexeme::text(write_fn(writer), self@),
    {
        match self {
            Token::LParen => {
                let mut out = String::new();
                out.push('(');
                assert(out@ =~= seq!['(']);
                out
            },
            Token::RParen => {
                let mut out = String::new();
                out.push(')');
                assert(out@ =~= seq![')']);
                out
            },
            Token::Identifier(id) => id.clone(),
            Token::StringLiteral(s) => {
                let mut out = String::new();
                out.push('"');
                out.append(s.as_str());
                out.push('"');
                assert(out@ =~= seq!['"'] + s@ + seq!['"']);
                out
            },
            Token::NumberLiteral(n) => n.to_text(writer),
        }
    }

    /// Tells whether two tokens are equal; see [`Lexeme::same`].
    pub fn same_as<F: Fn(FloatOp) -> u64>(&self, other: &Token, unit: &F) -> (r: bool)
        requires
            is_float_unit(unit),
        ensures
            r == Lexeme::same(float_fn(unit), self@, other@),
    {
        match (self, other) {
            (Token::LParen, Token::LParen) => true,
            (Token::RParen, Token::RParen) => true,
            (Token::Identifier(x), Token::Identifier(y)) => *x == *y,
            (Token::StringLiteral(x), Token::StringLiteral(y)) => *x == *y,
            (Token::NumberLiteral(x), Token::NumberLiteral(y)) => x.eq(*y, unit),
            _ => false,
        }
    }
}

/// The lexemes of a sequence of tokens.
pub open spec fn lexemes(tokens: Seq<Token>) -> Seq<Lexeme> {
    Seq::new(tokens.len(), |i: int| tokens[i]@)
}

/// Whether a character ends a word: a parenthesis or white space.
pub open spec fn is_delimiter(c: char) -> bool {
    c == '(' || c == ')' || is_white_space(c)
}

/// The first position from `at` on that holds no white space.
pub open spec fn blank_end(s: Seq<char>, at: int) -> int
    decreases s.len() - at,
{
    if 0 <= at < s.len() && is_white_space(s[at]) {
        blank_end(s, at + 1)
    } else {
        at
    }
}

/// The first position from `at` on that holds a delimiter, or the end.
pub open spec fn word_end(s: Seq<char>, at: int) -> int
    decreases s.len() - at,
{
    if 0 <= at < s.len() && !is_delimiter(s[at]) {
        word_end(s, at + 1)
    } else {
        at
    }
}

/// The first position from `at` on that holds a double quote, or the end.
pub open spec fn quote_end(s: Seq<char>, at: int) -> int
    decreases s.len() - at,
{
    if 0 <= at < s.len() && s[at] != '"' {
        quote_end(s, at + 1)
    } else {
        at
    }
}

/// A word as a lexeme: a number where it denotes one, else an identifier.
pub open spec fn word_lexeme(rf: ReadFn, word: Seq<char>) -> Lexeme {
    match Number::parsed(rf, word) {
        Some(n) => Lexeme::NumberLiteral(n),
        None => Lexeme::Identifier(word),
    }
}

/// What one step of the tokenizer finds: the token, if there is one left,
/// and the position behind it.
pub struct Scanned {
    pub token: Option<Lexeme>,
    pub next: int,
}

/// The token that starts at or after position `at`.
///
/// White space before it is passed over. A parenthesis is a token by
/// itself. A double quote starts a string that runs up to the next double
/// quote, or to the end where there is none. Any other character starts a
/// word that runs up to the next delimiter.
pub open spec fn scan(rf: ReadFn, s: Seq<char>, at: int) -> Scanned {
    let start = blank_end(s, at);
    if start < 0 || start >= s.len() {
        Scanned { token: None, next: start }
    } else if s[start] == '(' {
        Scanned { token: Some(Lexeme::LParen), next: start + 1 }
    } else if s[start] == ')' {
        Scanned { token: Some(Lexeme::RParen), next: start + 1 }
    } else if s[start] == '"' {
        let end = quote_end(s, start + 1);
        Scanned {
            token: Some(Lexeme::StringLiteral(s.subrange(start + 1, end))),
            next: if end < s.len() {
                end + 1
            } else {
                end
            },
        }
    } else {
        let end = word_end(s, start + 1);
        Scanned { token: Some(word_lexeme(rf, s.subrange(start, end))), next: end }
    }
}

/// The three ends lie at or behind where the search began, and within the
/// text where it began there.
pub proof fn lemma_ends_bounded(s: Seq<char>, at: int)
    requires
        0 <= at <= s.len(),
    ensures
        at <= blank_end(s, at) <= s.len(),
        at <= word_end(s, at) <= s.len(),
        at <= quote_end(s, at) <= s.len(),
    decreases s.len() - at,
{
    if at < s.len() {
        lemma_ends_bounded(s, at + 1);
    }
}

/// Each end is the first position of its kind: between the start and the
/// end of the white space there is white space alone, and behind it none;
/// a word holds no delimiter and ends before one or with the text; a string
/// holds no double quote and ends before one or with the text.
pub proof fn lemma_ends_are_first(s: Seq<char>, at: int)
    requires
        0 <= at <= s.len(),
    ensures
        forall|j: int| at <= j < blank_end(s, at) ==> is_white_space(#[trigger] s[j]),
        blank_end(s, at) < s.len() ==> !is_white_space(s[blank_end(s, at)]),
        forall|j: int| at <= j < word_end(s, at) ==> !is_delimiter(#[trigger] s[j]),
        word_end(s, at) < s.len() ==> is_delimiter(s[word_end(s, at)]),
        forall|j: int| at <= j < quote_end(s, at) ==> #[trigger] s[j] != '"',
        quote_end(s, at) < s.len() ==> s[quote_end(s, at)] == '"',
    decreases s.len() - at,
{
    lemma_ends_bounded(s, at);
    if at < s.len() {
        lemma_ends_are_first(s, at + 1);
        lemma_ends_bounded(s, at + 1);
    }
}

/// A step that finds a token ends behind where it began.
pub proof fn lemma_scan_advances(rf: ReadFn, s: Seq<char>, at: int)
    requires
        0 <= at <= s.len(),
    ensures
        at <= scan(rf, s, at).next <= s.len(),
        scan(rf, s, at).token is Some ==> at < scan(rf, s, at).next,
{
    lemma_ends_bounded(s, at);
    let start = blank_end(s, at);
    if start < s.len() {
        lemma_ends_bounded(s, start + 1);
    }
}

/// The tokens from position `at` on, added to `done`.
pub open spec fn scan_all(rf: ReadFn, s: Seq<char>, at: int, done: Seq<Lexeme>) -> Seq<Lexeme>
    decreases s.len() - at,
{
    if at < 0 || at > s.len() {
        done
    } else {
        let step = scan(rf, s, at);
        match step.token {
            Some(token) => {
                proof {
                    lemma_scan_advances(rf, s, at);
                }
                scan_all(rf, s, step.next, done.push(token))
            },
            None => done,
        }
    }
}

/// A tokenizer: a text and the position up to which it has been read.
pub struct Tokenizer {
    chars: Vec<char>,
    pos: usize,
}

impl Tokenizer {
    /// The text.
    pub closed spec fn source(&self) -> Seq<char> {
        self.chars@
    }

    /// The position up to which the text has been read.
    pub closed spec fn offset(&self) -> int {
        self.pos as int
    }

    /// Reads the next token, if there is one left; see [`scan`].
    pub fn next<R: Fn(&str) -> Option<u64>>(&mut self, reader: &R) -> (r: Option<Token>)
        requires
            is_float_reader(reader),
        ensures
            final(self).source() == old(self).source(),
            final(self).offset() == scan(
                read_fn(reader),
                old(self).source(),
                old(self).offset(),
            ).next,
            match r {
                Some(token) => scan(read_fn(reader), old(self).source(), old(self).offset()).token
                    == Some(token@),
                None => scan(read_fn(reader), old(self).source(), old(self).offset()).token
                    is None,
            },
    {
        let ghost s = self.chars@;
        let ghost at = self.pos as int;
        let n = self.chars.len();
        if self.pos >= n {
            return None;
        }
        while self.pos < n && self.chars[self.pos].is_whitespace()
            invariant
                self.chars@ == s,
                n == s.len(),
                0 <= at <= self.pos <= n,
                blank_end(s, at) == blank_end(s, self.pos as int),
            decreases n - self.pos,
        {
            self.pos += 1;
        }
        if self.pos >= n {
            return None;
        }
        let ghost start = self.pos as int;
        let first = self.chars[self.pos];
        self.pos += 1;
        if first == '(' {
            Some(Token::LParen)
        } else if first == ')' {
            Some(Token::RParen)
        } else if first == '"' {
            let mut text = String::new();
            while self.pos < n && self.chars[self.pos] != '"'
                invariant
                    self.chars@ == s,
                    n == s.len(),
                    0 <= start < self.pos <= n,
                    quote_end(s, start + 1) == quote_end(s, self.pos as int),
                    text@ == s.subrange(start + 1, self.pos as int),
                decreases n - self.pos,
            {
                text.push(self.chars[self.pos]);
                self.pos += 1;
                assert(text@ =~= s.subrange(start + 1, self.pos as int));
            }
            if self.pos < n {
                self.pos += 1;
            }
            Some(Token::StringLiteral(text))
        } else {
            let mut word = String::new();
            word.push(first);
            assert(word@ =~= s.subrange(start, start + 1));
            while self.pos < n && !is_delimiter_char(self.chars[self.pos])
                invariant
                    self.chars@ == s,
                    n == s.len(),
                    0 <= start < self.pos <= n,
                    word_end(s, start + 1) == word_end(s, self.pos as int),
                    word@ == s.subrange(start, self.pos as int),
                decreases n - self.pos,
            {
                word.push(self.chars[self.pos]);
                self.pos += 1;
                assert(word@ =~= s.subrange(start, self.pos as int));
            }
            match Number::parse(word.as_str(), reader) {
                Ok(number) => Some(Token::NumberLiteral(number)),
                Err(_) => Some(Token::Identifier(word)),
            }
        }
    }

    /// Reads all the tokens that are left.
    pub fn tokens<R: Fn(&str) -> Option<u64>>(&mut self, reader: &R) -> (r: Vec<Token>)
        requires
            is_float_reader(reader),
        ensures
            final(self).source() == old(self).source(),
            lexemes(r@) == scan_all(
                read_fn(reader),
                old(self).source(),
                old(self).offset(),
                Seq::empty(),
            ),
    {
        let ghost rf = read_fn(reader);
        let ghost s = self.source();
        let ghost goal = scan_all(rf, s, self.offset(), Seq::empty());
        let mut out: Vec<Token> = Vec::new();
        assert(lexemes(out@) =~= Seq::<Lexeme>::empty());
        loop
            invariant
                is_float_reader(reader),
                rf == read_fn(reader),
                self.source() == s,
                goal == scan_all(rf, s, self.offset(), lexemes(out@)),
            ensures
                self.source() == s,
                goal == lexemes(out@),
            decreases s.len() - self.offset(),
        {
            let ghost at = self.offset();
            let ghost done = lexemes(out@);
            proof {
                if at <= s.len() {
                    lemma_scan_advances(rf, s, at);
                }
            }
            match self.next(reader) {
                Some(token) => {
                    out.push(token);
                    assert(lexemes(out@) =~= done.push(token@));
                },
                None => {
                    break ;
                },
            }
        }
        out
    }
}

/// Tells whether a character ends a word.
fn is_delimiter_char(c: char) -> (r: bool)
    ensures
        r == is_delimiter(c),
{
    c == '(' || c == ')' || c.is_whitespace()
}

/// A tokenizer at the start of the given text.
pub fn tokenize(input: &str) -> (r: Tokenizer)
    ensures
        r.source() == input@,
        r.offset() == 0,
{
    Tokenizer { chars: chars_of(input), pos: 0 }
}

} // verus!
