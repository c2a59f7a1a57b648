use simple_scheme_interpreter::expression::Expression;
use simple_scheme_interpreter::float::FloatOp;
use simple_scheme_interpreter::number::Number;
use simple_scheme_interpreter::parser::{Parser, SyntaxError};
use simple_scheme_interpreter::tokenizer::{tokenize, Token};

fn host(op: FloatOp) -> u64 {
    let r = match op {
        FloatOp::FromInt(v) => v as f64,
        FloatOp::Add(a, b) => f64::from_bits(a) + f64::from_bits(b),
        FloatOp::Sub(a, b) => f64::from_bits(a) - f64::from_bits(b),
        FloatOp::Mul(a, b) => f64::from_bits(a) * f64::from_bits(b),
        FloatOp::Div(a, b) => f64::from_bits(a) / f64::from_bits(b),
    };
    r.to_bits()
}

fn host_read(text: &str) -> Option<u64> {
    text.parse::<f64>().ok().map(f64::to_bits)
}

fn host_write(bits: u64) -> String {
    format!("{:+.4e}", f64::from_bits(bits))
}

fn inexact(v: f64) -> Number {
    Number::from_bits(v.to_bits())
}

fn same_tokens(expected: &[Token], found: &[Token]) -> bool {
    expected.len() == found.len()
        && expected.iter().zip(found.iter()).all(|(a, b)| a.same_as(b, &host))
}

fn kinds(input: &str) -> String {
    tokenize(input)
        .tokens(&host_read)
        .iter()
        .map(|token| match token {
            Token::LParen => "(".to_string(),
            Token::RParen => ")".to_string(),
            Token::Identifier(id) => format!("i:{}", id),
            Token::StringLiteral(s) => format!("s:{}", s),
            Token::NumberLiteral(Number::Int(v)) => format!("n:{}", v),
            Token::NumberLiteral(Number::Float(bits)) => format!("f:{:e}", f64::from_bits(*bits)),
        })
        .collect::<Vec<String>>()
        .join(" ")
}

fn parse_all(input: &str) -> Vec<Result<String, SyntaxError>> {
    let mut parser = Parser::new(tokenize(input).tokens(&host_read));
    let mut out = Vec::new();
    while let Some(r) = parser.next() {
        out.push(r.map(|expr| expr.to_text(&host_write)));
    }
    out
}

#[test]
fn lib_basics() {
    let input = "(quote (testing 1 (2.0) -3.14e159))";
    let tokens = tokenize(input).tokens(&host_read);
    assert!(same_tokens(
        &vec![
            Token::LParen,
            Token::Identifier("quote".to_string()),
            Token::LParen,
            Token::Identifier("testing".to_string()),
            Token::NumberLiteral(Number::from(1)),
            Token::LParen,
            Token::NumberLiteral(Number::from(2)),
            Token::RParen,
            Token::NumberLiteral(inexact(-3.14e159)),
            Token::RParen,
            Token::RParen
        ],
        &tokens
    ));
}

#[test]
fn tokenizer_basics() {
    let input = "(quote (testing 1 (2.0) -3.14e159))";
    let mut tokenizer = tokenize(input);
    let mut tokens: Vec<Token> = Vec::new();
    while let Some(token) = tokenizer.next(&host_read) {
        tokens.push(token);
    }
    assert!(same_tokens(
        &vec![
            Token::LParen,
            Token::Identifier("quote".to_string()),
            Token::LParen,
            Token::Identifier("testing".to_string()),
            Token::NumberLiteral(Number::from(1)),
            Token::LParen,
            Token::NumberLiteral(Number::from(2)),
            Token::RParen,
            Token::NumberLiteral(inexact(-3.14e159)),
            Token::RParen,
            Token::RParen
        ],
        &tokens
    ));
}

#[test]
fn tokens_keep_their_kind() {
    assert_eq!(
        kinds("(quote (testing 1 (2.0) -3.14e159))"),
        "( i:quote ( i:testing n:1 ( f:2e0 ) f:-3.14e159 ) )"
    );
}

#[test]
fn token_equality_is_that_of_the_numbers() {
    assert!(Token::NumberLiteral(Number::from(2)).same_as(&Token::NumberLiteral(inexact(2.0)), &host));
    assert!(!Token::NumberLiteral(Number::from(2)).same_as(&Token::NumberLiteral(inexact(2.5)), &host));
    assert!(!Token::LParen.same_as(&Token::RParen, &host));
    assert!(!Token::Identifier("a".to_string()).same_as(&Token::StringLiteral("a".to_string()), &host));
    assert!(!Token::Identifier("a".to_string()).same_as(&Token::Identifier("b".to_string()), &host));
    assert!(Token::StringLiteral("a b".to_string()).same_as(&Token::StringLiteral("a b".to_string()), &host));
}

#[test]
fn white_space_separates_and_is_dropped() {
    assert_eq!(kinds("  a\tb\nc\r\nd  "), "i:a i:b i:c i:d");
    assert_eq!(kinds("a\u{a0}b\u{2003}c\u{3000}d"), "i:a i:b i:c i:d");
    assert_eq!(kinds("a_b-c.d"), "i:a_b-c.d");
    assert_eq!(kinds(""), "");
    assert_eq!(kinds(" \n\t "), "");
}

#[test]
fn parentheses_end_a_word() {
    assert_eq!(kinds("(a(b)c)"), "( i:a ( i:b ) i:c )");
    assert_eq!(kinds("()"), "( )");
    assert_eq!(kinds("12(34)"), "n:12 ( n:34 )");
}

#[test]
fn a_string_runs_to_the_next_quote() {
    assert_eq!(kinds("\"a b (c)\" d"), "s:a b (c) i:d");
    assert_eq!(kinds("\"\""), "s:");
    assert_eq!(kinds("\"a\"\"b\""), "s:a s:b");
    assert_eq!(kinds("\"a\"b"), "s:a i:b");
}

#[test]
fn a_string_without_end_runs_to_the_end_of_the_text() {
    assert_eq!(kinds("\"never closed (1 2"), "s:never closed (1 2");
    assert_eq!(kinds("a \""), "i:a s:");
}

#[test]
fn a_quote_inside_a_word_is_part_of_it() {
    assert_eq!(kinds("ab\"cd e"), "i:ab\"cd i:e");
}

#[test]
fn a_word_that_denotes_a_number_is_a_number() {
    assert_eq!(kinds("12 -12 +12 007"), "n:12 n:-12 n:12 n:7");
    assert_eq!(kinds("1.5 -0.25 1e3 .5 5."), "f:1.5e0 f:-2.5e-1 f:1e3 f:5e-1 f:5e0");
    assert_eq!(kinds("+ - 1+ -a 1-2 1_0"), "i:+ i:- i:1+ i:-a i:1-2 i:1_0");
    assert_eq!(kinds("9223372036854775807"), "n:9223372036854775807");
    assert_eq!(kinds("-9223372036854775808"), "n:-9223372036854775808");
    assert_eq!(kinds("9223372036854775808"), "f:9.223372036854776e18");
    assert_eq!(kinds("inf"), "f:inf");
}

#[test]
fn the_tokenizer_can_be_asked_token_by_token() {
    let mut tokenizer = tokenize("(a) ");
    assert!(matches!(tokenizer.next(&host_read), Some(Token::LParen)));
    assert!(matches!(tokenizer.next(&host_read), Some(Token::Identifier(id)) if id == "a"));
    let rest = tokenizer.tokens(&host_read);
    assert_eq!(rest.len(), 1);
    assert!(matches!(rest[0], Token::RParen));
    assert!(tokenizer.next(&host_read).is_none());
    assert!(tokenizer.next(&host_read).is_none());
    assert!(tokenizer.tokens(&host_read).is_empty());
}

#[test]
fn tokens_are_written_as_they_were_read() {
    let written: Vec<String> = tokenize("(f \"s t\" 12 1.5)")
        .tokens(&host_read)
        .iter()
        .map(|token| token.to_text(&host_write))
        .collect();
    assert_eq!(written, vec!["(", "f", "\"s t\"", "12", "+1.5000e0", ")"]);
}

#[test]
fn atoms_parse_to_themselves() {
    assert_eq!(
        parse_all("a \"b\" 3 -4"),
        vec![
            Ok("a".to_string()),
            Ok("\"b\"".to_string()),
            Ok("3".to_string()),
            Ok("-4".to_string())
        ]
    );
}

#[test]
fn combinations_nest() {
    assert_eq!(
        parse_all("(define (f x) (+ x 1)) () (()) ((a) b (c (d)))"),
        vec![
            Ok("(define (f x) (+ x 1))".to_string()),
            Ok("()".to_string()),
            Ok("(())".to_string()),
            Ok("((a) b (c (d)))".to_string())
        ]
    );
    let mut parser = Parser::new(tokenize("(a (b 1) \"c\")").tokens(&host_read));
    match parser.next() {
        Some(Ok(Expression::Combination(elements))) => {
            assert_eq!(elements.len(), 3);
            assert!(matches!(&elements[0], Expression::Identifier(id) if id == "a"));
            match &elements[1] {
                Expression::Combination(inner) => {
                    assert_eq!(inner.len(), 2);
                    assert!(matches!(&inner[0], Expression::Identifier(id) if id == "b"));
                    assert!(matches!(&inner[1], Expression::NumberLiteral(Number::Int(1))));
                }
                other => panic!("{:?}", other),
            }
            assert!(matches!(&elements[2], Expression::StringLiteral(s) if s == "c"));
        }
        other => panic!("{:?}", other),
    }
    assert!(parser.next().is_none());
}

#[test]
fn no_token_no_expression() {
    assert!(parse_all("").is_empty());
    assert!(parse_all("   ").is_empty());
    let mut parser = Parser::new(Vec::new());
    assert!(matches!(parser.single(), Ok(None)));
    assert!(parser.next().is_none());
}

#[test]
fn a_close_without_an_open_is_an_error() {
    assert_eq!(
        parse_all(") a"),
        vec![Err(SyntaxError::UnexpectedCloseParen), Ok("a".to_string())]
    );
    assert_eq!(
        parse_all("(a))"),
        vec![Ok("(a)".to_string()), Err(SyntaxError::UnexpectedCloseParen)]
    );
    assert_eq!(SyntaxError::UnexpectedCloseParen.message(), "Unexpected ')'");
}

#[test]
fn an_open_without_a_close_is_an_error() {
    assert_eq!(parse_all("(a b"), vec![Err(SyntaxError::UnexpectedEndOfInput)]);
    assert_eq!(parse_all("("), vec![Err(SyntaxError::UnexpectedEndOfInput)]);
    assert_eq!(
        parse_all("a ((b) c"),
        vec![Ok("a".to_string()), Err(SyntaxError::UnexpectedEndOfInput)]
    );
    assert_eq!(SyntaxError::UnexpectedEndOfInput.message(), "Unexpected end of input");
}

#[test]
fn deep_nesting_is_parsed_without_deep_recursion() {
    let depth = 20000;
    let mut tokens = Vec::new();
    for _ in 0..depth {
        tokens.push(Token::LParen);
    }
    tokens.push(Token::Identifier("x".to_string()));
    let mut parser = Parser::new(tokens);
    assert!(matches!(parser.next(), Some(Err(SyntaxError::UnexpectedEndOfInput))));
    assert!(parser.next().is_none());
}
