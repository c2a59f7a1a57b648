use simple_scheme_interpreter::float::{float_eq, float_lt, float_neg, FloatOp};
use simple_scheme_interpreter::number::{ArithmeticError, Number, Operation, Relation};
use simple_scheme_interpreter::text::{chars_of, integer_text, parse_integer};

fn host(op: FloatOp) -> u64 {
    let r = match op {
        FloatOp::FromInt(v) => v as f64,
        FloatOp::Add(a, b) => f64::from_bits(a) + f64::from_bits(b),
        FloatOp::Sub(a, b) => f64::from_bits(a) - f64::from_bits(b),
        FloatOp::Mul(a, b) => f64::from_bits(a) * f64::from_bits(b),
        FloatOp::Div(a, b) => f64::from_bits(a) / f64::from_bits(b),
    };
    r.to_bits()
}

fn host_read(text: &str) -> Option<u64> {
    text.parse::<f64>().ok().map(f64::to_bits)
}

fn host_write(bits: u64) -> String {
    format!("{:+.4e}", f64::from_bits(bits))
}

fn inexact(v: f64) -> Number {
    Number::from_bits(v.to_bits())
}

fn as_float(n: Result<Number, ArithmeticError>) -> f64 {
    match n {
        Ok(Number::Float(bits)) => f64::from_bits(bits),
        other => panic!("{:?}", other),
    }
}

fn samples() -> Vec<f64> {
    vec![
        0.0,
        -0.0,
        1.0,
        -1.0,
        1.5,
        -1.5,
        f64::MIN_POSITIVE,
        -f64::MIN_POSITIVE,
        5e-324,
        -5e-324,
        f64::MAX,
        f64::MIN,
        f64::INFINITY,
        f64::NEG_INFINITY,
        f64::NAN,
        -f64::NAN,
        62.8318,
        1e300,
        -1e-300,
    ]
}

#[test]
fn integers_add_exactly() {
    assert!(matches!(Number::Int(137).add(Number::Int(349), &host), Ok(Number::Int(486))));
    assert!(matches!(Number::Int(-5).add(Number::Int(5), &host), Ok(Number::Int(0))));
    assert!(matches!(
        Number::Int(i64::MAX).add(Number::Int(1), &host),
        Err(ArithmeticError::Overflow)
    ));
    assert!(matches!(
        Number::Int(i64::MIN).add(Number::Int(-1), &host),
        Err(ArithmeticError::Overflow)
    ));
}

#[test]
fn integers_subtract_exactly() {
    assert!(matches!(Number::Int(1000).sub(Number::Int(334), &host), Ok(Number::Int(666))));
    assert!(matches!(
        Number::Int(i64::MIN).sub(Number::Int(1), &host),
        Err(ArithmeticError::Overflow)
    ));
    assert!(matches!(
        Number::Int(0).sub(Number::Int(i64::MIN), &host),
        Err(ArithmeticError::Overflow)
    ));
}

#[test]
fn integers_multiply_exactly() {
    assert!(matches!(Number::Int(5).mul(Number::Int(99), &host), Ok(Number::Int(495))));
    assert!(matches!(Number::Int(-3).mul(Number::Int(7), &host), Ok(Number::Int(-21))));
    assert!(matches!(
        Number::Int(i64::MAX).mul(Number::Int(2), &host),
        Err(ArithmeticError::Overflow)
    ));
    assert!(matches!(
        Number::Int(i64::MIN).mul(Number::Int(-1), &host),
        Err(ArithmeticError::Overflow)
    ));
}

#[test]
fn integers_divide_exactly_where_they_can() {
    assert!(matches!(Number::Int(10).div(Number::Int(5), &host), Ok(Number::Int(2))));
    assert!(matches!(Number::Int(-10).div(Number::Int(5), &host), Ok(Number::Int(-2))));
    assert!(matches!(Number::Int(10).div(Number::Int(-5), &host), Ok(Number::Int(-2))));
    assert!(matches!(Number::Int(-10).div(Number::Int(-5), &host), Ok(Number::Int(2))));
    assert!(matches!(Number::Int(0).div(Number::Int(3), &host), Ok(Number::Int(0))));
    assert!(matches!(
        Number::Int(i64::MIN).div(Number::Int(1), &host),
        Ok(Number::Int(i64::MIN))
    ));
    assert_eq!(as_float(Number::Int(7).div(Number::Int(2), &host)), 3.5);
    assert_eq!(as_float(Number::Int(-7).div(Number::Int(2), &host)), -3.5);
    assert_eq!(as_float(Number::Int(1).div(Number::Int(-4), &host)), -0.25);
}

#[test]
fn integer_division_without_a_result() {
    assert!(matches!(
        Number::Int(1).div(Number::Int(0), &host),
        Err(ArithmeticError::DivisionByZero)
    ));
    assert!(matches!(
        Number::Int(i64::MIN).div(Number::Int(-1), &host),
        Err(ArithmeticError::Overflow)
    ));
}

#[test]
fn an_integer_is_promoted_beside_a_float() {
    assert_eq!(as_float(Number::Int(1).add(inexact(0.5), &host)), 1.5);
    assert_eq!(as_float(inexact(0.5).add(Number::Int(1), &host)), 1.5);
    assert_eq!(as_float(Number::Int(1).sub(inexact(0.5), &host)), 0.5);
    assert_eq!(as_float(inexact(0.5).sub(Number::Int(1), &host)), -0.5);
    assert_eq!(as_float(Number::Int(3).mul(inexact(0.5), &host)), 1.5);
    assert_eq!(as_float(inexact(0.5).mul(Number::Int(3), &host)), 1.5);
    assert_eq!(as_float(Number::Int(1).div(inexact(4.0), &host)), 0.25);
    assert_eq!(as_float(inexact(4.0).div(Number::Int(1), &host)), 4.0);
    assert_eq!(as_float(inexact(1.0).div(Number::Int(0), &host)), f64::INFINITY);
    assert_eq!(as_float(Number::Int(4).div(inexact(2.0), &host)), 2.0);
    assert_eq!(as_float(inexact(1.5).add(inexact(2.25), &host)), 3.75);
    assert_eq!(
        as_float(Number::Int(i64::MAX).add(inexact(0.0), &host)),
        9223372036854775807i64 as f64
    );
}

#[test]
fn the_float_unit_is_asked_for_the_promoted_operands() {
    let echo = |op: FloatOp| -> u64 {
        match op {
            FloatOp::FromInt(v) => 1000 + v as u64,
            FloatOp::Add(a, b) => 1_000_000 * a + b,
            FloatOp::Sub(a, b) => 2_000_000 * a + b,
            FloatOp::Mul(a, b) => 3_000_000 * a + b,
            FloatOp::Div(a, b) => 4_000_000 * a + b,
        }
    };
    assert!(matches!(
        Number::Int(7).add(Number::Float(5), &echo),
        Ok(Number::Float(1_007_000_005))
    ));
    assert!(matches!(
        Number::Float(5).add(Number::Int(7), &echo),
        Ok(Number::Float(5_001_007))
    ));
    assert!(matches!(
        Number::Int(7).sub(Number::Float(5), &echo),
        Ok(Number::Float(2_014_000_005))
    ));
    assert!(matches!(
        Number::Float(5).mul(Number::Int(7), &echo),
        Ok(Number::Float(15_001_007))
    ));
    assert!(matches!(
        Number::Int(7).div(Number::Int(2), &echo),
        Ok(Number::Float(4_028_001_002))
    ));
    assert!(matches!(Number::Int(8).div(Number::Int(2), &echo), Ok(Number::Int(4))));
    assert!(matches!(Number::Int(7).promote(&echo), 1007));
    assert!(matches!(Number::Float(7).promote(&echo), 7));
}

#[test]
fn negation() {
    assert!(matches!(Number::Int(5).neg(), Ok(Number::Int(-5))));
    assert!(matches!(Number::Int(0).neg(), Ok(Number::Int(0))));
    assert!(matches!(Number::Int(i64::MIN).neg(), Err(ArithmeticError::Overflow)));
    assert!(matches!(Number::Int(i64::MAX).neg(), Ok(Number::Int(v)) if v == i64::MIN + 1));
    assert_eq!(as_float(inexact(1.5).neg()), -1.5);
    assert_eq!(as_float(inexact(0.0).neg()).to_bits(), (-0.0f64).to_bits());
}

#[test]
fn negation_of_the_bits_is_that_of_the_float() {
    for v in samples() {
        assert_eq!(float_neg(v.to_bits()), (-v).to_bits());
    }
}

#[test]
fn comparison_of_the_bits_is_that_of_the_floats() {
    for a in samples() {
        for b in samples() {
            assert_eq!(float_eq(a.to_bits(), b.to_bits()), a == b, "{} == {}", a, b);
            assert_eq!(float_lt(a.to_bits(), b.to_bits()), a < b, "{} < {}", a, b);
        }
    }
}

#[test]
fn numbers_compare_with_promotion() {
    assert!(Number::Int(2).eq(Number::Int(2), &host));
    assert!(!Number::Int(2).eq(Number::Int(3), &host));
    assert!(Number::Int(2).eq(inexact(2.0), &host));
    assert!(inexact(2.0).eq(Number::Int(2), &host));
    assert!(!inexact(2.5).eq(Number::Int(2), &host));
    assert!(!inexact(f64::NAN).eq(inexact(f64::NAN), &host));
    assert!(inexact(0.0).eq(inexact(-0.0), &host));
    assert!(Number::Int(1).lt(Number::Int(2), &host));
    assert!(!Number::Int(2).lt(Number::Int(2), &host));
    assert!(Number::Int(1).lt(inexact(1.5), &host));
    assert!(inexact(1.5).lt(Number::Int(2), &host));
    assert!(!inexact(1.5).lt(Number::Int(1), &host));
    assert!(Number::Int(3).gt(Number::Int(2), &host));
    assert!(inexact(2.5).gt(Number::Int(2), &host));
    assert!(!Number::Int(2).gt(inexact(2.5), &host));
    assert!(!inexact(f64::NAN).lt(Number::Int(1), &host));
    assert!(!inexact(f64::NAN).gt(Number::Int(1), &host));
    assert!(Number::Int(i64::MAX).eq(inexact(9223372036854775808.0), &host));
}

#[test]
fn operations_and_relations_by_name() {
    assert!(matches!(
        Number::Int(6).combine(Operation::Add, Number::Int(3), &host),
        Ok(Number::Int(9))
    ));
    assert!(matches!(
        Number::Int(6).combine(Operation::Sub, Number::Int(3), &host),
        Ok(Number::Int(3))
    ));
    assert!(matches!(
        Number::Int(6).combine(Operation::Mul, Number::Int(3), &host),
        Ok(Number::Int(18))
    ));
    assert!(matches!(
        Number::Int(6).combine(Operation::Div, Number::Int(3), &host),
        Ok(Number::Int(2))
    ));
    assert!(Number::Int(6).relate(Relation::Greater, Number::Int(3), &host));
    assert!(!Number::Int(6).relate(Relation::Less, Number::Int(3), &host));
    assert!(!Number::Int(6).relate(Relation::Equal, Number::Int(3), &host));
    assert!(Number::Int(3).relate(Relation::Equal, Number::Int(3), &host));
}

#[test]
fn numbers_from_integers_and_bits() {
    assert!(matches!(Number::from(-7i64), Number::Int(-7)));
    assert!(matches!(Number::from_bits(0x3ff8000000000000), Number::Float(0x3ff8000000000000)));
    assert_eq!(as_float(Ok(Number::from_bits(0x3ff8000000000000))), 1.5);
}

#[test]
fn numbers_are_read_as_integers_first() {
    assert!(matches!(Number::parse("12", &host_read), Ok(Number::Int(12))));
    assert!(matches!(Number::parse("-12", &host_read), Ok(Number::Int(-12))));
    assert!(matches!(Number::parse("+12", &host_read), Ok(Number::Int(12))));
    assert!(matches!(Number::parse("0", &host_read), Ok(Number::Int(0))));
    assert!(matches!(Number::parse("-0", &host_read), Ok(Number::Int(0))));
    assert_eq!(as_float(Number::parse("2.0", &host_read).map_err(|_| ArithmeticError::Overflow)), 2.0);
    assert_eq!(
        as_float(Number::parse("-3.14e159", &host_read).map_err(|_| ArithmeticError::Overflow)),
        -3.14e159
    );
    assert_eq!(
        as_float(
            Number::parse("9223372036854775808", &host_read).map_err(|_| ArithmeticError::Overflow)
        ),
        9223372036854775808.0
    );
    assert!(Number::parse("", &host_read).is_err());
    assert!(Number::parse("abc", &host_read).is_err());
    assert!(Number::parse("-", &host_read).is_err());
    assert!(Number::parse("+", &host_read).is_err());
    assert!(Number::parse("1 2", &host_read).is_err());
    assert!(Number::parse("12a", &host_read).is_err());
}

#[test]
fn the_float_reader_is_asked_only_after_the_integers() {
    let never = |_: &str| -> Option<u64> { Some(99) };
    assert!(matches!(Number::parse("12", &never), Ok(Number::Int(12))));
    assert!(matches!(Number::parse("1x", &never), Ok(Number::Float(99))));
    let nothing = |_: &str| -> Option<u64> { None };
    assert!(Number::parse("1.5", &nothing).is_err());
}

#[test]
fn integers_are_read_in_decimal() {
    assert_eq!(parse_integer("0"), Some(0));
    assert_eq!(parse_integer("486"), Some(486));
    assert_eq!(parse_integer("-486"), Some(-486));
    assert_eq!(parse_integer("+486"), Some(486));
    assert_eq!(parse_integer("000486"), Some(486));
    assert_eq!(parse_integer("9223372036854775807"), Some(i64::MAX));
    assert_eq!(parse_integer("-9223372036854775808"), Some(i64::MIN));
    assert_eq!(parse_integer("9223372036854775808"), None);
    assert_eq!(parse_integer("-9223372036854775809"), None);
    assert_eq!(parse_integer("99999999999999999999999999"), None);
    assert_eq!(parse_integer("00000000000000000000000000000000001"), Some(1));
    assert_eq!(parse_integer(""), None);
    assert_eq!(parse_integer("-"), None);
    assert_eq!(parse_integer("+"), None);
    assert_eq!(parse_integer("--1"), None);
    assert_eq!(parse_integer("+-1"), None);
    assert_eq!(parse_integer("1-"), None);
    assert_eq!(parse_integer("1.0"), None);
    assert_eq!(parse_integer(" 1"), None);
    assert_eq!(parse_integer("1 "), None);
    assert_eq!(parse_integer("12a"), None);
    assert_eq!(parse_integer("\u{663}"), None);
    assert_eq!(parse_integer("99999999999999999999x"), None);
}

#[test]
fn integers_are_read_as_the_standard_library_reads_them() {
    for text in [
        "0", "-0", "+0", "1", "-1", "+1", "10", "0010", "9223372036854775807",
        "9223372036854775808", "-9223372036854775808", "-9223372036854775809", "", "+", "-",
        "1e3", "0x10", "1_000", "١٢", "123456789012345678901234567890",
    ] {
        assert_eq!(parse_integer(text), text.parse::<i64>().ok(), "{:?}", text);
    }
}

#[test]
fn integers_are_written_in_decimal() {
    assert_eq!(integer_text(0), "0");
    assert_eq!(integer_text(7), "7");
    assert_eq!(integer_text(10), "10");
    assert_eq!(integer_text(486), "486");
    assert_eq!(integer_text(-486), "-486");
    assert_eq!(integer_text(i64::MAX), "9223372036854775807");
    assert_eq!(integer_text(i64::MIN), "-9223372036854775808");
    for v in [-1000i64, -99, -10, -9, -1, 1, 9, 99, 100, 101, 1234567890] {
        assert_eq!(integer_text(v), v.to_string());
        assert_eq!(parse_integer(&integer_text(v)), Some(v));
    }
}

#[test]
fn numbers_are_written() {
    assert_eq!(Number::Int(-42).to_text(&host_write), "-42");
    assert_eq!(inexact(123.456).to_text(&host_write), "+1.2346e2");
    assert_eq!(inexact(-0.5).to_text(&host_write), "-5.0000e-1");
    assert_eq!(inexact(62.8318).to_text(&host_write), "+6.2832e1");
}

#[test]
fn the_characters_of_a_text() {
    assert_eq!(chars_of("a(é\u{3000}"), vec!['a', '(', 'é', '\u{3000}']);
    assert!(chars_of("").is_empty());
}
