use simple_scheme_interpreter::environment::{create_root_environment, Environment};
use simple_scheme_interpreter::expression::{duplicate_names, Builtin, Expression};
use simple_scheme_interpreter::float::FloatOp;
use simple_scheme_interpreter::number::Number;

fn host(op: FloatOp) -> u64 {
    let r = match op {
        FloatOp::FromInt(v) => v as f64,
        FloatOp::Add(a, b) => f64::from_bits(a) + f64::from_bits(b),
        FloatOp::Sub(a, b) => f64::from_bits(a) - f64::from_bits(b),
        FloatOp::Mul(a, b) => f64::from_bits(a) * f64::from_bits(b),
        FloatOp::Div(a, b) => f64::from_bits(a) / f64::from_bits(b),
    };
    r.to_bits()
}

fn host_write(bits: u64) -> String {
    format!("{:+.4e}", f64::from_bits(bits))
}

fn whole(v: i64) -> Expression {
    Expression::NumberLiteral(Number::Int(v))
}

fn inexact(v: f64) -> Expression {
    Expression::NumberLiteral(Number::from_bits(v.to_bits()))
}

fn name(text: &str) -> Expression {
    Expression::Identifier(text.to_string())
}

fn key(text: &str) -> String {
    text.to_string()
}

#[test]
fn a_new_environment_has_no_frame() {
    let env = Environment::new();
    assert_eq!(env.frame_count(), 0);
    assert!(env.lookup(&key("+")).is_none());
}

#[test]
fn insert_binds_in_the_innermost_frame() {
    let mut env = Environment::new();
    env.push();
    env.insert(key("x"), whole(1));
    env.push();
    assert!(matches!(env.lookup(&key("x")), Some(Expression::NumberLiteral(Number::Int(1)))));
    env.insert(key("x"), whole(2));
    env.insert(key("y"), whole(3));
    assert!(matches!(env.lookup(&key("x")), Some(Expression::NumberLiteral(Number::Int(2)))));
    assert!(matches!(env.lookup(&key("y")), Some(Expression::NumberLiteral(Number::Int(3)))));
    env.pop();
    assert!(matches!(env.lookup(&key("x")), Some(Expression::NumberLiteral(Number::Int(1)))));
    assert!(env.lookup(&key("y")).is_none());
    assert_eq!(env.frame_count(), 1);
}

#[test]
fn insert_replaces_what_the_frame_bound() {
    let mut env = Environment::new();
    env.push();
    env.insert(key("a"), whole(1));
    env.insert(key("b"), whole(2));
    env.insert(key("a"), whole(3));
    env.insert(key("b"), whole(4));
    env.insert(key("a"), whole(5));
    assert!(matches!(env.lookup(&key("a")), Some(Expression::NumberLiteral(Number::Int(5)))));
    assert!(matches!(env.lookup(&key("b")), Some(Expression::NumberLiteral(Number::Int(4)))));
    assert!(env.lookup(&key("c")).is_none());
    assert!(env.lookup(&key("")).is_none());
    env.insert(key(""), whole(6));
    assert!(matches!(env.lookup(&key("")), Some(Expression::NumberLiteral(Number::Int(6)))));
}

#[test]
fn lookup_goes_from_the_innermost_frame_outwards() {
    let mut env = Environment::new();
    env.push();
    env.insert(key("x"), whole(1));
    env.insert(key("only-outer"), whole(10));
    env.push();
    env.insert(key("x"), whole(2));
    env.push();
    assert!(matches!(env.lookup(&key("x")), Some(Expression::NumberLiteral(Number::Int(2)))));
    assert!(matches!(
        env.lookup(&key("only-outer")),
        Some(Expression::NumberLiteral(Number::Int(10)))
    ));
    assert_eq!(env.frame_count(), 3);
}

#[test]
fn pop_without_a_frame_does_nothing() {
    let mut env = Environment::new();
    env.pop();
    assert_eq!(env.frame_count(), 0);
    env.push();
    env.pop();
    env.pop();
    assert_eq!(env.frame_count(), 0);
}

#[test]
fn the_root_environment_binds_the_builtins() {
    let env = create_root_environment();
    assert_eq!(env.frame_count(), 1);
    assert!(matches!(env.lookup(&key("+")), Some(Expression::BuiltinProcedure(Builtin::Add))));
    assert!(matches!(env.lookup(&key("-")), Some(Expression::BuiltinProcedure(Builtin::Sub))));
    assert!(matches!(env.lookup(&key("*")), Some(Expression::BuiltinProcedure(Builtin::Mul))));
    assert!(matches!(env.lookup(&key("/")), Some(Expression::BuiltinProcedure(Builtin::Div))));
    assert!(matches!(
        env.lookup(&key(">")),
        Some(Expression::BuiltinProcedure(Builtin::GreaterThan))
    ));
    assert!(matches!(
        env.lookup(&key("<")),
        Some(Expression::BuiltinProcedure(Builtin::LessThan))
    ));
    assert!(matches!(env.lookup(&key("=")), Some(Expression::BuiltinProcedure(Builtin::Equal))));
    assert!(matches!(env.lookup(&key("#t")), Some(Expression::BooleanLiteral(true))));
    assert!(matches!(env.lookup(&key("#f")), Some(Expression::BooleanLiteral(false))));
    assert!(env.lookup(&key("define")).is_none());
    assert!(env.lookup(&key("cond")).is_none());
    assert!(env.lookup(&key("#")).is_none());
}

#[test]
fn expressions_are_written() {
    let expr = Expression::Combination(vec![
        name("f"),
        whole(-1),
        Expression::StringLiteral("a b".to_string()),
        Expression::Combination(vec![]),
        Expression::Combination(vec![inexact(123.456)]),
        Expression::BooleanLiteral(true),
        Expression::BooleanLiteral(false),
    ]);
    assert_eq!(expr.to_text(&host_write), "(f -1 \"a b\" () (+1.2346e2) #t #f)");
    assert_eq!(Expression::Void.to_text(&host_write), "");
    assert_eq!(
        Expression::Procedure(vec![key("x")], Box::new(name("x"))).to_text(&host_write),
        "#procedure"
    );
    assert_eq!(Expression::BuiltinProcedure(Builtin::Add).to_text(&host_write), "#builtin");
    assert_eq!(
        Expression::Combination(vec![Expression::Void, Expression::Void]).to_text(&host_write),
        "( )"
    );
    assert_eq!(inexact(-1.0).to_text(&host_write), "-1.0000e0");
}

#[test]
fn equality_is_structural() {
    let a = Expression::Combination(vec![name("f"), whole(2), Expression::Combination(vec![])]);
    let b = Expression::Combination(vec![name("f"), inexact(2.0), Expression::Combination(vec![])]);
    let c = Expression::Combination(vec![name("f"), whole(2)]);
    let d = Expression::Combination(vec![name("g"), whole(2), Expression::Combination(vec![])]);
    assert!(a.same_as(&a, &host));
    assert!(a.same_as(&b, &host));
    assert!(!a.same_as(&c, &host));
    assert!(!c.same_as(&a, &host));
    assert!(!a.same_as(&d, &host));
    assert!(!name("a").same_as(&Expression::StringLiteral("a".to_string()), &host));
    assert!(Expression::StringLiteral("a".to_string())
        .same_as(&Expression::StringLiteral("a".to_string()), &host));
    assert!(Expression::BooleanLiteral(true).same_as(&Expression::BooleanLiteral(true), &host));
    assert!(!Expression::BooleanLiteral(true).same_as(&Expression::BooleanLiteral(false), &host));
    assert!(Expression::Void.same_as(&Expression::Void, &host));
    assert!(!Expression::Void.same_as(&Expression::Combination(vec![]), &host));
}

#[test]
fn a_procedure_equals_nothing() {
    let p = Expression::Procedure(vec![key("x")], Box::new(name("x")));
    assert!(!p.same_as(&p, &host));
    let b = Expression::BuiltinProcedure(Builtin::Add);
    assert!(!b.same_as(&b, &host));
    let holder = Expression::Combination(vec![Expression::BuiltinProcedure(Builtin::Add)]);
    assert!(!holder.same_as(&holder, &host));
}

#[test]
fn a_copy_is_equal_and_apart() {
    let first = Expression::Combination(vec![
        name("f"),
        whole(2),
        Expression::StringLiteral("s".to_string()),
        Expression::Combination(vec![Expression::BooleanLiteral(true), Expression::Void]),
    ]);
    let copy = first.clone();
    assert!(copy.same_as(&first, &host));
    assert_eq!(copy.to_text(&host_write), first.to_text(&host_write));
    let procedure = Expression::Procedure(vec![key("a"), key("b")], Box::new(name("a")));
    match procedure.duplicate() {
        Expression::Procedure(params, body) => {
            assert_eq!(params, vec![key("a"), key("b")]);
            assert!(matches!(*body, Expression::Identifier(id) if id == "a"));
        }
        other => panic!("{:?}", other),
    }
    assert_eq!(duplicate_names(&vec![key("a"), key("")]), vec![key("a"), key("")]);
}
