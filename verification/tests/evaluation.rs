//! Environment and evaluator tests: lookups, schedules, and evaluation
//! errors.

use exprlang::parser::ast::{BinOp, Expr, Literal};
use exprlang::runtime::environment::Environment;
use exprlang::runtime::runtime_core::{EvalError, Evaluator, Step};

fn chars(s: &str) -> Vec<char> {
    s.chars().collect()
}

#[test]
fn empty_environment_has_no_bindings() {
    let env = Environment::new();
    assert_eq!(env.get(&chars("x")), None);
}

#[test]
fn defined_name_is_found() {
    let mut env = Environment::new();
    env.define(chars("x"), chars("3.5"));
    assert_eq!(env.get(&chars("x")), Some(chars("3.5")));
    assert_eq!(env.get(&chars("y")), None);
}

#[test]
fn later_definition_overrides_earlier() {
    let mut env = Environment::new();
    env.define(chars("x"), chars("1"));
    env.define(chars("x"), chars("2"));
    assert_eq!(env.get(&chars("x")), Some(chars("2")));
}

#[test]
fn literal_evaluates_to_a_single_push() {
    let mut evaluator = Evaluator::new(Environment::new());
    let steps = evaluator
        .evaluate(&Expr::Literal(Literal::Number(chars("7"))))
        .expect("a literal evaluates");
    assert_eq!(steps, vec![Step::Push(Literal::Number(chars("7")))]);
}

#[test]
fn variable_evaluates_to_its_bound_number() {
    let mut env = Environment::new();
    env.define(chars("x"), chars("2.5"));
    let mut evaluator = Evaluator::new(env);
    let steps = evaluator
        .evaluate(&Expr::Variable(chars("x")))
        .expect("a bound variable evaluates");
    assert_eq!(steps, vec![Step::Push(Literal::Number(chars("2.5")))]);
}

#[test]
fn binary_schedule_is_postfix_left_then_right() {
    let tree = Expr::Binary(
        Box::new(Expr::Literal(Literal::Number(chars("1")))),
        BinOp::Add,
        Box::new(Expr::Literal(Literal::Number(chars("2")))),
    );
    let mut evaluator = Evaluator::new(Environment::new());
    let steps = evaluator.evaluate(&tree).expect("the sum evaluates");
    assert_eq!(
        steps,
        vec![
            Step::Push(Literal::Number(chars("1"))),
            Step::Push(Literal::Number(chars("2"))),
            Step::Apply(BinOp::Add),
        ]
    );
}

#[test]
fn leftmost_error_wins() {
    let tree = Expr::Binary(
        Box::new(Expr::Variable(chars("missing"))),
        BinOp::Add,
        Box::new(Expr::Variable(chars("also_missing"))),
    );
    let mut evaluator = Evaluator::new(Environment::new());
    assert_eq!(
        evaluator.evaluate(&tree),
        Err(EvalError::UndefinedVariable(chars("missing")))
    );
}

#[test]
fn boolean_operand_is_unsupported() {
    let tree = Expr::Binary(
        Box::new(Expr::Literal(Literal::Boolean(true))),
        BinOp::Add,
        Box::new(Expr::Literal(Literal::Number(chars("1")))),
    );
    let mut evaluator = Evaluator::new(Environment::new());
    assert_eq!(evaluator.evaluate(&tree), Err(EvalError::UnsupportedOperation));
}

#[test]
fn deep_tree_type_checks_through_binaries() {
    // (1 + 2) * ("s" is rejected even under another binary on the right).
    let tree = Expr::Binary(
        Box::new(Expr::Binary(
            Box::new(Expr::Literal(Literal::Number(chars("1")))),
            BinOp::Add,
            Box::new(Expr::Literal(Literal::Number(chars("2")))),
        )),
        BinOp::Mul,
        Box::new(Expr::Literal(Literal::Str(chars("s")))),
    );
    let mut evaluator = Evaluator::new(Environment::new());
    assert_eq!(evaluator.evaluate(&tree), Err(EvalError::UnsupportedOperation));
}
