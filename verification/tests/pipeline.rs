//! End-to-end tests: scan, parse, evaluate, and fold the returned schedule
//! with native floating-point arithmetic, as a driving host would.

use exprlang::lexer::lexer_core::Lexer;
use exprlang::parser::ast::{BinOp, Expr, Literal, ParseError};
use exprlang::parser::parser_core::Parser;
use exprlang::runtime::environment::Environment;
use exprlang::runtime::runtime_core::{EvalError, Evaluator, Step};

fn chars(s: &str) -> Vec<char> {
    s.chars().collect()
}

fn parse_source(source: &str) -> Result<Expr, ParseError> {
    let mut lexer = Lexer::new(chars(source));
    let tokens = lexer.scan_tokens();
    let mut parser = Parser::new(tokens);
    parser.parse()
}

fn evaluate_source(source: &str, env: Environment) -> Result<Vec<Step>, EvalError> {
    let tree = parse_source(source).expect("the source should parse");
    let mut evaluator = Evaluator::new(env);
    evaluator.evaluate(&tree)
}

fn text_to_f64(text: &Vec<char>) -> f64 {
    let spelled: String = text.iter().collect();
    spelled.parse().expect("a scanned number literal spells a float")
}

fn fold_number(steps: Vec<Step>) -> f64 {
    let mut stack: Vec<f64> = Vec::new();
    for step in steps {
        match step {
            Step::Push(Literal::Number(text)) => stack.push(text_to_f64(&text)),
            Step::Push(_) => panic!("a numeric schedule pushes numbers only"),
            Step::Apply(op) => {
                let right = stack.pop().expect("an application has a right operand");
                let left = stack.pop().expect("an application has a left operand");
                stack.push(match op {
                    BinOp::Add => left + right,
                    BinOp::Sub => left - right,
                    BinOp::Mul => left * right,
                    BinOp::Div => left / right,
                });
            }
        }
    }
    assert_eq!(stack.len(), 1);
    stack[0]
}

fn run_number(source: &str, env: Environment) -> f64 {
    fold_number(evaluate_source(source, env).expect("the source should evaluate"))
}

#[test]
fn subtraction_associates_left() {
    assert_eq!(run_number("10 - 3 - 2", Environment::new()), 5.0);
}

#[test]
fn parentheses_override_precedence() {
    assert_eq!(run_number("(3 + 42) * 7.5", Environment::new()), 337.5);
}

#[test]
fn multiplication_binds_tighter_than_addition() {
    assert_eq!(run_number("2 + 3 * 4", Environment::new()), 14.0);
}

#[test]
fn division_associates_left() {
    assert_eq!(run_number("20 / 4 / 5", Environment::new()), 1.0);
}

#[test]
fn mixed_arithmetic_follows_ieee() {
    assert_eq!(run_number("1 + 2 * 3 - 8 / 2", Environment::new()), 3.0);
    assert_eq!(run_number("7.5 + 0.25", Environment::new()), 7.75);
    assert_eq!(run_number("0.1 + 0.2", Environment::new()), 0.1f64 + 0.2f64);
}

#[test]
fn unary_negation_desugars_to_zero_minus() {
    let tree = parse_source("-5").expect("negation should parse");
    let expected = Expr::Binary(
        Box::new(Expr::Literal(Literal::Number(chars("0")))),
        BinOp::Sub,
        Box::new(Expr::Literal(Literal::Number(chars("5")))),
    );
    assert_eq!(tree, expected);
    let mut evaluator = Evaluator::new(Environment::new());
    let steps = evaluator.evaluate(&tree).expect("negation should evaluate");
    assert_eq!(fold_number(steps), -5.0);
}

#[test]
fn division_by_zero_yields_positive_infinity() {
    let result = run_number("1 / 0", Environment::new());
    assert!(result.is_infinite());
    assert!(result.is_sign_positive());
}

#[test]
fn variables_resolve_through_the_environment() {
    let mut env = Environment::new();
    env.define(chars("x"), chars("2.5"));
    assert_eq!(run_number("x * 4", env), 10.0);
}

#[test]
fn undefined_variable_fails_naming_it() {
    let result = evaluate_source("x", Environment::new());
    assert_eq!(result, Err(EvalError::UndefinedVariable(chars("x"))));
}

#[test]
fn string_literal_passes_through_evaluation() {
    let steps = evaluate_source("\"hi\"", Environment::new()).expect("a string evaluates");
    assert_eq!(steps, vec![Step::Push(Literal::Str(chars("hi")))]);
}

#[test]
fn binary_operation_over_string_is_unsupported() {
    let result = evaluate_source("1 + \"a\"", Environment::new());
    assert_eq!(result, Err(EvalError::UnsupportedOperation));
}
