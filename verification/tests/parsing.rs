//! Parser tests: tree shapes, associativity, precedence, and structural
//! errors.

use exprlang::lexer::lexer_core::Lexer;
use exprlang::parser::ast::{BinOp, Expr, Literal, ParseError};
use exprlang::parser::parser_core::Parser;

fn chars(s: &str) -> Vec<char> {
    s.chars().collect()
}

fn parse_source(source: &str) -> Result<Expr, ParseError> {
    let mut lexer = Lexer::new(chars(source));
    let tokens = lexer.scan_tokens();
    let mut parser = Parser::new(tokens);
    parser.parse()
}

fn number(text: &str) -> Expr {
    Expr::Literal(Literal::Number(chars(text)))
}

#[test]
fn unmatched_parenthesis_at_end_is_unexpected_eof() {
    assert_eq!(parse_source("(3 + 4"), Err(ParseError::UnexpectedEOF));
}

#[test]
fn unmatched_parenthesis_before_garbage_is_unexpected_token() {
    assert_eq!(parse_source("(3 + 4 ;"), Err(ParseError::UnexpectedToken));
}

#[test]
fn empty_input_is_unexpected_eof() {
    assert_eq!(parse_source(""), Err(ParseError::UnexpectedEOF));
}

#[test]
fn missing_operand_is_unexpected_eof() {
    assert_eq!(parse_source("1 +"), Err(ParseError::UnexpectedEOF));
}

#[test]
fn keyword_where_a_value_is_expected_is_unexpected_token() {
    assert_eq!(parse_source("var"), Err(ParseError::UnexpectedToken));
    assert_eq!(parse_source("1 + while"), Err(ParseError::UnexpectedToken));
}

#[test]
fn same_precedence_folds_left() {
    let tree = parse_source("1 - 2 - 3").expect("the chain should parse");
    let expected = Expr::Binary(
        Box::new(Expr::Binary(
            Box::new(number("1")),
            BinOp::Sub,
            Box::new(number("2")),
        )),
        BinOp::Sub,
        Box::new(number("3")),
    );
    assert_eq!(tree, expected);
}

#[test]
fn multiplication_groups_below_addition() {
    let tree = parse_source("1 + 2 * 3").expect("the expression should parse");
    let expected = Expr::Binary(
        Box::new(number("1")),
        BinOp::Add,
        Box::new(Expr::Binary(
            Box::new(number("2")),
            BinOp::Mul,
            Box::new(number("3")),
        )),
    );
    assert_eq!(tree, expected);
}

#[test]
fn parentheses_group_explicitly() {
    let tree = parse_source("(1 + 2) * 3").expect("the expression should parse");
    let expected = Expr::Binary(
        Box::new(Expr::Binary(
            Box::new(number("1")),
            BinOp::Add,
            Box::new(number("2")),
        )),
        BinOp::Mul,
        Box::new(number("3")),
    );
    assert_eq!(tree, expected);
}

#[test]
fn boolean_keywords_parse_to_literals() {
    assert_eq!(
        parse_source("true"),
        Ok(Expr::Literal(Literal::Boolean(true)))
    );
    assert_eq!(
        parse_source("false"),
        Ok(Expr::Literal(Literal::Boolean(false)))
    );
}

#[test]
fn identifier_parses_to_variable() {
    assert_eq!(parse_source("answer"), Ok(Expr::Variable(chars("answer"))));
}

#[test]
fn string_token_parses_to_literal() {
    assert_eq!(
        parse_source("\"hi\""),
        Ok(Expr::Literal(Literal::Str(chars("hi"))))
    );
}

#[test]
fn double_negation_nests_right() {
    let tree = parse_source("--5").expect("double negation should parse");
    let expected = Expr::Binary(
        Box::new(number("0")),
        BinOp::Sub,
        Box::new(Expr::Binary(
            Box::new(number("0")),
            BinOp::Sub,
            Box::new(number("5")),
        )),
    );
    assert_eq!(tree, expected);
}

#[test]
fn negation_binds_tighter_than_multiplication() {
    let tree = parse_source("-2 * 3").expect("the expression should parse");
    let expected = Expr::Binary(
        Box::new(Expr::Binary(
            Box::new(number("0")),
            BinOp::Sub,
            Box::new(number("2")),
        )),
        BinOp::Mul,
        Box::new(number("3")),
    );
    assert_eq!(tree, expected);
}
