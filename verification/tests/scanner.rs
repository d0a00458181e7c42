//! Scanner tests: token shapes, diagnostics, and resilience.

use exprlang::lexer::lexer_core::{Diagnostic, Lexer};
use exprlang::lexer::token::Token;

fn chars(s: &str) -> Vec<char> {
    s.chars().collect()
}

fn scan(source: &str) -> (Vec<Token>, Vec<Diagnostic>) {
    let mut lexer = Lexer::new(chars(source));
    let tokens = lexer.scan_tokens();
    let diagnostics = lexer.errors().clone();
    (tokens, diagnostics)
}

#[test]
fn simple_expression_scans_to_exact_tokens() {
    let (tokens, diagnostics) = scan("(3 + 42) * 7.5");
    assert_eq!(
        tokens,
        vec![
            Token::LeftParen,
            Token::Number(chars("3")),
            Token::Plus,
            Token::Number(chars("42")),
            Token::RightParen,
            Token::Star,
            Token::Number(chars("7.5")),
            Token::EOF,
        ]
    );
    assert!(diagnostics.is_empty());
}

#[test]
fn unterminated_string_reports_and_still_ends_in_eof() {
    let (tokens, diagnostics) = scan("\"unterminated");
    assert_eq!(diagnostics, vec![Diagnostic::UnterminatedString]);
    assert_eq!(
        tokens,
        vec![Token::StringLiteral(chars("unterminated")), Token::EOF]
    );
    assert_eq!(tokens.last(), Some(&Token::EOF));
}

#[test]
fn terminated_string_scans_cleanly() {
    let (tokens, diagnostics) = scan("\"hello\"");
    assert_eq!(tokens, vec![Token::StringLiteral(chars("hello")), Token::EOF]);
    assert!(diagnostics.is_empty());
}

#[test]
fn lone_decimal_point_falls_back_to_zero() {
    let (tokens, diagnostics) = scan("3.");
    assert_eq!(diagnostics, vec![Diagnostic::InvalidNumber]);
    assert_eq!(
        tokens,
        vec![Token::Number(chars("0")), Token::Dot, Token::EOF]
    );
}

#[test]
fn scanning_twice_yields_identical_results() {
    let source = "(3 + 42) * 7.5 // answer\nfoo \"bar\"";
    let (first_tokens, first_diagnostics) = scan(source);
    let (second_tokens, second_diagnostics) = scan(source);
    assert_eq!(first_tokens, second_tokens);
    assert_eq!(first_diagnostics, second_diagnostics);
}

#[test]
fn comments_and_whitespace_emit_no_tokens() {
    let (tokens, diagnostics) = scan("1 // the rest is ignored\n+\t2\r\n");
    assert_eq!(
        tokens,
        vec![
            Token::Number(chars("1")),
            Token::Plus,
            Token::Number(chars("2")),
            Token::EOF,
        ]
    );
    assert!(diagnostics.is_empty());
}

#[test]
fn slash_without_second_slash_is_division() {
    let (tokens, diagnostics) = scan("8 / 2");
    assert_eq!(
        tokens,
        vec![
            Token::Number(chars("8")),
            Token::Slash,
            Token::Number(chars("2")),
            Token::EOF,
        ]
    );
    assert!(diagnostics.is_empty());
}

#[test]
fn keywords_match_exactly_and_identifiers_carry_text() {
    let (tokens, diagnostics) = scan("true false var while foo_bar True");
    assert_eq!(
        tokens,
        vec![
            Token::True,
            Token::False,
            Token::Var,
            Token::While,
            Token::Identifier(chars("foo_bar")),
            Token::Identifier(chars("True")),
            Token::EOF,
        ]
    );
    assert!(diagnostics.is_empty());
}

#[test]
fn unexpected_character_is_reported_and_skipped() {
    let (tokens, diagnostics) = scan("1 @ 2");
    assert_eq!(diagnostics, vec![Diagnostic::UnexpectedCharacter('@')]);
    assert_eq!(
        tokens,
        vec![Token::Number(chars("1")), Token::Number(chars("2")), Token::EOF]
    );
}

#[test]
fn punctuation_tokens_scan_one_to_one() {
    let (tokens, diagnostics) = scan("(){},.-+;*");
    assert_eq!(
        tokens,
        vec![
            Token::LeftParen,
            Token::RightParen,
            Token::LeftBrace,
            Token::RightBrace,
            Token::Comma,
            Token::Dot,
            Token::Minus,
            Token::Plus,
            Token::Semicolon,
            Token::Star,
            Token::EOF,
        ]
    );
    assert!(diagnostics.is_empty());
}

#[test]
fn fractional_literal_keeps_its_spelling() {
    let (tokens, diagnostics) = scan("3.5.6");
    assert_eq!(
        tokens,
        vec![
            Token::Number(chars("3.5")),
            Token::Dot,
            Token::Number(chars("6")),
            Token::EOF,
        ]
    );
    assert!(diagnostics.is_empty());
}

#[test]
fn empty_source_scans_to_eof_alone() {
    let (tokens, diagnostics) = scan("");
    assert_eq!(tokens, vec![Token::EOF]);
    assert!(diagnostics.is_empty());
}
