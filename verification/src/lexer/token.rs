//! The closed set of lexical categories the scanner produces and the parser
//! consumes.
//!
//! Identifier, string and number tokens carry their text as characters; a
//! number token in particular carries the exact decimal spelling of the
//! literal (for example `7.5` is carried as the characters `7`, `.`, `5`),
//! which the host converts to its native numeric type after evaluation.

use vstd::prelude::*;

verus! {

/// An atomic lexical unit of the source text.
#[derive(Debug, Clone, PartialEq)]
pub enum Token {
    // Single-character tokens.
    LeftParen,
    RightParen,
    LeftBrace,
    RightBrace,
    Comma,
    Dot,
    Minus,
    Plus,
    Semicolon,
    Slash,
    Star,
    // Literals.
    Identifier(Vec<char>),
    StringLiteral(Vec<char>),
    Number(Vec<char>),
    // Keywords.
    And,
    Class,
    Else,
    False,
    Fun,
    For,
    If,
    Nil,
    Or,
    Print,
    Return,
    Super,
    This,
    True,
    Var,
    While,
    // End of the token stream.
    EOF,
    // An error-carrying token; the scanner itself never produces one, but the
    // token set reserves room for a diagnostic message.
    Error(Vec<char>),
}

/// The mathematical model of a [`Token`]: the same tags, with character
/// sequences in place of character vectors.
pub ghost enum TokenModel {
    LeftParen,
    RightParen,
    LeftBrace,
    RightBrace,
    Comma,
    Dot,
    Minus,
    Plus,
    Semicolon,
    Slash,
    Star,
    Identifier(Seq<char>),
    StringLiteral(Seq<char>),
    Number(Seq<char>),
    And,
    Class,
    Else,
    False,
    Fun,
    For,
    If,
    Nil,
    Or,
    Print,
    Return,
    Super,
    This,
    True,
    Var,
    While,
    EOF,
    Error(Seq<char>),
}

impl DeepView for Token {
    type V = TokenModel;

    open spec fn deep_view(&self) -> TokenModel {
        match self {
            Token::LeftParen => TokenModel::LeftParen,
            Token::RightParen => TokenModel::RightParen,
            Token::LeftBrace => TokenModel::LeftBrace,
            Token::RightBrace => TokenModel::RightBrace,
            Token::Comma => TokenModel::Comma,
            Token::Dot => TokenModel::Dot,
            Token::Minus => TokenModel::Minus,
            Token::Plus => TokenModel::Plus,
            Token::Semicolon => TokenModel::Semicolon,
            Token::Slash => TokenModel::Slash,
            Token::Star => TokenModel::Star,
            Token::Identifier(text) => TokenModel::Identifier(text@),
            Token::StringLiteral(text) => TokenModel::StringLiteral(text@),
            Token::Number(text) => TokenModel::Number(text@),
            Token::And => TokenModel::And,
            Token::Class => TokenModel::Class,
            Token::Else => TokenModel::Else,
            Token::False => TokenModel::False,
            Token::Fun => TokenModel::Fun,
            Token::For => TokenModel::For,
            Token::If => TokenModel::If,
            Token::Nil => TokenModel::Nil,
            Token::Or => TokenModel::Or,
            Token::Print => TokenModel::Print,
            Token::Return => TokenModel::Return,
            Token::Super => TokenModel::Super,
            Token::This => TokenModel::This,
            Token::True => TokenModel::True,
            Token::Var => TokenModel::Var,
            Token::While => TokenModel::While,
            Token::EOF => TokenModel::EOF,
            Token::Error(message) => TokenModel::Error(message@),
        }
    }
}

/// A fresh vector spelling the same text.
#[verifier::loop_isolation(false)]
pub(crate) fn clone_chars(v: &Vec<char>) -> (r: Vec<char>)
    ensures
        r@ == v@,
{
    let mut r: Vec<char> = Vec::new();
    let mut k: usize = 0;
    while k < v.len()
        invariant
            k <= v@.len(),
            r@ == v@.subrange(0, k as int),
        decreases v@.len() - k,
    {
        r.push(v[k]);
        k += 1;
        proof {
            assert(r@ =~= v@.subrange(0, k as int));
        }
    }
    proof {
        assert(v@.subrange(0, v@.len() as int) =~= v@);
    }
    r
}

/// Whether two character vectors spell the same text.
#[verifier::loop_isolation(false)]
pub(crate) fn chars_eq(a: &Vec<char>, b: &Vec<char>) -> (r: bool)
    ensures
        r == (a@ == b@),
{
    if a.len() != b.len() {
        return false;
    }
    let mut k: usize = 0;
    while k < a.len()
        invariant
            k <= a@.len(),
            a@.len() == b@.len(),
            forall|j: int| 0 <= j < k ==> a@[j] == b@[j],
        decreases a@.len() - k,
    {
        if a[k] != b[k] {
            return false;
        }
        k += 1;
    }
    proof {
        assert(a@ =~= b@);
    }
    true
}

} // verus!
