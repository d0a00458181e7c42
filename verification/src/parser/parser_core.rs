//! The recursive-descent parser: four precedence levels, tightest binding
//! last, each level folding left to right so that repeated operators of the
//! same precedence associate left.
//!
//! The grammar, as spec functions over the token sequence:
//!
//! - `expression` is `term`;
//! - `term` is `factor` followed by any number of `+`/`-` `factor` steps;
//! - `factor` is `unary` followed by any number of `*`/`/` `unary` steps;
//! - `unary` is `-` `unary` — desugared to `0 - operand` rather than a
//!   distinct tree shape — or `primary`;
//! - `primary` is a number, string, `true`, `false`, an identifier, or a
//!   parenthesized `expression`.
//!
//! Each spec function returns the parse result together with the position at
//! which parsing continues.  [`Parser::parse`] is proved to return exactly
//! the result of [`sp_expression`].

use vstd::prelude::*;

use crate::lexer::token::{clone_chars, Token, TokenModel};
use crate::parser::ast::{BinOp, Expr, ExprModel, Literal, LiteralModel, ParseError};

verus! {

/// The number of tokens that remain at position `i`; zero once `i` has
/// passed the end.  The termination measure of the grammar.
pub open spec fn tokens_left(t: Seq<TokenModel>, i: int) -> int {
    if i <= t.len() {
        t.len() - i
    } else {
        0
    }
}

/// `j` forced into the range `[lo, t.len()]`.  Every parsing function stays
/// in that range anyway — the implementation proves as much — but keeping
/// the positions bounded by construction makes termination of the mutually
/// recursive grammar immediate.
pub open spec fn bound_pos(t: Seq<TokenModel>, lo: int, j: int) -> int {
    if j < lo {
        lo
    } else if j > t.len() {
        t.len() as int
    } else {
        j
    }
}

/// The `expression` production.
pub open spec fn sp_expression(t: Seq<TokenModel>, i: int) -> (Result<ExprModel, ParseError>, int)
    decreases tokens_left(t, i), 6int,
{
    sp_term(t, i)
}

/// The `term` production: left-associative addition and subtraction.
pub open spec fn sp_term(t: Seq<TokenModel>, i: int) -> (Result<ExprModel, ParseError>, int)
    decreases tokens_left(t, i), 5int,
{
    let first = sp_factor(t, i);
    match first.0 {
        Err(e) => (Err(e), first.1),
        Ok(expr) => sp_term_rest(t, expr, bound_pos(t, i, first.1)),
    }
}

/// The fold of `term`: as long as a `+` or `-` follows, parse one more
/// `factor` and attach it to the left-folded accumulator.
pub open spec fn sp_term_rest(t: Seq<TokenModel>, acc: ExprModel, i: int) -> (
    Result<ExprModel, ParseError>,
    int,
)
    decreases tokens_left(t, i), 4int,
{
    if 0 <= i < t.len() && (t[i] == TokenModel::Plus || t[i] == TokenModel::Minus) {
        let op = if t[i] == TokenModel::Plus {
            BinOp::Add
        } else {
            BinOp::Sub
        };
        let right = sp_factor(t, i + 1);
        match right.0 {
            Err(e) => (Err(e), right.1),
            Ok(expr) => sp_term_rest(
                t,
                ExprModel::Binary(Box::new(acc), op, Box::new(expr)),
                bound_pos(t, i + 1, right.1),
            ),
        }
    } else {
        (Ok(acc), i)
    }
}

/// The `factor` production: left-associative multiplication and division.
pub open spec fn sp_factor(t: Seq<TokenModel>, i: int) -> (Result<ExprModel, ParseError>, int)
    decreases tokens_left(t, i), 3int,
{
    let first = sp_unary(t, i);
    match first.0 {
        Err(e) => (Err(e), first.1),
        Ok(expr) => sp_factor_rest(t, expr, bound_pos(t, i, first.1)),
    }
}

/// The fold of `factor`: as long as a `*` or `/` follows, parse one more
/// `unary` and attach it to the left-folded accumulator.
pub open spec fn sp_factor_rest(t: Seq<TokenModel>, acc: ExprModel, i: int) -> (
    Result<ExprModel, ParseError>,
    int,
)
    decreases tokens_left(t, i), 2int,
{
    if 0 <= i < t.len() && (t[i] == TokenModel::Star || t[i] == TokenModel::Slash) {
        let op = if t[i] == TokenModel::Star {
            BinOp::Mul
        } else {
            BinOp::Div
        };
        let right = sp_unary(t, i + 1);
        match right.0 {
            Err(e) => (Err(e), right.1),
            Ok(expr) => sp_factor_rest(
                t,
                ExprModel::Binary(Box::new(acc), op, Box::new(expr)),
                bound_pos(t, i + 1, right.1),
            ),
        }
    } else {
        (Ok(acc), i)
    }
}

/// The `unary` production: right-associative prefix negation, desugared to
/// a subtraction from the literal zero.
pub open spec fn sp_unary(t: Seq<TokenModel>, i: int) -> (Result<ExprModel, ParseError>, int)
    decreases tokens_left(t, i), 1int,
{
    if 0 <= i < t.len() && t[i] == TokenModel::Minus {
        let operand = sp_unary(t, i + 1);
        match operand.0 {
            Err(e) => (Err(e), operand.1),
            Ok(expr) => (
                Ok(
                    ExprModel::Binary(
                        Box::new(ExprModel::Literal(LiteralModel::Number(seq!['0']))),
                        BinOp::Sub,
                        Box::new(expr),
                    ),
                ),
                operand.1,
            ),
        }
    } else {
        sp_primary(t, i)
    }
}

/// The `primary` production: a literal, a variable, or a parenthesized
/// expression.  Running out of tokens where an operand or the closing
/// parenthesis was required is `UnexpectedEOF`; any token the production
/// cannot consume is `UnexpectedToken`.
pub open spec fn sp_primary(t: Seq<TokenModel>, i: int) -> (Result<ExprModel, ParseError>, int)
    decreases tokens_left(t, i), 0int,
{
    if i < 0 || i >= t.len() {
        (Err(ParseError::UnexpectedEOF), i)
    } else {
        match t[i] {
            TokenModel::Number(text) => (Ok(ExprModel::Literal(LiteralModel::Number(text))), i + 1),
            TokenModel::StringLiteral(text) => (
                Ok(ExprModel::Literal(LiteralModel::Str(text))),
                i + 1,
            ),
            TokenModel::True => (Ok(ExprModel::Literal(LiteralModel::Boolean(true))), i + 1),
            TokenModel::False => (Ok(ExprModel::Literal(LiteralModel::Boolean(false))), i + 1),
            TokenModel::Identifier(name) => (Ok(ExprModel::Variable(name)), i + 1),
            TokenModel::LeftParen => {
                let inner = sp_expression(t, i + 1);
                match inner.0 {
                    Err(e) => (Err(e), inner.1),
                    Ok(expr) => {
                        let close = bound_pos(t, i + 1, inner.1);
                        if close < t.len() && t[close] == TokenModel::RightParen {
                            (Ok(expr), close + 1)
                        } else if close >= t.len() || t[close] == TokenModel::EOF {
                            (Err(ParseError::UnexpectedEOF), close)
                        } else {
                            (Err(ParseError::UnexpectedToken), close)
                        }
                    },
                }
            },
            TokenModel::EOF => (Err(ParseError::UnexpectedEOF), i),
            _ => (Err(ParseError::UnexpectedToken), i),
        }
    }
}

/// Whether an executable parse result carries exactly the model's result.
pub open spec fn result_matches(
    r: Result<Expr, ParseError>,
    m: Result<ExprModel, ParseError>,
) -> bool {
    match (r, m) {
        (Ok(e), Ok(model)) => e.deep_view() == model,
        (Err(a), Err(b)) => a == b,
        _ => false,
    }
}

/// The parser.  It owns the token sequence and an internal cursor; it never
/// mutates the tokens.
pub struct Parser {
    tokens: Vec<Token>,
    current: usize,
}

impl Parser {
    /// The token sequence being parsed.
    pub closed spec fn tokens_model(&self) -> Seq<TokenModel> {
        self.tokens.deep_view()
    }

    /// The position of the next token to consume.
    pub closed spec fn cursor(&self) -> int {
        self.current as int
    }

    /// The cursor never leaves the token sequence.
    pub open spec fn wf(&self) -> bool {
        0 <= self.cursor() <= self.tokens_model().len()
    }

    /// Create a parser over the given tokens, with the cursor at the start.
    pub fn new(tokens: Vec<Token>) -> (parser: Parser)
        ensures
            parser.tokens_model() == tokens.deep_view(),
            parser.cursor() == 0,
            parser.wf(),
    {
        let parser = Parser { tokens, current: 0 };
        proof {
            assert(parser.tokens.deep_view() =~= parser.tokens_model());
        }
        parser
    }

    /// Parse one expression from the cursor on: exactly the result of
    /// [`sp_expression`].  The first structural error aborts the parse and
    /// is returned; there is no partial tree.
    pub fn parse(&mut self) -> (r: Result<Expr, ParseError>)
        requires
            old(self).wf(),
        ensures
            final(self).wf(),
            final(self).tokens_model() == old(self).tokens_model(),
            result_matches(r, sp_expression(old(self).tokens_model(), old(self).cursor()).0),
            final(self).cursor() == sp_expression(old(self).tokens_model(), old(self).cursor()).1,
    {
        let (r, pos) = self.expression_at(self.current);
        self.current = pos;
        r
    }

    /// The `expression` production at position `i`.
    fn expression_at(&self, i: usize) -> (r: (Result<Expr, ParseError>, usize))
        requires
            self.wf(),
            i <= self.tokens_model().len(),
        ensures
            i <= r.1 <= self.tokens_model().len(),
            result_matches(r.0, sp_expression(self.tokens_model(), i as int).0),
            r.1 as int == sp_expression(self.tokens_model(), i as int).1,
        decreases self.tokens_model().len() - i, 6int,
    {
        self.term_at(i)
    }

    /// The `term` production at position `i`.
    #[verifier::loop_isolation(false)]
    fn term_at(&self, i: usize) -> (r: (Result<Expr, ParseError>, usize))
        requires
            self.wf(),
            i <= self.tokens_model().len(),
        ensures
            i <= r.1 <= self.tokens_model().len(),
            result_matches(r.0, sp_term(self.tokens_model(), i as int).0),
            r.1 as int == sp_term(self.tokens_model(), i as int).1,
        decreases self.tokens_model().len() - i, 5int,
    {
        let ghost t = self.tokens_model();
        let (first, mut pos) = self.factor_at(i);
        let mut acc = match first {
            Ok(expr) => expr,
            Err(e) => {
                return (Err(e), pos);
            },
        };
        loop
            invariant
                i <= pos <= t.len(),
                sp_term(t, i as int) == sp_term_rest(t, acc.deep_view(), pos as int),
            decreases t.len() - pos,
        {
            if pos >= self.tokens.len() {
                return (Ok(acc), pos);
            }
            let op = match &self.tokens[pos] {
                Token::Plus => Some(BinOp::Add),
                Token::Minus => Some(BinOp::Sub),
                _ => None,
            };
            match op {
                None => {
                    return (Ok(acc), pos);
                },
                Some(op) => {
                    let (right, j) = self.factor_at(pos + 1);
                    match right {
                        Err(e) => {
                            return (Err(e), j);
                        },
                        Ok(expr) => {
                            acc = Expr::Binary(Box::new(acc), op, Box::new(expr));
                            pos = j;
                        },
                    }
                },
            }
        }
    }

    /// The `factor` production at position `i`.
    #[verifier::loop_isolation(false)]
    fn factor_at(&self, i: usize) -> (r: (Result<Expr, ParseError>, usize))
        requires
            self.wf(),
            i <= self.tokens_model().len(),
        ensures
            i <= r.1 <= self.tokens_model().len(),
            result_matches(r.0, sp_factor(self.tokens_model(), i as int).0),
            r.1 as int == sp_factor(self.tokens_model(), i as int).1,
        decreases self.tokens_model().len() - i, 3int,
    {
        let ghost t = self.tokens_model();
        let (first, mut pos) = self.unary_at(i);
        let mut acc = match first {
            Ok(expr) => expr,
            Err(e) => {
                return (Err(e), pos);
            },
        };
        loop
            invariant
                i <= pos <= t.len(),
                sp_factor(t, i as int) == sp_factor_rest(t, acc.deep_view(), pos as int),
            decreases t.len() - pos,
        {
            if pos >= self.tokens.len() {
                return (Ok(acc), pos);
            }
            let op = match &self.tokens[pos] {
                Token::Star => Some(BinOp::Mul),
                Token::Slash => Some(BinOp::Div),
                _ => None,
            };
            match op {
                None => {
                    return (Ok(acc), pos);
                },
                Some(op) => {
                    let (right, j) = self.unary_at(pos + 1);
                    match right {
                        Err(e) => {
                            return (Err(e), j);
                        },
                        Ok(expr) => {
                            acc = Expr::Binary(Box::new(acc), op, Box::new(expr));
                            pos = j;
                        },
                    }
                },
            }
        }
    }

    /// The `unary` production at position `i`.
    fn unary_at(&self, i: usize) -> (r: (Result<Expr, ParseError>, usize))
        requires
            self.wf(),
            i <= self.tokens_model().len(),
        ensures
            i <= r.1 <= self.tokens_model().len(),
            result_matches(r.0, sp_unary(self.tokens_model(), i as int).0),
            r.1 as int == sp_unary(self.tokens_model(), i as int).1,
        decreases self.tokens_model().len() - i, 1int,
    {
        let is_minus = i < self.tokens.len() && match &self.tokens[i] {
            Token::Minus => true,
            _ => false,
        };
        if is_minus {
            let (operand, j) = self.unary_at(i + 1);
            match operand {
                Err(e) => (Err(e), j),
                Ok(expr) => {
                    let mut zero: Vec<char> = Vec::new();
                    zero.push('0');
                    proof {
                        assert(zero@ =~= seq!['0']);
                    }
                    let desugared = Expr::Binary(
                        Box::new(Expr::Literal(Literal::Number(zero))),
                        BinOp::Sub,
                        Box::new(expr),
                    );
                    proof {
                        let inner = Expr::Literal(Literal::Number(zero));
                        assert(inner.deep_view() == ExprModel::Literal(
                            LiteralModel::Number(seq!['0']),
                        ));
                        assert(desugared.deep_view() == ExprModel::Binary(
                            Box::new(inner.deep_view()),
                            BinOp::Sub,
                            Box::new(expr.deep_view()),
                        ));
                    }
                    (Ok(desugared), j)
                },
            }
        } else {
            self.primary_at(i)
        }
    }

    /// The `primary` production at position `i`.
    fn primary_at(&self, i: usize) -> (r: (Result<Expr, ParseError>, usize))
        requires
            self.wf(),
            i <= self.tokens_model().len(),
        ensures
            i <= r.1 <= self.tokens_model().len(),
            result_matches(r.0, sp_primary(self.tokens_model(), i as int).0),
            r.1 as int == sp_primary(self.tokens_model(), i as int).1,
        decreases self.tokens_model().len() - i, 0int,
    {
        if i >= self.tokens.len() {
            return (Err(ParseError::UnexpectedEOF), i);
        }
        match &self.tokens[i] {
            Token::Number(text) => (
                Ok(Expr::Literal(Literal::Number(clone_chars(text)))),
                i + 1,
            ),
            Token::StringLiteral(text) => (
                Ok(Expr::Literal(Literal::Str(clone_chars(text)))),
                i + 1,
            ),
            Token::True => (Ok(Expr::Literal(Literal::Boolean(true))), i + 1),
            Token::False => (Ok(Expr::Literal(Literal::Boolean(false))), i + 1),
            Token::Identifier(name) => (Ok(Expr::Variable(clone_chars(name))), i + 1),
            Token::LeftParen => {
                let (inner, j) = self.expression_at(i + 1);
                match inner {
                    Err(e) => (Err(e), j),
                    Ok(expr) => {
                        if j < self.tokens.len() {
                            match &self.tokens[j] {
                                Token::RightParen => (Ok(expr), j + 1),
                                Token::EOF => (Err(ParseError::UnexpectedEOF), j),
                                _ => (Err(ParseError::UnexpectedToken), j),
                            }
                        } else {
                            (Err(ParseError::UnexpectedEOF), j)
                        }
                    },
                }
            },
            Token::EOF => (Err(ParseError::UnexpectedEOF), i),
            _ => (Err(ParseError::UnexpectedToken), i),
        }
    }
}

} // verus!
