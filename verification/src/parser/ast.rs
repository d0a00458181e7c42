//! The expression tree: literals, variable references and binary operations.
//!
//! Ownership is strictly tree-shaped: a binary node owns its two children
//! exclusively, so no subtree is ever shared and no cycle can form.

use vstd::prelude::*;

verus! {

/// A node of the expression tree.
#[derive(Debug, PartialEq)]
pub enum Expr {
    /// A binary operation owning its two operand subtrees.
    Binary(Box<Expr>, BinOp, Box<Expr>),
    /// A literal value.
    Literal(Literal),
    /// A variable reference carrying the variable's name.
    Variable(Vec<char>),
}

/// The four arithmetic operators, one per arithmetic punctuation token.
#[derive(Debug, Clone, Copy, PartialEq, Eq, Structural)]
pub enum BinOp {
    Add,
    Sub,
    Mul,
    Div,
}

/// A literal value: a number (carried as its exact decimal spelling), a
/// string, or a boolean.
#[derive(Debug, Clone, PartialEq)]
pub enum Literal {
    Number(Vec<char>),
    Str(Vec<char>),
    Boolean(bool),
}

/// A structural parse error.  Parsing is all or nothing: the first error
/// aborts the parse and is returned.
#[derive(Debug, Clone, Copy, PartialEq, Eq, Structural)]
pub enum ParseError {
    /// A token that the grammar cannot consume where an operand or a closing
    /// delimiter was required.
    UnexpectedToken,
    /// The token stream ran out while an operand or a closing delimiter was
    /// still required.
    UnexpectedEOF,
}

/// The mathematical model of a [`Literal`].
pub ghost enum LiteralModel {
    Number(Seq<char>),
    Str(Seq<char>),
    Boolean(bool),
}

/// The mathematical model of an [`Expr`].
pub ghost enum ExprModel {
    Binary(Box<ExprModel>, BinOp, Box<ExprModel>),
    Literal(LiteralModel),
    Variable(Seq<char>),
}

impl DeepView for Literal {
    type V = LiteralModel;

    open spec fn deep_view(&self) -> LiteralModel {
        match self {
            Literal::Number(text) => LiteralModel::Number(text@),
            Literal::Str(text) => LiteralModel::Str(text@),
            Literal::Boolean(b) => LiteralModel::Boolean(*b),
        }
    }
}

/// The model of an expression tree, structurally.
pub open spec fn expr_model(e: Expr) -> ExprModel
    decreases e,
{
    match e {
        Expr::Binary(left, op, right) => ExprModel::Binary(
            Box::new(expr_model(*left)),
            op,
            Box::new(expr_model(*right)),
        ),
        Expr::Literal(lit) => ExprModel::Literal(lit.deep_view()),
        Expr::Variable(name) => ExprModel::Variable(name@),
    }
}

impl DeepView for Expr {
    type V = ExprModel;

    open spec fn deep_view(&self) -> ExprModel {
        expr_model(*self)
    }
}

} // verus!
