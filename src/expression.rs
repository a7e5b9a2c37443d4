//! The expression tree.
use vstd::prelude::*;
use crate::token::{Literal as TokenLiteral, Token};

verus! {

/// A node of the expression tree; each node owns its children.
#[derive(Debug, PartialEq)]
pub enum Expression {
    Binary(Binary),
    Grouping(Grouping),
    Literal(Literal),
    Unary(Unary),
    Ternary(Ternary),
}

/// `left operator right`.
#[derive(Debug, PartialEq)]
pub struct Binary {
    pub left: Box<Expression>,
    pub operator: Token,
    pub right: Box<Expression>,
}

/// A parenthesised expression.
#[derive(Debug, PartialEq)]
pub struct Grouping {
    pub expression: Box<Expression>,
}

/// A literal value; `None` is nil.
#[derive(Debug, PartialEq)]
pub struct Literal {
    pub value: Option<TokenLiteral>,
}

/// `operator right`.
#[derive(Debug, PartialEq)]
pub struct Unary {
    pub operator: Token,
    pub right: Box<Expression>,
}

/// `condition ? then_branch : else_branch`.
#[derive(Debug, PartialEq)]
pub struct Ternary {
    pub condition: Box<Expression>,
    pub then_branch: Box<Expression>,
    pub else_branch: Box<Expression>,
}

} // verus!
