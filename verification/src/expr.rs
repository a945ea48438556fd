//! The expression tree: a sum type over exactly four node shapes, each node
//! owning its children.

use vstd::prelude::*;

use crate::tokenizer::LitV;
use crate::tokenizer::Literal;
use crate::tokenizer::Token;
use crate::tokenizer::TokenV;

verus! {

/// One expression node. A `Binary` or `Unary` node carries the operator
/// token that caused its construction; a `Grouping` wraps exactly one
/// subexpression; a `Literal` is a leaf.
#[derive(Debug)]
pub enum Expr {
    Binary { left: Box<Expr>, operator: Token, right: Box<Expr> },
    Grouping { expression: Box<Expr> },
    Literal { value: Literal },
    Unary { operator: Token, right: Box<Expr> },
}

/// The mathematical model of an expression tree.
pub enum ExprV {
    Binary { left: Box<ExprV>, operator: TokenV, right: Box<ExprV> },
    Grouping { expression: Box<ExprV> },
    Literal { value: LitV },
    Unary { operator: TokenV, right: Box<ExprV> },
}

impl Expr {
    /// The model of this tree: the same shape over token and literal models.
    pub open spec fn to_v(self) -> ExprV
        decreases self,
    {
        match self {
            Expr::Binary { left, operator, right } => ExprV::Binary {
                left: Box::new((*left).to_v()),
                operator: operator.view(),
                right: Box::new((*right).to_v()),
            },
            Expr::Grouping { expression } => ExprV::Grouping {
                expression: Box::new((*expression).to_v()),
            },
            Expr::Literal { value } => ExprV::Literal { value: value.view() },
            Expr::Unary { operator, right } => ExprV::Unary {
                operator: operator.view(),
                right: Box::new((*right).to_v()),
            },
        }
    }
}

impl View for Expr {
    type V = ExprV;

    open spec fn view(&self) -> ExprV {
        self.to_v()
    }
}

impl Expr {
    pub fn new_binary(left: Box<Expr>, operator: Token, right: Box<Expr>) -> (r: Self)
        ensures
            r@ == (ExprV::Binary {
                left: Box::new(left@),
                operator: operator@,
                right: Box::new(right@),
            }),
    {
        Self::Binary { left, operator, right }
    }

    pub fn new_grouping(expression: Box<Expr>) -> (r: Self)
        ensures
            r@ == (ExprV::Grouping { expression: Box::new(expression@) }),
    {
        Self::Grouping { expression }
    }

    pub fn new_literal(value: Literal) -> (r: Self)
        ensures
            r@ == (ExprV::Literal { value: value@ }),
    {
        Self::Literal { value }
    }

    pub fn new_unary(operator: Token, right: Box<Expr>) -> (r: Self)
        ensures
            r@ == (ExprV::Unary { operator: operator@, right: Box::new(right@) }),
    {
        Self::Unary { operator, right }
    }
}

} // verus!
