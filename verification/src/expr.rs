//! The expression tree a parser would build over the token stream, modeled
//! as a closed variant set, together with the visitor interface the
//! pretty-printer dispatches through.
//!
//! The grammar:
//!
//! ```text
//! expression -> literal | unary | binary | grouping ;
//! literal    -> NUMBER | STRING | "true" | "false" | "nil" ;
//! grouping   -> "(" expression ")" ;
//! unary      -> ( "-" | "!" ) expression ;
//! binary     -> expression operator expression ;
//! operator   -> "==" | "!=" | "<" | "<=" | ">" | ">="
//!             | "+"  | "-"  | "*" | "/" ;
//! ```

use vstd::prelude::*;

use crate::tokens::TokenType;

verus! {

/// A node of the expression tree.
#[derive(Debug)]
pub enum Expr {
    Binary(BinaryExpr),
    Grouping(GroupingExpr),
    Literal(LiteralExpr),
    Unary(UnaryExpr),
}

/// Two operands joined by a binary operator token kind.
#[derive(Debug)]
pub struct BinaryExpr {
    pub left: Box<Expr>,
    pub operator: TokenType,
    pub right: Box<Expr>,
}

/// A parenthesized sub-expression.
#[derive(Debug)]
pub struct GroupingExpr {
    pub expression: Box<Expr>,
}

/// A literal leaf, carrying its textual value.
#[derive(Debug)]
pub struct LiteralExpr {
    pub value: String,
}

/// A prefix operator applied to one operand.
#[derive(Debug)]
pub struct UnaryExpr {
    pub operator: TokenType,
    pub right: Box<Expr>,
}

/// Traversal interface over the closed variant set: one method per node
/// shape, selected by [`Expr::accept`].
pub trait ExprVisitor<T> {
    fn visit_binary(&mut self, expr: &BinaryExpr) -> T;

    fn visit_grouping(&mut self, expr: &GroupingExpr) -> T;

    fn visit_literal(&mut self, expr: &LiteralExpr) -> T;

    fn visit_unary(&mut self, expr: &UnaryExpr) -> T;
}

impl Expr {
    /// Hands this node to the visitor method matching its variant.
    pub fn accept<T, V: ExprVisitor<T>>(&self, visitor: &mut V) -> T {
        match self {
            Expr::Binary(binary) => visitor.visit_binary(binary),
            Expr::Grouping(grouping) => visitor.visit_grouping(grouping),
            Expr::Literal(literal) => visitor.visit_literal(literal),
            Expr::Unary(unary) => visitor.visit_unary(unary),
        }
    }
}

} // verus!
