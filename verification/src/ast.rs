//! The expression tree, and the protocol by which a visitor is applied to it.

use vstd::prelude::*;
use crate::token::{Literal as TokenLiteral, Token};

verus! {

/// An expression.  Every node owns its children.
pub enum Expr {
    /// Stands in for a node that has not been built yet.  It is never handed
    /// to a visitor.
    Empty,
    Binary(Box<Binary>),
    Grouping(Box<Grouping>),
    Literal(Box<Literal>),
    Unary(Box<Unary>),
}

/// A left operand, an operator and a right operand.
pub struct Binary {
    pub left: Box<Expr>,
    pub operator: Token,
    pub right: Box<Expr>,
}

/// An expression in parentheses.
pub struct Grouping {
    pub expression: Box<Expr>,
}

/// A literal value.
pub struct Literal {
    pub literal: TokenLiteral,
}

/// An operator and its operand.
pub struct Unary {
    pub operator: Token,
    pub right: Box<Expr>,
}

/// An operation on expressions, with one case for each kind of node.
///
/// An implementation says with `admits` on which nodes it may be called, and
/// with `visited` what a call does: both speak of the node as an [`Expr`],
/// whichever case is called.  One that says neither may be called on every
/// node, and promises nothing of the outcome.
pub trait AstVisitor<T> {
    /// Whether the visitor, in this state, may be applied to `node`.
    open spec fn admits(&self, node: Expr) -> bool {
        true
    }

    /// Whether a visit of `node` that starts in this state may end in the
    /// state `after` with the result `result`.
    open spec fn visited(&self, node: Expr, after: &Self, result: T) -> bool {
        true
    }

    fn visit_binary(&mut self, node: &Binary) -> (result: T)
        requires
            old(self).admits(Expr::Binary(Box::new(*node))),
        ensures
            old(self).visited(Expr::Binary(Box::new(*node)), final(self), result),
    ;

    fn visit_grouping(&mut self, node: &Grouping) -> (result: T)
        requires
            old(self).admits(Expr::Grouping(Box::new(*node))),
        ensures
            old(self).visited(Expr::Grouping(Box::new(*node)), final(self), result),
    ;

    fn visit_literal(&mut self, node: &Literal) -> (result: T)
        requires
            old(self).admits(Expr::Literal(Box::new(*node))),
        ensures
            old(self).visited(Expr::Literal(Box::new(*node)), final(self), result),
    ;

    fn visit_unary(&mut self, node: &Unary) -> (result: T)
        requires
            old(self).admits(Expr::Unary(Box::new(*node))),
        ensures
            old(self).visited(Expr::Unary(Box::new(*node)), final(self), result),
    ;
}

/// A node that a visitor can be applied to.
pub trait Accept<T> {
    /// The node as an expression.
    spec fn as_expr(&self) -> Expr;

    /// Applies the visitor's case for this kind of node, and hands back what
    /// it returns.  An `Empty` node has no case: it must not be passed.
    fn accept<V: AstVisitor<T>>(&self, visitor: &mut V) -> (result: T)
        requires
            !(self.as_expr() is Empty),
            old(visitor).admits(self.as_expr()),
        ensures
            old(visitor).visited(self.as_expr(), final(visitor), result),
    ;
}

impl Expr {
    /// Whether this is the placeholder.
    pub fn is_empty(&self) -> (empty: bool)
        ensures
            empty == (self is Empty),
    {
        match self {
            Expr::Empty => true,
            _ => false,
        }
    }
}

impl<T> Accept<T> for Expr {
    open spec fn as_expr(&self) -> Expr {
        *self
    }

    fn accept<V: AstVisitor<T>>(&self, visitor: &mut V) -> (result: T) {
        match self {
            Expr::Empty => vstd::pervasive::unreached(),
            Expr::Binary(binary) => visitor.visit_binary(binary),
            Expr::Grouping(grouping) => visitor.visit_grouping(grouping),
            Expr::Literal(literal) => visitor.visit_literal(literal),
            Expr::Unary(unary) => visitor.visit_unary(unary),
        }
    }
}

impl<T> Accept<T> for Binary {
    open spec fn as_expr(&self) -> Expr {
        Expr::Binary(Box::new(*self))
    }

    fn accept<V: AstVisitor<T>>(&self, visitor: &mut V) -> (result: T) {
        visitor.visit_binary(self)
    }
}

impl<T> Accept<T> for Grouping {
    open spec fn as_expr(&self) -> Expr {
        Expr::Grouping(Box::new(*self))
    }

    fn accept<V: AstVisitor<T>>(&self, visitor: &mut V) -> (result: T) {
        visitor.visit_grouping(self)
    }
}

impl<T> Accept<T> for Literal {
    open spec fn as_expr(&self) -> Expr {
        Expr::Literal(Box::new(*self))
    }

    fn accept<V: AstVisitor<T>>(&self, visitor: &mut V) -> (result: T) {
        visitor.visit_literal(self)
    }
}

impl<T> Accept<T> for Unary {
    open spec fn as_expr(&self) -> Expr {
        Expr::Unary(Box::new(*self))
    }

    fn accept<V: AstVisitor<T>>(&self, visitor: &mut V) -> (result: T) {
        visitor.visit_unary(self)
    }
}

} // verus!
