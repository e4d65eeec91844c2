//! The validated abstract syntax tree handed to the lowering engine.
//!
//! Floating literals are carried as their IEEE-754 bit pattern, so that the
//! tree is made of plain values only; nothing in the lowering engine computes
//! with them, it only moves them into instructions.

use vstd::prelude::*;

verus! {

/// Arithmetic operator of a binary expression.
#[derive(Clone, Copy, Debug, PartialEq, Eq, Structural)]
pub enum BinaryOp {
    Add,
    Sub,
    Mul,
    Div,
}

/// Half-open byte range into the source text, kept for diagnostics.
#[derive(Clone, Copy, Debug, PartialEq, Eq, Structural)]
pub struct Span {
    pub start: usize,
    pub end: usize,
}

/// One statement or expression of the language.
///
/// `Let` carries the variable name, its type annotation and an optional
/// initializer. `Function` carries the name, the ordered `(name, annotation)`
/// parameter list, an optional return-type annotation and the body.
/// `Float` holds the IEEE-754 bit pattern of the literal.
#[derive(Debug)]
pub enum ExprKind {
    Let(String, String, Option<Box<Expr>>),
    Function(String, Vec<(String, String)>, Option<String>, Vec<Expr>),
    Return(Option<Box<Expr>>),
    Binary(Box<Expr>, BinaryOp, Box<Expr>),
    Int(i64),
    Float(u64),
    Bool(bool),
    Ident(String),
}

/// A node of the tree: its payload and its source span.
#[derive(Debug)]
pub struct Expr {
    pub inner: ExprKind,
    pub span: Span,
}

} // verus!
