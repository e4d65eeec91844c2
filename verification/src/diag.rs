//! The error taxonomy of the lowering engine.
//!
//! Every failure of lowering is a typed result carrying the span of the
//! offending expression: an unknown type annotation is a configuration error,
//! a construct the engine does not support (boolean arithmetic, variable
//! operands, negative or binary initializers, nesting functions beyond one
//! level) is an unsupported-feature error, and a tree shape the engine does
//! not expect is a structural error. Errors met while the compiled program
//! runs (division by zero, the signed-division overflow trap) are reported
//! separately by the machine as [`RtError`].

use vstd::prelude::*;
use crate::ast::Span;

verus! {

/// The class of a lowering failure.
#[derive(Clone, Copy, Debug, PartialEq, Eq, Structural)]
pub enum CgErrorKind {
    /// An unknown or unsupported type annotation.
    Configuration,
    /// A construct the engine deliberately does not support.
    UnsupportedFeature,
    /// A tree shape the engine does not expect.
    Shape,
}

/// A lowering failure: its class and the span of the offending expression.
#[derive(Clone, Copy, Debug, PartialEq, Eq, Structural)]
pub struct CgError {
    pub kind: CgErrorKind,
    pub span: Span,
}

/// An error met while the compiled program runs.
#[derive(Clone, Copy, Debug, PartialEq, Eq, Structural)]
pub enum RtError {
    /// Integer division by zero.
    DivByZero,
    /// The signed-division overflow trap (dividing the minimum value by -1).
    Overflow,
}

} // verus!
