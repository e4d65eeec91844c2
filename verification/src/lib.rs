//! A lowering engine for a minimal expression-oriented language.
//!
//! A validated abstract syntax tree is lowered into a small instruction set
//! over typed storage slots, with lightweight type inference over arithmetic
//! subtrees; the result is executed by a verified machine whose integer
//! semantics (two's-complement wraparound, signed truncating division with
//! reported division errors) are stated and proved.

pub mod ast;
pub mod diag;
pub mod ty;
pub mod inst;
pub mod machine;
pub mod lower;
pub mod laws;
