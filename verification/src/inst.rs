//! The instruction set that lowering emits.
//!
//! Instructions live in single-entry function bodies and form a value
//! numbering: executing the instruction at position `j` of the body produces
//! temporary `j`, and operands name earlier temporaries by position. Storage
//! slots are allocated by `Alloca` and addressed through pointer temporaries.

use vstd::prelude::*;
use crate::ast::BinaryOp;
use crate::ty::VarType;

verus! {

/// A value a temporary or a storage slot holds while the machine runs.
///
/// `FloatV` carries the IEEE-754 bit pattern; the machine moves such bits but
/// never computes with them itself. `PtrV` is the index of a storage slot.
/// `Unit` is the value of instructions that produce none, and of a slot not
/// yet stored to.
#[derive(Clone, Copy, Debug, PartialEq, Eq, Structural)]
pub enum Value {
    IntV(i64),
    FloatV(u64),
    BoolV(bool),
    PtrV(usize),
    Unit,
}

/// One instruction. Operands are positions of earlier temporaries.
///
/// `ConstIntMag` materializes an integer constant from its unsigned
/// magnitude, reinterpreted as a two's-complement word; a negative literal is
/// materialized as its magnitude followed by `NegInt`. `Param` reads an
/// argument of the enclosing function. `RetVal`/`RetVoid` end execution.
#[derive(Clone, Copy, Debug, PartialEq, Eq, Structural)]
pub enum Inst {
    ConstIntMag(u64),
    NegInt(usize),
    ConstFloat(u64),
    ConstBool(bool),
    Param(usize),
    Alloca(VarType),
    Load(VarType, usize),
    Store(usize, usize),
    IntBin(BinaryOp, usize, usize),
    FloatBin(BinaryOp, usize, usize),
    RetVal(usize),
    RetVoid,
}

/// Does a value belong to a scalar type, as a typed load demands?
pub open spec fn value_has_ty(v: Value, t: VarType) -> bool {
    match t {
        VarType::Int => v is IntV,
        VarType::Float => v is FloatV,
        VarType::Bool => v is BoolV,
    }
}

} // verus!
