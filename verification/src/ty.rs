//! Scalar types, the type-annotation resolver and type inference.
//!
//! A type annotation is a case-insensitive string; anything but `int`,
//! `float` and `bool` is a configuration failure. Type inference looks at a
//! binary subtree and decides whether its instructions are the integer or the
//! floating family: an `Int` literal among the immediate children wins, then
//! a `Float` literal, then the left and after it the right nested binary is
//! asked; a subtree with no literal anchor (bare variables, booleans) cannot
//! be inferred and is reported.

use vstd::prelude::*;
use vstd::string::StringSliceAdditionalSpecFns;
use crate::ast::{Expr, ExprKind};
use crate::diag::{CgError, CgErrorKind};

verus! {

/// The scalar type of a storage slot or a function value.
#[derive(Clone, Copy, Debug, PartialEq, Eq, Structural)]
pub enum VarType {
    Int,
    Float,
    Bool,
}

/// ASCII lower-casing of one byte.
pub open spec fn fold_lower(c: u8) -> u8 {
    if 65 <= c && c <= 90 {
        (c + 32) as u8
    } else {
        c
    }
}

/// Byte sequences equal up to ASCII case.
pub open spec fn eq_ci(a: Seq<u8>, b: Seq<u8>) -> bool {
    a.len() == b.len() && forall|i: int| 0 <= i < a.len() ==> fold_lower(a[i]) == fold_lower(b[i])
}

/// The bytes of `int`.
pub open spec fn int_bytes() -> Seq<u8> {
    seq![105u8, 110u8, 116u8]
}

/// The bytes of `float`.
pub open spec fn float_bytes() -> Seq<u8> {
    seq![102u8, 108u8, 111u8, 97u8, 116u8]
}

/// The bytes of `bool`.
pub open spec fn bool_bytes() -> Seq<u8> {
    seq![98u8, 111u8, 111u8, 108u8]
}

/// What a type annotation resolves to: the scalar type whose name it equals
/// up to ASCII case, if any.
pub open spec fn resolve_ty(s: Seq<u8>) -> Option<VarType> {
    if eq_ci(s, int_bytes()) {
        Some(VarType::Int)
    } else if eq_ci(s, float_bytes()) {
        Some(VarType::Float)
    } else if eq_ci(s, bool_bytes()) {
        Some(VarType::Bool)
    } else {
        None
    }
}

fn fold_byte(c: u8) -> (r: u8)
    ensures
        r == fold_lower(c),
{
    if 65 <= c && c <= 90 {
        c + 32
    } else {
        c
    }
}

impl VarType {
    /// Resolves a type annotation, case-insensitively.
    pub fn from_str(s: &str) -> (r: Option<VarType>)
        ensures
            r == resolve_ty(s.spec_bytes()),
    {
        let b = s.as_bytes();
        if b.len() == 3 && fold_byte(b[0]) == 105 && fold_byte(b[1]) == 110 && fold_byte(b[2])
            == 116 {
            assert(eq_ci(b@, int_bytes())) by {
                assert forall|i: int| 0 <= i < b@.len() implies fold_lower(b@[i]) == fold_lower(
                    int_bytes()[i],
                ) by {
                    assert(i == 0 || i == 1 || i == 2);
                }
            }
            Some(VarType::Int)
        } else if b.len() == 5 && fold_byte(b[0]) == 102 && fold_byte(b[1]) == 108 && fold_byte(
            b[2],
        ) == 111 && fold_byte(b[3]) == 97 && fold_byte(b[4]) == 116 {
            assert(eq_ci(b@, float_bytes())) by {
                assert forall|i: int| 0 <= i < b@.len() implies fold_lower(b@[i]) == fold_lower(
                    float_bytes()[i],
                ) by {
                    assert(i == 0 || i == 1 || i == 2 || i == 3 || i == 4);
                }
            }
            assert(!eq_ci(b@, int_bytes()));
            Some(VarType::Float)
        } else if b.len() == 4 && fold_byte(b[0]) == 98 && fold_byte(b[1]) == 111 && fold_byte(
            b[2],
        ) == 111 && fold_byte(b[3]) == 108 {
            assert(eq_ci(b@, bool_bytes())) by {
                assert forall|i: int| 0 <= i < b@.len() implies fold_lower(b@[i]) == fold_lower(
                    bool_bytes()[i],
                ) by {
                    assert(i == 0 || i == 1 || i == 2 || i == 3);
                }
            }
            assert(!eq_ci(b@, int_bytes()));
            assert(!eq_ci(b@, float_bytes()));
            Some(VarType::Bool)
        } else {
            proof {
                if eq_ci(b@, int_bytes()) {
                    assert(fold_lower(b@[0]) == fold_lower(int_bytes()[0]));
                    assert(fold_lower(b@[1]) == fold_lower(int_bytes()[1]));
                    assert(fold_lower(b@[2]) == fold_lower(int_bytes()[2]));
                }
                if eq_ci(b@, float_bytes()) {
                    assert(fold_lower(b@[0]) == fold_lower(float_bytes()[0]));
                    assert(fold_lower(b@[1]) == fold_lower(float_bytes()[1]));
                    assert(fold_lower(b@[2]) == fold_lower(float_bytes()[2]));
                    assert(fold_lower(b@[3]) == fold_lower(float_bytes()[3]));
                    assert(fold_lower(b@[4]) == fold_lower(float_bytes()[4]));
                }
                if eq_ci(b@, bool_bytes()) {
                    assert(fold_lower(b@[0]) == fold_lower(bool_bytes()[0]));
                    assert(fold_lower(b@[1]) == fold_lower(bool_bytes()[1]));
                    assert(fold_lower(b@[2]) == fold_lower(bool_bytes()[2]));
                    assert(fold_lower(b@[3]) == fold_lower(bool_bytes()[3]));
                }
            }
            None
        }
    }
}

/// The scalar type a binary subtree implies: an `Int` literal among the
/// immediate children first, then a `Float` literal, then whichever child is
/// itself binary (left before right). `None` when no literal leaf anchors the
/// subtree.
pub open spec fn infer_ty(e: Expr) -> Option<VarType>
    decreases e,
{
    match e.inner {
        ExprKind::Binary(l, _op, r) => {
            if (*l).inner is Int || (*r).inner is Int {
                Some(VarType::Int)
            } else if (*l).inner is Float || (*r).inner is Float {
                Some(VarType::Float)
            } else if (*l).inner is Binary {
                infer_ty(*l)
            } else if (*r).inner is Binary {
                infer_ty(*r)
            } else {
                None
            }
        },
        _ => None,
    }
}

/// The error reported when `infer_ty` finds nothing: an unsupported-feature
/// error where a boolean or a bare variable blocks the scan, a structural
/// error on any other unexpected shape.
pub open spec fn infer_err(e: Expr) -> CgError
    decreases e,
{
    match e.inner {
        ExprKind::Binary(l, _op, r) => {
            if (*l).inner is Binary {
                infer_err(*l)
            } else if (*r).inner is Binary {
                infer_err(*r)
            } else if (*l).inner is Bool || (*r).inner is Bool || (*l).inner is Ident
                || (*r).inner is Ident {
                CgError { kind: CgErrorKind::UnsupportedFeature, span: e.span }
            } else {
                CgError { kind: CgErrorKind::Shape, span: e.span }
            }
        },
        _ => CgError { kind: CgErrorKind::Shape, span: e.span },
    }
}

/// Inference never answers the boolean type: booleans are no arithmetic
/// anchors.
pub proof fn lemma_infer_not_bool(e: Expr)
    ensures
        infer_ty(e) != Some(VarType::Bool),
    decreases e,
{
    match e.inner {
        ExprKind::Binary(l, _op, r) => {
            lemma_infer_not_bool(*l);
            lemma_infer_not_bool(*r);
        },
        _ => {},
    }
}

/// Type inference over a binary subtree.
pub fn infer(e: &Expr) -> (r: Result<VarType, CgError>)
    ensures
        r is Ok <==> infer_ty(*e) is Some,
        r matches Ok(t) ==> infer_ty(*e) == Some(t),
        r matches Err(er) ==> er == infer_err(*e),
    decreases *e,
{
    match &e.inner {
        ExprKind::Binary(l, _op, r) => {
            if matches!(l.inner, ExprKind::Int(_)) || matches!(r.inner, ExprKind::Int(_)) {
                Ok(VarType::Int)
            } else if matches!(l.inner, ExprKind::Float(_)) || matches!(
                r.inner,
                ExprKind::Float(_),
            ) {
                Ok(VarType::Float)
            } else if matches!(l.inner, ExprKind::Binary(..)) {
                infer(l)
            } else if matches!(r.inner, ExprKind::Binary(..)) {
                infer(r)
            } else if matches!(l.inner, ExprKind::Bool(_)) || matches!(r.inner, ExprKind::Bool(_))
                || matches!(l.inner, ExprKind::Ident(_)) || matches!(
                r.inner,
                ExprKind::Ident(_),
            ) {
                Err(CgError { kind: CgErrorKind::UnsupportedFeature, span: e.span })
            } else {
                Err(CgError { kind: CgErrorKind::Shape, span: e.span })
            }
        },
        _ => Err(CgError { kind: CgErrorKind::Shape, span: e.span }),
    }
}

} // verus!
