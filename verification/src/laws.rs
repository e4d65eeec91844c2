//! Proved general properties: constant materialization round-trips every
//! 64-bit integer, two-literal arithmetic wraps exactly, division by the zero
//! literal is always a reported runtime error, and boolean arithmetic is
//! always rejected.
//!
//! The instruction sequences these laws run are, by the contracts of
//! [`crate::lower::CodeGen::create_int`] and [`crate::lower::CodeGen::eval`],
//! exactly what the engine emits for the trees in question; the machine the
//! sequences run on is the one [`crate::machine::run_insts`] is proved to
//! implement.

use vstd::prelude::*;
use vstd::wrapping::i64_specs;
use crate::ast::{BinaryOp, Expr, ExprKind, Span};
use crate::diag::{CgErrorKind, RtError};
use crate::inst::{Inst, Value};
use crate::lower::{const_int_insts, int_lit_pair_insts, mag_of, return_err, return_ok};
use crate::machine::{run_from, tc_i64, SpecOut};
use crate::ty::VarType;

verus! {

/// The temporaries materializing an integer literal produces: the magnitude
/// word, then, for a negative literal, its negation. The last one holds the
/// literal exactly.
pub open spec fn const_int_temps(i: i64) -> Seq<Value> {
    if i >= 0 {
        seq![Value::IntV(i)]
    } else {
        seq![Value::IntV(tc_i64(mag_of(i))), Value::IntV(i)]
    }
}

/// Materialized constants denote their literal: the magnitude word read back
/// as a two's-complement value is the literal for non-negative literals, and
/// its wrapping negation is the literal for negative ones, the minimum
/// representable value included.
pub proof fn lemma_const_int_value(i: i64)
    ensures
        i >= 0 ==> tc_i64(mag_of(i)) == i,
        i < 0 ==> i64_specs::wrapping_sub(0, tc_i64(mag_of(i))) == i,
{
}

/// Running the materialization of an integer literal: the machine steps over
/// its one or two instructions and pushes [`const_int_temps`], whose last
/// temporary is the literal. `pc` must sit where the materialization was
/// emitted, with one temporary pushed per instruction executed so far.
pub proof fn lemma_const_int_steps(
    s: Seq<Inst>,
    i: i64,
    pc: int,
    args: Seq<Value>,
    temps: Seq<Value>,
    mem: Seq<Value>,
)
    requires
        0 <= pc,
        temps.len() == pc,
        s.len() <= usize::MAX,
        pc + const_int_insts(i, pc).len() <= s.len(),
        s.subrange(pc, pc + const_int_insts(i, pc).len() as int) == const_int_insts(i, pc),
    ensures
        run_from(s, args, pc, temps, mem) == run_from(
            s,
            args,
            pc + const_int_insts(i, pc).len() as int,
            temps + const_int_temps(i),
            mem,
        ),
        (temps + const_int_temps(i)).last() == Value::IntV(i),
        (temps + const_int_temps(i)).len() == pc + const_int_insts(i, pc).len(),
{
    lemma_const_int_value(i);
    if i >= 0 {
        assert(s[pc] == const_int_insts(i, pc)[0]);
        assert(s[pc] == Inst::ConstIntMag(mag_of(i)));
        assert(temps.push(Value::IntV(tc_i64(mag_of(i)))) =~= temps + const_int_temps(i));
    } else {
        assert(s[pc] == const_int_insts(i, pc)[0]);
        assert(s[pc + 1] == const_int_insts(i, pc)[1]);
        assert(s[pc] == Inst::ConstIntMag(mag_of(i)));
        assert(s[pc + 1] == Inst::NegInt(pc as usize));
        let t1 = temps.push(Value::IntV(tc_i64(mag_of(i))));
        assert(run_from(s, args, pc, temps, mem) == run_from(s, args, pc + 1, t1, mem));
        assert(t1[pc] == Value::IntV(tc_i64(mag_of(i))));
        let t2 = t1.push(Value::IntV(i64_specs::wrapping_sub(0, tc_i64(mag_of(i)))));
        assert(run_from(s, args, pc + 1, t1, mem) == run_from(s, args, pc + 2, t2, mem));
        assert(t2 =~= temps + const_int_temps(i));
    }
}

/// The round trip of constant materialization: the slot, the materialization,
/// the store and the typed load back.
pub open spec fn round_trip_insts(i: i64) -> Seq<Inst> {
    let k = const_int_insts(i, 1).len() as int;
    seq![Inst::Alloca(VarType::Int)] + const_int_insts(i, 1) + seq![
        Inst::Store(0, k as usize),
        Inst::Load(VarType::Int, 0),
    ]
}

/// For every 64-bit signed integer, the minimum representable value included:
/// materializing the integer into a fresh slot and loading the slot back
/// yields the integer exactly. The run ends with the slot and the loaded
/// temporary both holding exactly the integer.
pub proof fn lemma_materialize_round_trip(i: i64, args: Seq<Value>)
    ensures
        run_from(round_trip_insts(i), args, 0, Seq::empty(), Seq::empty())
            matches SpecOut::Done { ret, temps, mem } && ret is None && mem == seq![Value::IntV(i)]
            && temps.last() == Value::IntV(i),
{
    let s = round_trip_insts(i);
    let k = const_int_insts(i, 1).len() as int;
    let t0 = Seq::<Value>::empty();
    let m0 = Seq::<Value>::empty();
    assert(s[0] == Inst::Alloca(VarType::Int));
    let t1 = t0.push(Value::PtrV(0));
    let m1 = m0.push(Value::Unit);
    assert(run_from(s, args, 0, t0, m0) == run_from(s, args, 1, t1, m1));
    assert(s.subrange(1, 1 + k) =~= const_int_insts(i, 1));
    lemma_const_int_steps(s, i, 1, args, t1, m1);
    let t2 = t1 + const_int_temps(i);
    assert(run_from(s, args, 1, t1, m1) == run_from(s, args, 1 + k, t2, m1));
    assert(s[1 + k] == Inst::Store(0, k as usize));
    assert(t2[0] == Value::PtrV(0));
    assert(t2[k] == Value::IntV(i));
    let t3 = t2.push(Value::Unit);
    let m2 = m1.update(0, Value::IntV(i));
    assert(run_from(s, args, 1 + k, t2, m1) == run_from(s, args, 2 + k, t3, m2));
    assert(s[2 + k] == Inst::Load(VarType::Int, 0));
    assert(t3[0] == Value::PtrV(0));
    assert(m2[0] == Value::IntV(i));
    let t4 = t3.push(Value::IntV(i));
    assert(run_from(s, args, 2 + k, t3, m2) == run_from(s, args, 3 + k, t4, m2));
    assert(3 + k == s.len());
    assert(run_from(s, args, 3 + k, t4, m2) == SpecOut::Done { ret: None, temps: t4, mem: m2 });
    assert(m2 =~= seq![Value::IntV(i)]);
}

/// The 64-bit two's-complement wraparound of a wrapping operator applied to
/// two integers. Meaningful for Add, Sub and Mul; division does not wrap, it
/// reports its error cases instead.
pub open spec fn wrap_arith(op: BinaryOp, a: i64, b: i64) -> i64 {
    match op {
        BinaryOp::Add => i64_specs::wrapping_add(a, b),
        BinaryOp::Sub => i64_specs::wrapping_sub(a, b),
        BinaryOp::Mul => i64_specs::wrapping_mul(a, b),
        BinaryOp::Div => 0,
    }
}

/// The scenario the two-literal laws run: a fresh integer slot, then exactly
/// what the evaluator emits for `Binary(Int(a), op, Int(b))` into that slot,
/// then a load of the slot.
pub open spec fn int_pair_scenario(a: i64, b: i64, op: BinaryOp) -> Seq<Inst> {
    seq![Inst::Alloca(VarType::Int)] + int_lit_pair_insts(a, b, op, 0, 1) + seq![
        Inst::Load(VarType::Int, 0),
    ]
}

/// Runs the shared prefix of the two-literal scenario: the slot, both
/// materializations. Afterwards the machine stands before the arithmetic
/// instruction with both literals in their temporaries.
proof fn lemma_int_pair_prefix(a: i64, b: i64, op: BinaryOp, args: Seq<Value>)
    ensures
        ({
            let s = int_pair_scenario(a, b, op);
            let ka = const_int_insts(a, 1).len() as int;
            let kb = const_int_insts(b, 1 + ka).len() as int;
            let t = (Seq::empty().push(Value::PtrV(0)) + const_int_temps(a)) + const_int_temps(b);
            &&& run_from(s, args, 0, Seq::empty(), Seq::empty()) == run_from(
                s,
                args,
                1 + ka + kb,
                t,
                seq![Value::Unit],
            )
            &&& t.len() == 1 + ka + kb
            &&& t[0] == Value::PtrV(0)
            &&& t[ka] == Value::IntV(a)
            &&& t[ka + kb] == Value::IntV(b)
            &&& s[1 + ka + kb] == Inst::IntBin(op, ka as usize, (ka + kb) as usize)
            &&& s[2 + ka + kb] == Inst::Store(0, (1 + ka + kb) as usize)
            &&& s[3 + ka + kb] == Inst::Load(VarType::Int, 0)
            &&& s.len() == 4 + ka + kb
        }),
{
    let s = int_pair_scenario(a, b, op);
    let ka = const_int_insts(a, 1).len() as int;
    let kb = const_int_insts(b, 1 + ka).len() as int;
    let t0 = Seq::<Value>::empty();
    let m0 = Seq::<Value>::empty();
    assert(s[0] == Inst::Alloca(VarType::Int));
    let t1 = t0.push(Value::PtrV(0));
    let m1 = m0.push(Value::Unit);
    assert(run_from(s, args, 0, t0, m0) == run_from(s, args, 1, t1, m1));
    assert(s.subrange(1, 1 + ka) =~= const_int_insts(a, 1));
    lemma_const_int_steps(s, a, 1, args, t1, m1);
    let t2 = t1 + const_int_temps(a);
    assert(s.subrange(1 + ka, 1 + ka + kb) =~= const_int_insts(b, 1 + ka));
    lemma_const_int_steps(s, b, 1 + ka, args, t2, m1);
    let t3 = t2 + const_int_temps(b);
    assert(t3[ka] == t2[ka]);
    assert(t2[ka] == Value::IntV(a));
    assert(t3[ka + kb] == Value::IntV(b));
    assert(t3[0] == t2[0]);
    assert(m1 =~= seq![Value::Unit]);
}

/// For all integer literals `a`, `b` and each wrapping operator Add, Sub and
/// Mul: running what the evaluator emits for `Binary(Int(a), op, Int(b))`
/// into a fresh integer slot and loading the slot yields exactly the 64-bit
/// two's-complement wraparound of the mathematical result.
pub proof fn lemma_int_literal_arith(a: i64, b: i64, op: BinaryOp, args: Seq<Value>)
    requires
        op != BinaryOp::Div,
    ensures
        run_from(int_pair_scenario(a, b, op), args, 0, Seq::empty(), Seq::empty())
            matches SpecOut::Done { ret, temps, mem } && ret is None && mem == seq![
            Value::IntV(wrap_arith(op, a, b)),
        ] && temps.last() == Value::IntV(wrap_arith(op, a, b)),
{
    lemma_int_pair_prefix(a, b, op, args);
    let s = int_pair_scenario(a, b, op);
    let ka = const_int_insts(a, 1).len() as int;
    let kb = const_int_insts(b, 1 + ka).len() as int;
    let t = (Seq::empty().push(Value::PtrV(0)) + const_int_temps(a)) + const_int_temps(b);
    let m = seq![Value::Unit];
    let v = wrap_arith(op, a, b);
    let t4 = t.push(Value::IntV(v));
    assert(run_from(s, args, 1 + ka + kb, t, m) == run_from(s, args, 2 + ka + kb, t4, m));
    let t5 = t4.push(Value::Unit);
    let m2 = m.update(0, Value::IntV(v));
    assert(t4[0] == Value::PtrV(0));
    assert(t4[1 + ka + kb] == Value::IntV(v));
    assert(run_from(s, args, 2 + ka + kb, t4, m) == run_from(s, args, 3 + ka + kb, t5, m2));
    assert(m2[0] == Value::IntV(v));
    assert(t5[0] == Value::PtrV(0));
    let t6 = t5.push(Value::IntV(v));
    assert(run_from(s, args, 3 + ka + kb, t5, m2) == run_from(s, args, 4 + ka + kb, t6, m2));
    assert(4 + ka + kb == s.len());
    assert(run_from(s, args, 4 + ka + kb, t6, m2) == SpecOut::Done {
        ret: None,
        temps: t6,
        mem: m2,
    });
    assert(m2 =~= seq![Value::IntV(v)]);
}

/// For every integer literal `a`: running what the evaluator emits for
/// `Binary(Int(a), Div, Int(0))` reports a division-by-zero runtime error,
/// never a silent trap and never a value.
pub proof fn lemma_div_by_zero_reported(a: i64, args: Seq<Value>)
    ensures
        run_from(int_pair_scenario(a, 0, BinaryOp::Div), args, 0, Seq::empty(), Seq::empty())
            == SpecOut::Failed(RtError::DivByZero),
{
    lemma_int_pair_prefix(a, 0, BinaryOp::Div, args);
    let s = int_pair_scenario(a, 0, BinaryOp::Div);
    let ka = const_int_insts(a, 1).len() as int;
    let kb = const_int_insts(0, 1 + ka).len() as int;
    let t = (Seq::empty().push(Value::PtrV(0)) + const_int_temps(a)) + const_int_temps(0);
    let m = seq![Value::Unit];
    assert(t[ka + kb] == Value::IntV(0));
    assert(a.checked_div(0) is None);
    assert(run_from(s, args, 1 + ka + kb, t, m) == SpecOut::Failed(RtError::DivByZero));
}

/// Boolean arithmetic is always rejected: lowering a return of
/// `Binary(Bool(p), op, Bool(q))` fails as an unsupported feature for every
/// pair of booleans and every operator, and never yields a value.
pub proof fn lemma_bool_arithmetic_rejected(p: bool, q: bool, op: BinaryOp, spans: Seq<Span>)
    requires
        spans.len() == 3,
    ensures
        ({
            let e = Expr {
                inner: ExprKind::Binary(
                    Box::new(Expr { inner: ExprKind::Bool(p), span: spans[0] }),
                    op,
                    Box::new(Expr { inner: ExprKind::Bool(q), span: spans[1] }),
                ),
                span: spans[2],
            };
            &&& !return_ok(Some(Box::new(e)))
            &&& return_err(Some(Box::new(e)), spans[2]).kind == CgErrorKind::UnsupportedFeature
        }),
{
}

} // verus!
