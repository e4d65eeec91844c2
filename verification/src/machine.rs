//! The machine that executes lowered instruction bodies.
//!
//! Execution is straight-line: the instruction at position `pc` produces
//! temporary `pc`, until a return instruction ends the run or the body is
//! exhausted. Integer arithmetic wraps on 64-bit two's-complement overflow;
//! integer division truncates toward zero and reports division by zero and
//! the minimum-value-by-minus-one trap as runtime errors instead of trapping.
//! Floating-point arithmetic is the one thing the machine does not compute:
//! it stops before such an instruction and hands the operand bit patterns to
//! the caller, who computes the result and resumes the run. A body that reads
//! a bad temporary, loads a slot against its type or reads a missing argument
//! is stuck.
//!
//! The spec function [`run_from`] is the semantics; every executable entry
//! point is proved to agree with it.

use vstd::prelude::*;
use vstd::wrapping::i64_specs;
use crate::ast::BinaryOp;
use crate::diag::RtError;
use crate::inst::{Inst, Value};
use crate::ty::VarType;

verus! {

/// The two's-complement 64-bit word whose unsigned reading is `m`.
pub open spec fn tc_i64(m: u64) -> i64 {
    if m <= i64::MAX as u64 {
        m as i64
    } else {
        (m as int - 0x1_0000_0000_0000_0000) as i64
    }
}

/// What a run of a body comes to, in the specification.
pub enum SpecOut {
    /// The run ended, by a return instruction or by exhausting the body.
    Done { ret: Option<Value>, temps: Seq<Value>, mem: Seq<Value> },
    /// A runtime error was reported.
    Failed(RtError),
    /// The run stopped before the floating instruction at `pc`, whose operand
    /// bit patterns are `a` and `b`.
    Paused { op: BinaryOp, a: u64, b: u64, pc: int, temps: Seq<Value>, mem: Seq<Value> },
    /// The body is ill-formed at the reached instruction.
    Stuck,
}

/// The semantics of a body: execute `insts` from position `pc` onward, with
/// arguments `args`, temporaries `temps` and storage slots `mem`.
pub open spec fn run_from(
    insts: Seq<Inst>,
    args: Seq<Value>,
    pc: int,
    temps: Seq<Value>,
    mem: Seq<Value>,
) -> SpecOut
    decreases insts.len() - pc,
{
    if pc < 0 || pc > insts.len() {
        SpecOut::Stuck
    } else if pc == insts.len() {
        SpecOut::Done { ret: None, temps, mem }
    } else {
        match insts[pc] {
            Inst::ConstIntMag(m) => run_from(
                insts,
                args,
                pc + 1,
                temps.push(Value::IntV(tc_i64(m))),
                mem,
            ),
            Inst::NegInt(t) => if t < temps.len() {
                match temps[t as int] {
                    Value::IntV(v) => run_from(
                        insts,
                        args,
                        pc + 1,
                        temps.push(Value::IntV(i64_specs::wrapping_sub(0, v))),
                        mem,
                    ),
                    _ => SpecOut::Stuck,
                }
            } else {
                SpecOut::Stuck
            },
            Inst::ConstFloat(bits) => run_from(
                insts,
                args,
                pc + 1,
                temps.push(Value::FloatV(bits)),
                mem,
            ),
            Inst::ConstBool(b) => run_from(insts, args, pc + 1, temps.push(Value::BoolV(b)), mem),
            Inst::Param(i) => if i < args.len() {
                run_from(insts, args, pc + 1, temps.push(args[i as int]), mem)
            } else {
                SpecOut::Stuck
            },
            Inst::Alloca(_t) => run_from(
                insts,
                args,
                pc + 1,
                temps.push(Value::PtrV(mem.len() as usize)),
                mem.push(Value::Unit),
            ),
            Inst::Load(t, p) => if p < temps.len() {
                match temps[p as int] {
                    Value::PtrV(c) => if c < mem.len() && crate::inst::value_has_ty(
                        mem[c as int],
                        t,
                    ) {
                        run_from(insts, args, pc + 1, temps.push(mem[c as int]), mem)
                    } else {
                        SpecOut::Stuck
                    },
                    _ => SpecOut::Stuck,
                }
            } else {
                SpecOut::Stuck
            },
            Inst::Store(p, v) => if p < temps.len() && v < temps.len() {
                match temps[p as int] {
                    Value::PtrV(c) => if c < mem.len() {
                        run_from(
                            insts,
                            args,
                            pc + 1,
                            temps.push(Value::Unit),
                            mem.update(c as int, temps[v as int]),
                        )
                    } else {
                        SpecOut::Stuck
                    },
                    _ => SpecOut::Stuck,
                }
            } else {
                SpecOut::Stuck
            },
            Inst::IntBin(op, a, b) => if a < temps.len() && b < temps.len() {
                match (temps[a as int], temps[b as int]) {
                    (Value::IntV(x), Value::IntV(y)) => match op {
                        BinaryOp::Add => run_from(
                            insts,
                            args,
                            pc + 1,
                            temps.push(Value::IntV(i64_specs::wrapping_add(x, y))),
                            mem,
                        ),
                        BinaryOp::Sub => run_from(
                            insts,
                            args,
                            pc + 1,
                            temps.push(Value::IntV(i64_specs::wrapping_sub(x, y))),
                            mem,
                        ),
                        BinaryOp::Mul => run_from(
                            insts,
                            args,
                            pc + 1,
                            temps.push(Value::IntV(i64_specs::wrapping_mul(x, y))),
                            mem,
                        ),
                        BinaryOp::Div => match x.checked_div(y) {
                            Some(q) => run_from(
                                insts,
                                args,
                                pc + 1,
                                temps.push(Value::IntV(q)),
                                mem,
                            ),
                            None => SpecOut::Failed(
                                if y == 0 {
                                    RtError::DivByZero
                                } else {
                                    RtError::Overflow
                                },
                            ),
                        },
                    },
                    _ => SpecOut::Stuck,
                }
            } else {
                SpecOut::Stuck
            },
            Inst::FloatBin(op, a, b) => if a < temps.len() && b < temps.len() {
                match (temps[a as int], temps[b as int]) {
                    (Value::FloatV(x), Value::FloatV(y)) => SpecOut::Paused {
                        op,
                        a: x,
                        b: y,
                        pc,
                        temps,
                        mem,
                    },
                    _ => SpecOut::Stuck,
                }
            } else {
                SpecOut::Stuck
            },
            Inst::RetVal(t) => if t < temps.len() {
                SpecOut::Done { ret: Some(temps[t as int]), temps, mem }
            } else {
                SpecOut::Stuck
            },
            Inst::RetVoid => SpecOut::Done { ret: None, temps, mem },
        }
    }
}

/// A run stopped before a floating instruction, ready to be resumed.
#[derive(Debug)]
pub struct MachineState {
    pub insts: Vec<Inst>,
    pub args: Vec<Value>,
    pub pc: usize,
    pub temps: Vec<Value>,
    pub mem: Vec<Value>,
}

/// What a run of a body comes to, executably.
#[derive(Debug)]
pub enum RunOutcome {
    /// The run ended; `temps` and `mem` are the final temporaries and slots,
    /// so a caller can read back what was stored.
    Done { ret: Option<Value>, temps: Vec<Value>, mem: Vec<Value> },
    /// A runtime error was reported.
    Failed(RtError),
    /// The run needs the caller to apply `op` to the floating-point values
    /// with bit patterns `a` and `b` and hand the result to [`resume`].
    NeedFloat { op: BinaryOp, a: u64, b: u64, st: MachineState },
    /// The body is ill-formed at the reached instruction.
    Stuck,
}

/// The executable outcome agrees with the specified one.
pub open spec fn outcome_matches(
    out: RunOutcome,
    insts: Seq<Inst>,
    args: Seq<Value>,
    s: SpecOut,
) -> bool {
    match s {
        SpecOut::Done { ret, temps, mem } => out matches RunOutcome::Done {
            ret: r2,
            temps: t2,
            mem: m2,
        } && r2 == ret && t2@ == temps && m2@ == mem,
        SpecOut::Failed(e) => out matches RunOutcome::Failed(e2) && e2 == e,
        SpecOut::Paused { op, a, b, pc, temps, mem } => out matches RunOutcome::NeedFloat {
            op: o2,
            a: a2,
            b: b2,
            st,
        } && o2 == op && a2 == a && b2 == b && st.insts@ == insts && st.args@ == args && st.pc
            as int == pc && st.temps@ == temps && st.mem@ == mem,
        SpecOut::Stuck => out is Stuck,
    }
}

fn tc_exec(m: u64) -> (r: i64)
    ensures
        r == tc_i64(m),
{
    if m <= i64::MAX as u64 {
        m as i64
    } else if m == 9223372036854775808u64 {
        i64::MIN
    } else {
        let d = (u64::MAX - m) + 1;
        -(d as i64)
    }
}

#[verifier::rlimit(50)]
fn run_core(
    insts: Vec<Inst>,
    args: Vec<Value>,
    pc_start: usize,
    temps_start: Vec<Value>,
    mem_start: Vec<Value>,
) -> (out: RunOutcome)
    requires
        pc_start <= insts@.len(),
    ensures
        outcome_matches(
            out,
            insts@,
            args@,
            run_from(insts@, args@, pc_start as int, temps_start@, mem_start@),
        ),
{
    let mut pc = pc_start;
    let mut temps = temps_start;
    let mut mem = mem_start;
    loop
        invariant
            pc <= insts@.len(),
            run_from(insts@, args@, pc_start as int, temps_start@, mem_start@) == run_from(
                insts@,
                args@,
                pc as int,
                temps@,
                mem@,
            ),
        decreases insts@.len() - pc,
    {
        if pc == insts.len() {
            return RunOutcome::Done { ret: None, temps, mem };
        }
        let inst = insts[pc];
        match inst {
            Inst::ConstIntMag(m) => {
                let v = tc_exec(m);
                temps.push(Value::IntV(v));
                pc = pc + 1;
            },
            Inst::NegInt(t) => {
                if t < temps.len() {
                    match temps[t] {
                        Value::IntV(v) => {
                            temps.push(Value::IntV(0i64.wrapping_sub(v)));
                            pc = pc + 1;
                        },
                        _ => {
                            return RunOutcome::Stuck;
                        },
                    }
                } else {
                    return RunOutcome::Stuck;
                }
            },
            Inst::ConstFloat(bits) => {
                temps.push(Value::FloatV(bits));
                pc = pc + 1;
            },
            Inst::ConstBool(b) => {
                temps.push(Value::BoolV(b));
                pc = pc + 1;
            },
            Inst::Param(i) => {
                if i < args.len() {
                    temps.push(args[i]);
                    pc = pc + 1;
                } else {
                    return RunOutcome::Stuck;
                }
            },
            Inst::Alloca(_t) => {
                temps.push(Value::PtrV(mem.len()));
                mem.push(Value::Unit);
                pc = pc + 1;
            },
            Inst::Load(t, p) => {
                if p < temps.len() {
                    match temps[p] {
                        Value::PtrV(c) => {
                            if c < mem.len() {
                                let val = mem[c];
                                let ok = match (t, val) {
                                    (VarType::Int, Value::IntV(_)) => true,
                                    (VarType::Float, Value::FloatV(_)) => true,
                                    (VarType::Bool, Value::BoolV(_)) => true,
                                    _ => false,
                                };
                                if ok {
                                    temps.push(val);
                                    pc = pc + 1;
                                } else {
                                    return RunOutcome::Stuck;
                                }
                            } else {
                                return RunOutcome::Stuck;
                            }
                        },
                        _ => {
                            return RunOutcome::Stuck;
                        },
                    }
                } else {
                    return RunOutcome::Stuck;
                }
            },
            Inst::Store(p, v) => {
                if p < temps.len() && v < temps.len() {
                    match temps[p] {
                        Value::PtrV(c) => {
                            if c < mem.len() {
                                let val = temps[v];
                                mem.set(c, val);
                                temps.push(Value::Unit);
                                pc = pc + 1;
                            } else {
                                return RunOutcome::Stuck;
                            }
                        },
                        _ => {
                            return RunOutcome::Stuck;
                        },
                    }
                } else {
                    return RunOutcome::Stuck;
                }
            },
            Inst::IntBin(op, a, b) => {
                if a < temps.len() && b < temps.len() {
                    match (temps[a], temps[b]) {
                        (Value::IntV(x), Value::IntV(y)) => {
                            match op {
                                BinaryOp::Add => {
                                    temps.push(Value::IntV(x.wrapping_add(y)));
                                    pc = pc + 1;
                                },
                                BinaryOp::Sub => {
                                    temps.push(Value::IntV(x.wrapping_sub(y)));
                                    pc = pc + 1;
                                },
                                BinaryOp::Mul => {
                                    temps.push(Value::IntV(x.wrapping_mul(y)));
                                    pc = pc + 1;
                                },
                                BinaryOp::Div => {
                                    match x.checked_div(y) {
                                        Some(q) => {
                                            temps.push(Value::IntV(q));
                                            pc = pc + 1;
                                        },
                                        None => {
                                            return RunOutcome::Failed(
                                                if y == 0 {
                                                    RtError::DivByZero
                                                } else {
                                                    RtError::Overflow
                                                },
                                            );
                                        },
                                    }
                                },
                            }
                        },
                        _ => {
                            return RunOutcome::Stuck;
                        },
                    }
                } else {
                    return RunOutcome::Stuck;
                }
            },
            Inst::FloatBin(op, a, b) => {
                if a < temps.len() && b < temps.len() {
                    match (temps[a], temps[b]) {
                        (Value::FloatV(x), Value::FloatV(y)) => {
                            return RunOutcome::NeedFloat {
                                op,
                                a: x,
                                b: y,
                                st: MachineState { insts, args, pc, temps, mem },
                            };
                        },
                        _ => {
                            return RunOutcome::Stuck;
                        },
                    }
                } else {
                    return RunOutcome::Stuck;
                }
            },
            Inst::RetVal(t) => {
                if t < temps.len() {
                    let rv = temps[t];
                    return RunOutcome::Done { ret: Some(rv), temps, mem };
                } else {
                    return RunOutcome::Stuck;
                }
            },
            Inst::RetVoid => {
                return RunOutcome::Done { ret: None, temps, mem };
            },
        }
    }
}

/// An owned copy of a body's instructions.
fn copy_insts(src: &Vec<Inst>) -> (r: Vec<Inst>)
    ensures
        r@ == src@,
{
    let mut r: Vec<Inst> = Vec::new();
    let mut i: usize = 0;
    while i < src.len()
        invariant
            i <= src@.len(),
            r@ == src@.subrange(0, i as int),
        decreases src@.len() - i,
    {
        r.push(src[i]);
        i = i + 1;
    }
    proof {
        assert(r@ =~= src@);
    }
    r
}

/// Runs a body from its entry with the given arguments.
pub fn run_insts(insts: &Vec<Inst>, args: Vec<Value>) -> (out: RunOutcome)
    ensures
        outcome_matches(
            out,
            insts@,
            args@,
            run_from(insts@, args@, 0, Seq::empty(), Seq::empty()),
        ),
{
    let owned = copy_insts(insts);
    run_core(owned, args, 0, Vec::new(), Vec::new())
}

/// Resumes a paused run with the bit pattern of the floating-point result the
/// caller computed for the instruction the run stopped at.
pub fn resume(st: MachineState, bits: u64) -> (out: RunOutcome)
    requires
        st.pc < st.insts@.len(),
    ensures
        outcome_matches(
            out,
            st.insts@,
            st.args@,
            run_from(
                st.insts@,
                st.args@,
                st.pc + 1,
                st.temps@.push(Value::FloatV(bits)),
                st.mem@,
            ),
        ),
{
    let MachineState { insts, args, pc, mut temps, mem } = st;
    temps.push(Value::FloatV(bits));
    let n = insts.len();
    assert(pc < n);
    run_core(insts, args, pc + 1, temps, mem)
}

} // verus!
