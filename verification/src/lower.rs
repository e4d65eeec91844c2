//! The lowering engine: scope frames, the function table, the emission
//! cursor, constant materialization, the expression evaluator, statement
//! lowering and the driver that compiles and runs a program.
//!
//! A [`CodeGen`] holds the lowered functions; `cur` is the emission cursor,
//! the index of the function newly lowered instructions are appended to. The
//! program-entry function sits at index 0 and hosts all top-level statements.

use vstd::prelude::*;
use vstd::string::StringSliceAdditionalSpecFns;
use vstd::utf8::encode_utf8;
use vstd::slice::slice_index_get;
use crate::ast::{BinaryOp, Expr, ExprKind, Span};
use crate::diag::{CgError, CgErrorKind};
use crate::inst::Inst;
use crate::machine::{outcome_matches, run_from, run_insts, RunOutcome};
use crate::ty::{infer, infer_err, infer_ty, resolve_ty, VarType};

verus! {

/// The scope frame: an ordered list of bindings from a variable name to the
/// temporary that addresses its storage. A later binding of the same name
/// shadows an earlier one, so the frame is read as the map [`alist_map`].
pub struct Frame {
    pub vars: Vec<(String, usize)>,
}

/// The map a binding list denotes: later entries win.
pub open spec fn alist_map(s: Seq<(String, usize)>) -> Map<Seq<char>, usize>
    decreases s.len(),
{
    if s.len() == 0 {
        Map::empty()
    } else {
        alist_map(s.drop_last()).insert(s.last().0@, s.last().1)
    }
}

impl View for Frame {
    type V = Map<Seq<char>, usize>;

    open spec fn view(&self) -> Map<Seq<char>, usize> {
        alist_map(self.vars@)
    }
}

impl Frame {
    /// An empty frame.
    pub fn new() -> (f: Frame)
        ensures
            f@ == Map::<Seq<char>, usize>::empty(),
    {
        Frame { vars: Vec::new() }
    }

    /// Binds a name to the temporary addressing its storage.
    pub fn bind(&mut self, name: String, slot: usize)
        ensures
            final(self)@ == old(self)@.insert(name@, slot),
    {
        let ghost before = self.vars@;
        self.vars.push((name, slot));
        proof {
            assert(self.vars@.drop_last() =~= before);
        }
    }

    /// The temporary a name is bound to, if any.
    pub fn get(&self, name: &String) -> (r: Option<usize>)
        ensures
            match r {
                Some(t) => self@.contains_key(name@) && self@[name@] == t,
                None => !self@.contains_key(name@),
            },
    {
        let mut i = self.vars.len();
        proof {
            assert(self.vars@.subrange(0, i as int) =~= self.vars@);
        }
        while i > 0
            invariant
                i <= self.vars@.len(),
                alist_map(self.vars@).contains_key(name@) == alist_map(
                    self.vars@.subrange(0, i as int),
                ).contains_key(name@),
                alist_map(self.vars@).contains_key(name@) ==> alist_map(self.vars@)[name@]
                    == alist_map(self.vars@.subrange(0, i as int))[name@],
            decreases i,
        {
            i = i - 1;
            let entry = vstd::slice::slice_index_get(self.vars.as_slice(), i);
            proof {
                assert(self.vars@.subrange(0, i + 1).drop_last() =~= self.vars@.subrange(
                    0,
                    i as int,
                ));
                assert(self.vars@.subrange(0, i + 1).last() == self.vars@[i as int]);
            }
            if entry.0.eq(name) {
                return Some(entry.1);
            }
        }
        proof {
            assert(self.vars@.subrange(0, 0) =~= Seq::<(String, usize)>::empty());
        }
        None
    }

    /// A snapshot of the frame: the bindings as they stand now, not a live
    /// link, so later changes on either side stay invisible to the other.
    pub fn snapshot(&self) -> (r: Frame)
        ensures
            r@ == self@,
            r.vars@ == self.vars@,
    {
        let mut vars: Vec<(String, usize)> = Vec::new();
        let mut i: usize = 0;
        while i < self.vars.len()
            invariant
                i <= self.vars@.len(),
                vars@ == self.vars@.subrange(0, i as int),
            decreases self.vars@.len() - i,
        {
            let entry = vstd::slice::slice_index_get(self.vars.as_slice(), i);
            vars.push((entry.0.clone(), entry.1));
            proof {
                assert(vars@ =~= self.vars@.subrange(0, i + 1));
            }
            i = i + 1;
        }
        proof {
            assert(vars@ =~= self.vars@);
        }
        Frame { vars }
    }
}

/// A lowered function: its name, its parameter and return types, and its
/// instruction body.
pub struct FuncCode {
    pub name: String,
    pub params: Vec<VarType>,
    pub ret_ty: Option<VarType>,
    pub insts: Vec<Inst>,
}

/// The lowering engine's state: the function table and the emission cursor.
pub struct CodeGen {
    pub funcs: Vec<FuncCode>,
    pub cur: usize,
}

impl CodeGen {
    /// The engine is well formed: the entry function exists and the cursor
    /// points at a function.
    pub open spec fn wf(self) -> bool {
        self.funcs@.len() >= 1 && (self.cur as int) < self.funcs@.len()
    }

    /// The function under the emission cursor.
    pub open spec fn cur_fn(self) -> FuncCode {
        self.funcs@[self.cur as int]
    }

    /// The position the next emitted instruction (and so the next temporary)
    /// will have in the function under the cursor.
    pub open spec fn base(self) -> int {
        self.cur_fn().insts@.len() as int
    }

}

/// `b` is the function `a` with instructions appended and nothing else
/// changed.
pub open spec fn fn_code_extends(a: FuncCode, b: FuncCode) -> bool {
    &&& b.name == a.name
    &&& b.params == a.params
    &&& b.ret_ty == a.ret_ty
    &&& a.insts@.is_prefix_of(b.insts@)
}

/// Appending to a function is transitive.
pub proof fn lemma_fn_code_extends_trans(a: FuncCode, b: FuncCode, c: FuncCode)
    requires
        fn_code_extends(a, b),
        fn_code_extends(b, c),
    ensures
        fn_code_extends(a, c),
{
    let x = a.insts@;
    let y = b.insts@;
    let z = c.insts@;
    assert(z.subrange(0, x.len() as int) =~= x) by {
        assert forall|k: int| 0 <= k < x.len() implies z[k] == x[k] by {
            assert(y.subrange(0, x.len() as int)[k] == y[k]);
            assert(z.subrange(0, y.len() as int)[k] == z[k]);
        }
    }
}

/// `b` is `a` with instructions appended to the function under the cursor and
/// nothing else changed.
pub open spec fn extends(a: CodeGen, b: CodeGen) -> bool {
    &&& b.funcs@.len() == a.funcs@.len()
    &&& b.cur == a.cur
    &&& forall|j: int|
        0 <= j < a.funcs@.len() && j != a.cur as int ==> b.funcs@[j] == a.funcs@[j]
    &&& fn_code_extends(a.cur_fn(), b.cur_fn())
}

/// Appending is transitive.
pub proof fn lemma_extends_trans(a: CodeGen, b: CodeGen, c: CodeGen)
    requires
        extends(a, b),
        extends(b, c),
    ensures
        extends(a, c),
{
    lemma_fn_code_extends_trans(a.cur_fn(), b.cur_fn(), c.cur_fn());
}

/// The unsigned magnitude of a 64-bit integer literal.
pub open spec fn mag_of(v: i64) -> u64 {
    if v >= 0 {
        v as u64
    } else {
        (-(v as int)) as u64
    }
}

/// What materializing an integer literal emits: the unsigned magnitude,
/// negated if the literal was negative. `base` is the position of the first
/// emitted instruction.
pub open spec fn const_int_insts(v: i64, base: int) -> Seq<Inst> {
    if v >= 0 {
        seq![Inst::ConstIntMag(mag_of(v))]
    } else {
        seq![Inst::ConstIntMag(mag_of(v)), Inst::NegInt(base as usize)]
    }
}

impl CodeGen {
    /// A fresh engine: one empty program-entry function, the cursor on it.
    pub fn new() -> (cg: CodeGen)
        ensures
            cg.wf(),
            cg.cur == 0,
            cg.funcs@.len() == 1,
            cg.funcs@[0].insts@ == Seq::<Inst>::empty(),
            cg.funcs@[0].params@ == Seq::<VarType>::empty(),
            cg.funcs@[0].ret_ty == Some(VarType::Int),
            cg.funcs@[0].name@ == "__main__"@,
    {
        let main_fn = FuncCode {
            name: "__main__".to_owned(),
            params: Vec::new(),
            ret_ty: Some(VarType::Int),
            insts: Vec::new(),
        };
        let mut funcs: Vec<FuncCode> = Vec::new();
        funcs.push(main_fn);
        CodeGen { funcs, cur: 0 }
    }

    /// Appends one instruction to the function under the cursor and returns
    /// the position of the temporary it produces.
    fn emit(&mut self, inst: Inst) -> (t: usize)
        requires
            old(self).wf(),
        ensures
            final(self).wf(),
            extends(*old(self), *final(self)),
            final(self).cur_fn().insts@ == old(self).cur_fn().insts@.push(inst),
            t as int == old(self).base(),
    {
        let mut fc = self.funcs.remove(self.cur);
        let t = fc.insts.len();
        fc.insts.push(inst);
        self.funcs.insert(self.cur, fc);
        proof {
            assert(self.funcs@ =~= old(self).funcs@.update(
                old(self).cur as int,
                self.funcs@[old(self).cur as int],
            ));
            assert(old(self).cur_fn().insts@.is_prefix_of(self.cur_fn().insts@)) by {
                assert(self.cur_fn().insts@.subrange(0, old(self).cur_fn().insts@.len() as int)
                    =~= old(self).cur_fn().insts@);
            }
        }
        t
    }

    /// The position of the next emitted instruction, executably.
    fn cur_len(&self) -> (n: usize)
        requires
            self.wf(),
        ensures
            n as int == self.base(),
    {
        vstd::slice::slice_index_get(self.funcs.as_slice(), self.cur).insts.len()
    }

    /// Discards every instruction emitted into the function under the cursor
    /// from position `n` on, so a failed lowering leaves no partial emission
    /// behind.
    fn rollback(&mut self, n: usize)
        requires
            old(self).wf(),
            n <= old(self).cur_fn().insts@.len(),
        ensures
            final(self).wf(),
            final(self).funcs@.len() == old(self).funcs@.len(),
            final(self).cur == old(self).cur,
            forall|j: int|
                0 <= j < old(self).funcs@.len() && j != old(self).cur as int
                    ==> final(self).funcs@[j] == old(self).funcs@[j],
            final(self).cur_fn().name == old(self).cur_fn().name,
            final(self).cur_fn().params == old(self).cur_fn().params,
            final(self).cur_fn().ret_ty == old(self).cur_fn().ret_ty,
            final(self).cur_fn().insts@ == old(self).cur_fn().insts@.subrange(0, n as int),
    {
        let mut fc = self.funcs.remove(self.cur);
        fc.insts.truncate(n);
        self.funcs.insert(self.cur, fc);
        proof {
            assert(self.funcs@ =~= old(self).funcs@.update(
                old(self).cur as int,
                self.funcs@[old(self).cur as int],
            ));
        }
    }

    /// Materializes an integer constant: the unsigned magnitude, negated when
    /// the literal is negative, so the minimum representable value survives
    /// the round trip. Returns the temporary holding the value.
    pub fn create_int(&mut self, v: i64) -> (t: usize)
        requires
            old(self).wf(),
        ensures
            final(self).wf(),
            extends(*old(self), *final(self)),
            final(self).cur_fn().insts@ == old(self).cur_fn().insts@ + const_int_insts(
                v,
                old(self).base(),
            ),
            t as int == old(self).base() + const_int_insts(v, old(self).base()).len() - 1,
    {
        let mag: u64 = if v >= 0 {
            v as u64
        } else if v == i64::MIN {
            9223372036854775808u64
        } else {
            (-v) as u64
        };
        assert(mag == mag_of(v));
        let t0 = self.emit(Inst::ConstIntMag(mag));
        if v < 0 {
            let ghost mid = *self;
            let t1 = self.emit(Inst::NegInt(t0));
            proof {
                lemma_extends_trans(*old(self), mid, *self);
                assert(self.cur_fn().insts@ =~= old(self).cur_fn().insts@ + const_int_insts(
                    v,
                    old(self).base(),
                ));
            }
            t1
        } else {
            proof {
                assert(self.cur_fn().insts@ =~= old(self).cur_fn().insts@ + const_int_insts(
                    v,
                    old(self).base(),
                ));
            }
            t0
        }
    }

    /// Materializes a floating constant from its bit pattern.
    pub fn create_float(&mut self, bits: u64) -> (t: usize)
        requires
            old(self).wf(),
        ensures
            final(self).wf(),
            extends(*old(self), *final(self)),
            final(self).cur_fn().insts@ == old(self).cur_fn().insts@.push(Inst::ConstFloat(bits)),
            t as int == old(self).base(),
    {
        self.emit(Inst::ConstFloat(bits))
    }

    /// Materializes a boolean constant.
    pub fn create_bool(&mut self, v: bool) -> (t: usize)
        requires
            old(self).wf(),
        ensures
            final(self).wf(),
            extends(*old(self), *final(self)),
            final(self).cur_fn().insts@ == old(self).cur_fn().insts@.push(Inst::ConstBool(v)),
            t as int == old(self).base(),
    {
        self.emit(Inst::ConstBool(v))
    }

    /// Allocates a fresh typed storage slot in the function under the cursor
    /// and returns the pointer temporary addressing it.
    pub fn alloca(&mut self, t: VarType) -> (p: usize)
        requires
            old(self).wf(),
        ensures
            final(self).wf(),
            extends(*old(self), *final(self)),
            final(self).cur_fn().insts@ == old(self).cur_fn().insts@.push(Inst::Alloca(t)),
            p as int == old(self).base(),
    {
        self.emit(Inst::Alloca(t))
    }
}

/// What evaluating a nested tree beside an integer literal emits, given the
/// nested tree's own emission `n`: the fresh slot, the nested evaluation into
/// it, the load back, the literal, the opcode with the nested value on the
/// left, the store.
pub open spec fn nested_int_insts(n: Seq<Inst>, other: i64, op: BinaryOp, dest: usize, base: int) -> Seq<
    Inst,
> {
    let k = base + 1 + n.len() as int;
    let c = const_int_insts(other, k + 1);
    seq![Inst::Alloca(VarType::Int)] + n + seq![Inst::Load(VarType::Int, base as usize)] + c
        + seq![
        Inst::IntBin(op, k as usize, (k + c.len()) as usize),
        Inst::Store(dest, (k + c.len() + 1) as usize),
    ]
}

/// What evaluating a nested tree beside a floating literal emits, given the
/// nested tree's own emission `n`.
pub open spec fn nested_float_insts(n: Seq<Inst>, x: u64, op: BinaryOp, dest: usize, base: int) -> Seq<
    Inst,
> {
    let k = base + 1 + n.len() as int;
    seq![Inst::Alloca(VarType::Float)] + n + seq![
        Inst::Load(VarType::Float, base as usize),
        Inst::ConstFloat(x),
        Inst::FloatBin(op, k as usize, (k + 1) as usize),
        Inst::Store(dest, (k + 2) as usize),
    ]
}

/// What evaluating two nested trees emits, given each side's own emission:
/// two fresh slots of the common type, both evaluations, both loads, the
/// opcode, the store.
pub open spec fn two_nested_insts(
    nl: Seq<Inst>,
    nr: Seq<Inst>,
    t: VarType,
    op: BinaryOp,
    dest: usize,
    base: int,
) -> Seq<Inst> {
    let m = base + 2 + nl.len() as int;
    let k = m + nr.len() as int;
    seq![Inst::Alloca(t), Inst::Alloca(t)] + nl + nr + seq![
        Inst::Load(t, base as usize),
        Inst::Load(t, (base + 1) as usize),
        if t == VarType::Int {
            Inst::IntBin(op, k as usize, (k + 1) as usize)
        } else {
            Inst::FloatBin(op, k as usize, (k + 1) as usize)
        },
        Inst::Store(dest, (k + 2) as usize),
    ]
}

/// Everything the evaluator emits for an accepted tree into `dest`, with
/// `base` the position of the first emitted instruction. Meaningful when
/// [`eval_ok`] holds of the tree. Kept opaque; the unfolding lemmas below
/// expose one case each.
#[verifier::opaque]
pub open spec fn eval_insts(e: Expr, dest: usize, base: int) -> Seq<Inst>
    decreases e,
{
    match e.inner {
        ExprKind::Binary(l, op, r) => match ((*l).inner, (*r).inner) {
            (ExprKind::Int(a), ExprKind::Int(b)) => int_lit_pair_insts(a, b, op, dest, base),
            (ExprKind::Float(x), ExprKind::Float(y)) => float_lit_pair_insts(x, y, op, dest, base),
            (ExprKind::Binary(..), ExprKind::Int(other)) => nested_int_insts(
                eval_insts(*l, base as usize, base + 1),
                other,
                op,
                dest,
                base,
            ),
            (ExprKind::Int(other), ExprKind::Binary(..)) => nested_int_insts(
                eval_insts(*r, base as usize, base + 1),
                other,
                op,
                dest,
                base,
            ),
            (ExprKind::Binary(..), ExprKind::Float(x)) => nested_float_insts(
                eval_insts(*l, base as usize, base + 1),
                x,
                op,
                dest,
                base,
            ),
            (ExprKind::Float(x), ExprKind::Binary(..)) => nested_float_insts(
                eval_insts(*r, base as usize, base + 1),
                x,
                op,
                dest,
                base,
            ),
            (ExprKind::Binary(..), ExprKind::Binary(..)) => match infer_ty(*l) {
                Some(t) => {
                    let nl = eval_insts(*l, base as usize, base + 2);
                    let nr = eval_insts(*r, (base + 1) as usize, base + 2 + nl.len() as int);
                    two_nested_insts(nl, nr, t, op, dest, base)
                },
                None => Seq::empty(),
            },
            _ => Seq::empty(),
        },
        _ => Seq::empty(),
    }
}

proof fn lemma_eval_insts_int_pair(e: Expr, a: i64, b: i64, op: BinaryOp, dest: usize, base: int)
    requires
        e.inner matches ExprKind::Binary(lb, op0, rb) && op0 == op && (*lb).inner
            == ExprKind::Int(a) && (*rb).inner == ExprKind::Int(b),
    ensures
        eval_insts(e, dest, base) == int_lit_pair_insts(a, b, op, dest, base),
{
    reveal(eval_insts);
}

proof fn lemma_eval_insts_float_pair(e: Expr, x: u64, y: u64, op: BinaryOp, dest: usize, base: int)
    requires
        e.inner matches ExprKind::Binary(lb, op0, rb) && op0 == op && (*lb).inner
            == ExprKind::Float(x) && (*rb).inner == ExprKind::Float(y),
    ensures
        eval_insts(e, dest, base) == float_lit_pair_insts(x, y, op, dest, base),
{
    reveal(eval_insts);
}

proof fn lemma_eval_insts_nested_int(
    e: Expr,
    n_e: Expr,
    other: i64,
    op: BinaryOp,
    lit_left: bool,
    dest: usize,
    base: int,
)
    requires
        lit_left ==> (e.inner matches ExprKind::Binary(lb, op0, rb) && op0 == op && (*lb).inner
            == ExprKind::Int(other) && *rb == n_e && (*rb).inner is Binary),
        !lit_left ==> (e.inner matches ExprKind::Binary(lb, op0, rb) && op0 == op && (*lb).inner
            is Binary && *lb == n_e && (*rb).inner == ExprKind::Int(other)),
    ensures
        eval_insts(e, dest, base) == nested_int_insts(
            eval_insts(n_e, base as usize, base + 1),
            other,
            op,
            dest,
            base,
        ),
{
    reveal(eval_insts);
}

proof fn lemma_eval_insts_nested_float(
    e: Expr,
    n_e: Expr,
    x: u64,
    op: BinaryOp,
    lit_left: bool,
    dest: usize,
    base: int,
)
    requires
        lit_left ==> (e.inner matches ExprKind::Binary(lb, op0, rb) && op0 == op && (*lb).inner
            == ExprKind::Float(x) && *rb == n_e && (*rb).inner is Binary),
        !lit_left ==> (e.inner matches ExprKind::Binary(lb, op0, rb) && op0 == op && (*lb).inner
            is Binary && *lb == n_e && (*rb).inner == ExprKind::Float(x)),
    ensures
        eval_insts(e, dest, base) == nested_float_insts(
            eval_insts(n_e, base as usize, base + 1),
            x,
            op,
            dest,
            base,
        ),
{
    reveal(eval_insts);
}

proof fn lemma_eval_insts_two_nested(e: Expr, t: VarType, op: BinaryOp, dest: usize, base: int)
    requires
        e.inner matches ExprKind::Binary(lb, op0, rb) && op0 == op && (*lb).inner is Binary
            && (*rb).inner is Binary && infer_ty(*lb) == Some(t),
    ensures
        e.inner matches ExprKind::Binary(lb, op0, rb) ==> eval_insts(e, dest, base)
            == two_nested_insts(
            eval_insts(*lb, base as usize, base + 2),
            eval_insts(
                *rb,
                (base + 1) as usize,
                base + 2 + eval_insts(*lb, base as usize, base + 2).len() as int,
            ),
            t,
            op,
            dest,
            base,
        ),
{
    reveal(eval_insts);
}

/// Assembling an emission: pushing and concatenating piecewise equals one
/// concatenation of the pieces. Shape of the nested-tree-beside-an-integer
/// emission.
proof fn lemma_assemble_nested_int(
    o: Seq<Inst>,
    a: Inst,
    n: Seq<Inst>,
    b: Inst,
    c: Seq<Inst>,
    d: Inst,
    s: Inst,
)
    ensures
        ((o.push(a) + n).push(b) + c).push(d).push(s) =~= o + (seq![a] + n + seq![b] + c + seq![
            d,
            s,
        ]),
{
}

/// Shape of the nested-tree-beside-a-float emission.
proof fn lemma_assemble_nested_float(
    o: Seq<Inst>,
    a: Inst,
    n: Seq<Inst>,
    b: Inst,
    c: Inst,
    d: Inst,
    s: Inst,
)
    ensures
        (o.push(a) + n).push(b).push(c).push(d).push(s) =~= o + (seq![a] + n + seq![b, c, d, s]),
{
}

/// Shape of the two-nested-trees emission.
proof fn lemma_assemble_two_nested(
    o: Seq<Inst>,
    a1: Inst,
    a2: Inst,
    nl: Seq<Inst>,
    nr: Seq<Inst>,
    b1: Inst,
    b2: Inst,
    d: Inst,
    s: Inst,
)
    ensures
        ((o.push(a1).push(a2) + nl) + nr).push(b1).push(b2).push(d).push(s) =~= o + (seq![a1, a2]
            + nl + nr + seq![b1, b2, d, s]),
{
}

/// The trees the evaluator lowers: a binary node whose operands are two
/// literals of one scalar type, or a nested binary beside a literal whose
/// type matches the nested subtree's inferred type, or two binaries of one
/// inferred type. Booleans and bare variables are never operands.
pub open spec fn eval_ok(e: Expr) -> bool
    decreases e,
{
    match e.inner {
        ExprKind::Binary(l, _op, r) => {
            if (*l).inner is Int && (*r).inner is Int {
                true
            } else if (*l).inner is Float && (*r).inner is Float {
                true
            } else if (*l).inner is Binary && (*r).inner is Int {
                infer_ty(*l) == Some(VarType::Int) && eval_ok(*l)
            } else if (*l).inner is Int && (*r).inner is Binary {
                infer_ty(*r) == Some(VarType::Int) && eval_ok(*r)
            } else if (*l).inner is Binary && (*r).inner is Float {
                infer_ty(*l) == Some(VarType::Float) && eval_ok(*l)
            } else if (*l).inner is Float && (*r).inner is Binary {
                infer_ty(*r) == Some(VarType::Float) && eval_ok(*r)
            } else if (*l).inner is Binary && (*r).inner is Binary {
                infer_ty(*l) is Some && infer_ty(*r) == infer_ty(*l) && eval_ok(*l) && eval_ok(*r)
            } else {
                false
            }
        },
        _ => false,
    }
}

/// The error the evaluator reports on a tree it does not lower: boolean
/// arithmetic and variable operands are unsupported features, a literal or
/// subtree against the inferred type and every other shape are structural.
pub open spec fn eval_err(e: Expr) -> CgError
    decreases e,
{
    match e.inner {
        ExprKind::Binary(l, _op, r) => {
            if (*l).inner is Int && (*r).inner is Int {
                CgError { kind: CgErrorKind::Shape, span: e.span }
            } else if (*l).inner is Float && (*r).inner is Float {
                CgError { kind: CgErrorKind::Shape, span: e.span }
            } else if (*l).inner is Binary && (*r).inner is Int {
                if infer_ty(*l) is None {
                    infer_err(*l)
                } else if infer_ty(*l) != Some(VarType::Int) {
                    CgError { kind: CgErrorKind::Shape, span: e.span }
                } else {
                    eval_err(*l)
                }
            } else if (*l).inner is Int && (*r).inner is Binary {
                if infer_ty(*r) is None {
                    infer_err(*r)
                } else if infer_ty(*r) != Some(VarType::Int) {
                    CgError { kind: CgErrorKind::Shape, span: e.span }
                } else {
                    eval_err(*r)
                }
            } else if (*l).inner is Binary && (*r).inner is Float {
                if infer_ty(*l) is None {
                    infer_err(*l)
                } else if infer_ty(*l) != Some(VarType::Float) {
                    CgError { kind: CgErrorKind::Shape, span: e.span }
                } else {
                    eval_err(*l)
                }
            } else if (*l).inner is Float && (*r).inner is Binary {
                if infer_ty(*r) is None {
                    infer_err(*r)
                } else if infer_ty(*r) != Some(VarType::Float) {
                    CgError { kind: CgErrorKind::Shape, span: e.span }
                } else {
                    eval_err(*r)
                }
            } else if (*l).inner is Binary && (*r).inner is Binary {
                if infer_ty(*l) is None {
                    infer_err(*l)
                } else if infer_ty(*r) is None {
                    infer_err(*r)
                } else if infer_ty(*r) != infer_ty(*l) {
                    CgError { kind: CgErrorKind::Shape, span: e.span }
                } else if !eval_ok(*l) {
                    eval_err(*l)
                } else {
                    eval_err(*r)
                }
            } else if (*l).inner is Bool || (*r).inner is Bool || (*l).inner is Ident
                || (*r).inner is Ident {
                CgError { kind: CgErrorKind::UnsupportedFeature, span: e.span }
            } else {
                CgError { kind: CgErrorKind::Shape, span: e.span }
            }
        },
        _ => CgError { kind: CgErrorKind::Shape, span: e.span },
    }
}

/// What evaluating two integer literals into `dest` emits: both operands
/// materialized, the opcode applied, the result stored.
pub open spec fn int_lit_pair_insts(a: i64, b: i64, op: BinaryOp, dest: usize, base: int) -> Seq<
    Inst,
> {
    let sa = const_int_insts(a, base);
    let sb = const_int_insts(b, base + sa.len() as int);
    let ta = (base + sa.len() - 1) as usize;
    let tb = (base + sa.len() + sb.len() - 1) as usize;
    let tr = (base + sa.len() + sb.len()) as usize;
    sa + sb + seq![Inst::IntBin(op, ta, tb), Inst::Store(dest, tr)]
}

/// What evaluating two floating literals into `dest` emits.
pub open spec fn float_lit_pair_insts(x: u64, y: u64, op: BinaryOp, dest: usize, base: int) -> Seq<
    Inst,
> {
    seq![
        Inst::ConstFloat(x),
        Inst::ConstFloat(y),
        Inst::FloatBin(op, base as usize, (base + 1) as usize),
        Inst::Store(dest, (base + 2) as usize),
    ]
}

impl CodeGen {
    /// The expression evaluator: lowers a binary tree so that running the
    /// emitted instructions fills the storage slot addressed by the pointer
    /// temporary `dest`, and emits nothing else; the emission is exactly
    /// [`eval_insts`], and a rejected tree leaves the body untouched. Two
    /// same-typed literals are materialized and combined directly; a nested
    /// binary beside a literal is evaluated into a fresh slot of its inferred
    /// type (which must be the literal's type), loaded back and combined with
    /// the literal, the nested value on the left; two binaries are evaluated
    /// into two fresh slots of the type inferred from the left subtree and
    /// combined.
    #[verifier::rlimit(80)]
    pub fn eval(&mut self, e: &Expr, dest: usize) -> (r: Result<(), CgError>)
        requires
            old(self).wf(),
        ensures
            final(self).wf(),
            extends(*old(self), *final(self)),
            r is Ok <==> eval_ok(*e),
            r matches Err(er) ==> er == eval_err(*e),
            r is Err ==> final(self).cur_fn().insts@ == old(self).cur_fn().insts@,
            r is Ok ==> final(self).cur_fn().insts@ == old(self).cur_fn().insts@ + eval_insts(
                *e,
                dest,
                old(self).base(),
            ),
        decreases *e, 2int,
    {
        match &e.inner {
            ExprKind::Binary(l, op0, r) => {
                let op = *op0;
                match (&l.inner, &r.inner) {
                    (ExprKind::Int(a), ExprKind::Int(b)) => {
                        let ta = self.create_int(*a);
                        let ghost c1 = *self;
                        let tb = self.create_int(*b);
                        let ghost c2 = *self;
                        let tv = self.emit(Inst::IntBin(op, ta, tb));
                        let ghost c3 = *self;
                        self.emit(Inst::Store(dest, tv));
                        proof {
                            lemma_extends_trans(*old(self), c1, c2);
                            lemma_extends_trans(*old(self), c2, c3);
                            lemma_extends_trans(*old(self), c3, *self);
                            assert(self.cur_fn().insts@ =~= old(self).cur_fn().insts@
                                + int_lit_pair_insts(*a, *b, op, dest, old(self).base()));
                            lemma_eval_insts_int_pair(*e, *a, *b, op, dest, old(self).base());
                        }
                        Ok(())
                    },
                    (ExprKind::Float(x), ExprKind::Float(y)) => {
                        let ta = self.create_float(*x);
                        let ghost c1 = *self;
                        let tb = self.create_float(*y);
                        let ghost c2 = *self;
                        let tv = self.emit(Inst::FloatBin(op, ta, tb));
                        let ghost c3 = *self;
                        self.emit(Inst::Store(dest, tv));
                        proof {
                            lemma_extends_trans(*old(self), c1, c2);
                            lemma_extends_trans(*old(self), c2, c3);
                            lemma_extends_trans(*old(self), c3, *self);
                            assert(self.cur_fn().insts@ =~= old(self).cur_fn().insts@
                                + float_lit_pair_insts(*x, *y, op, dest, old(self).base()));
                            lemma_eval_insts_float_pair(*e, *x, *y, op, dest, old(self).base());
                        }
                        Ok(())
                    },
                    (ExprKind::Binary(..), ExprKind::Int(_)) => self.eval_nested_int_lit(e, dest),
                    (ExprKind::Int(_), ExprKind::Binary(..)) => self.eval_nested_int_lit(e, dest),
                    (ExprKind::Binary(..), ExprKind::Float(_)) => self.eval_nested_float_lit(
                        e,
                        dest,
                    ),
                    (ExprKind::Float(_), ExprKind::Binary(..)) => self.eval_nested_float_lit(
                        e,
                        dest,
                    ),
                    (ExprKind::Binary(..), ExprKind::Binary(..)) => self.eval_two_nested(e, dest),
                    _ => {
                        if matches!(l.inner, ExprKind::Bool(_)) || matches!(
                            r.inner,
                            ExprKind::Bool(_),
                        ) || matches!(l.inner, ExprKind::Ident(_)) || matches!(
                            r.inner,
                            ExprKind::Ident(_),
                        ) {
                            Err(CgError { kind: CgErrorKind::UnsupportedFeature, span: e.span })
                        } else {
                            Err(CgError { kind: CgErrorKind::Shape, span: e.span })
                        }
                    },
                }
            },
            _ => Err(CgError { kind: CgErrorKind::Shape, span: e.span }),
        }
    }

    /// The evaluator's case of a nested binary beside an integer literal, in
    /// either orientation.
    #[verifier::rlimit(100)]
    fn eval_nested_int_lit(&mut self, e: &Expr, dest: usize) -> (r: Result<(), CgError>)
        requires
            old(self).wf(),
            e.inner matches ExprKind::Binary(lb, op0, rb) && (((*lb).inner is Binary
                && (*rb).inner is Int) || ((*lb).inner is Int && (*rb).inner is Binary)),
        ensures
            final(self).wf(),
            extends(*old(self), *final(self)),
            r is Ok <==> eval_ok(*e),
            r matches Err(er) ==> er == eval_err(*e),
            r is Err ==> final(self).cur_fn().insts@ == old(self).cur_fn().insts@,
            r is Ok ==> final(self).cur_fn().insts@ == old(self).cur_fn().insts@ + eval_insts(
                *e,
                dest,
                old(self).base(),
            ),
        decreases *e, 1int,
    {
        let n0 = self.cur_len();
        match &e.inner {
            ExprKind::Binary(l, op0, r) => {
                let op = *op0;
                match (&l.inner, &r.inner) {
                    (ExprKind::Binary(..), ExprKind::Int(other)) => {
                        let nty = match infer(&**l) {
                            Ok(t) => t,
                            Err(er) => {
                                return Err(er);
                            },
                        };
                        if !matches!(nty, VarType::Int) {
                            return Err(CgError { kind: CgErrorKind::Shape, span: e.span });
                        }
                        let tmp = self.alloca(VarType::Int);
                        let ghost c1 = *self;
                        match self.eval(&**l, tmp) {
                            Ok(()) => {},
                            Err(er) => {
                                proof {
                                    lemma_extends_trans(*old(self), c1, *self);
                                }
                                self.rollback(n0);
                                proof {
                                    assert(self.cur_fn().insts@ =~= old(self).cur_fn().insts@);
                                }
                                return Err(er);
                            },
                        }
                        let ghost c2 = *self;
                        let tl = self.emit(Inst::Load(VarType::Int, tmp));
                        let ghost c3 = *self;
                        let tc = self.create_int(*other);
                        let ghost c4 = *self;
                        let tv = self.emit(Inst::IntBin(op, tl, tc));
                        let ghost c5 = *self;
                        self.emit(Inst::Store(dest, tv));
                        proof {
                            lemma_extends_trans(*old(self), c1, c2);
                            lemma_extends_trans(*old(self), c2, c3);
                            lemma_extends_trans(*old(self), c3, c4);
                            lemma_extends_trans(*old(self), c4, c5);
                            lemma_extends_trans(*old(self), c5, *self);
                            lemma_eval_insts_nested_int(
                                *e,
                                **l,
                                *other,
                                op,
                                false,
                                dest,
                                old(self).base(),
                            );
                            let o = old(self).cur_fn().insts@;
                            let n = eval_insts(**l, tmp, c1.base());
                            let cc = const_int_insts(*other, c3.base());
                            let k = old(self).base() + 1 + n.len() as int;
                            assert(tmp == old(self).base() as usize);
                            assert(c1.base() == old(self).base() + 1);
                            assert(tl as int == k);
                            assert(c3.base() == k + 1);
                            assert(tc as int == k + cc.len());
                            assert(tv as int == k + cc.len() + 1);
                            lemma_assemble_nested_int(
                                o,
                                Inst::Alloca(VarType::Int),
                                n,
                                Inst::Load(VarType::Int, tmp),
                                cc,
                                Inst::IntBin(op, tl, tc),
                                Inst::Store(dest, tv),
                            );
                            assert(self.cur_fn().insts@ == ((o.push(Inst::Alloca(VarType::Int))
                                + n).push(Inst::Load(VarType::Int, tmp)) + cc).push(
                                Inst::IntBin(op, tl, tc),
                            ).push(Inst::Store(dest, tv)));
                            assert(nested_int_insts(n, *other, op, dest, old(self).base())
                                == seq![Inst::Alloca(VarType::Int)] + n + seq![
                                Inst::Load(VarType::Int, tmp),
                            ] + cc + seq![Inst::IntBin(op, tl, tc), Inst::Store(dest, tv)]);
                        }
                        Ok(())
                    },
                    (ExprKind::Int(other), ExprKind::Binary(..)) => {
                        let nty = match infer(&**r) {
                            Ok(t) => t,
                            Err(er) => {
                                return Err(er);
                            },
                        };
                        if !matches!(nty, VarType::Int) {
                            return Err(CgError { kind: CgErrorKind::Shape, span: e.span });
                        }
                        let tmp = self.alloca(VarType::Int);
                        let ghost c1 = *self;
                        match self.eval(&**r, tmp) {
                            Ok(()) => {},
                            Err(er) => {
                                proof {
                                    lemma_extends_trans(*old(self), c1, *self);
                                }
                                self.rollback(n0);
                                proof {
                                    assert(self.cur_fn().insts@ =~= old(self).cur_fn().insts@);
                                }
                                return Err(er);
                            },
                        }
                        let ghost c2 = *self;
                        let tl = self.emit(Inst::Load(VarType::Int, tmp));
                        let ghost c3 = *self;
                        let tc = self.create_int(*other);
                        let ghost c4 = *self;
                        let tv = self.emit(Inst::IntBin(op, tl, tc));
                        let ghost c5 = *self;
                        self.emit(Inst::Store(dest, tv));
                        proof {
                            lemma_extends_trans(*old(self), c1, c2);
                            lemma_extends_trans(*old(self), c2, c3);
                            lemma_extends_trans(*old(self), c3, c4);
                            lemma_extends_trans(*old(self), c4, c5);
                            lemma_extends_trans(*old(self), c5, *self);
                            lemma_eval_insts_nested_int(
                                *e,
                                **r,
                                *other,
                                op,
                                true,
                                dest,
                                old(self).base(),
                            );
                            let o = old(self).cur_fn().insts@;
                            let n = eval_insts(**r, tmp, c1.base());
                            let cc = const_int_insts(*other, c3.base());
                            let k = old(self).base() + 1 + n.len() as int;
                            assert(tmp == old(self).base() as usize);
                            assert(c1.base() == old(self).base() + 1);
                            assert(tl as int == k);
                            assert(c3.base() == k + 1);
                            assert(tc as int == k + cc.len());
                            assert(tv as int == k + cc.len() + 1);
                            lemma_assemble_nested_int(
                                o,
                                Inst::Alloca(VarType::Int),
                                n,
                                Inst::Load(VarType::Int, tmp),
                                cc,
                                Inst::IntBin(op, tl, tc),
                                Inst::Store(dest, tv),
                            );
                            assert(self.cur_fn().insts@ == ((o.push(Inst::Alloca(VarType::Int))
                                + n).push(Inst::Load(VarType::Int, tmp)) + cc).push(
                                Inst::IntBin(op, tl, tc),
                            ).push(Inst::Store(dest, tv)));
                            assert(nested_int_insts(n, *other, op, dest, old(self).base())
                                == seq![Inst::Alloca(VarType::Int)] + n + seq![
                                Inst::Load(VarType::Int, tmp),
                            ] + cc + seq![Inst::IntBin(op, tl, tc), Inst::Store(dest, tv)]);
                        }
                        Ok(())
                    },
                    _ => vstd::pervasive::unreached(),
                }
            },
            _ => vstd::pervasive::unreached(),
        }
    }

    /// The evaluator's case of a nested binary beside a floating literal, in
    /// either orientation.
    #[verifier::rlimit(100)]
    fn eval_nested_float_lit(&mut self, e: &Expr, dest: usize) -> (r: Result<(), CgError>)
        requires
            old(self).wf(),
            e.inner matches ExprKind::Binary(lb, op0, rb) && (((*lb).inner is Binary
                && (*rb).inner is Float) || ((*lb).inner is Float && (*rb).inner is Binary)),
        ensures
            final(self).wf(),
            extends(*old(self), *final(self)),
            r is Ok <==> eval_ok(*e),
            r matches Err(er) ==> er == eval_err(*e),
            r is Err ==> final(self).cur_fn().insts@ == old(self).cur_fn().insts@,
            r is Ok ==> final(self).cur_fn().insts@ == old(self).cur_fn().insts@ + eval_insts(
                *e,
                dest,
                old(self).base(),
            ),
        decreases *e, 1int,
    {
        let n0 = self.cur_len();
        match &e.inner {
            ExprKind::Binary(l, op0, r) => {
                let op = *op0;
                match (&l.inner, &r.inner) {
                    (ExprKind::Binary(..), ExprKind::Float(other)) => {
                        let nty = match infer(&**l) {
                            Ok(t) => t,
                            Err(er) => {
                                return Err(er);
                            },
                        };
                        if !matches!(nty, VarType::Float) {
                            return Err(CgError { kind: CgErrorKind::Shape, span: e.span });
                        }
                        let tmp = self.alloca(VarType::Float);
                        let ghost c1 = *self;
                        match self.eval(&**l, tmp) {
                            Ok(()) => {},
                            Err(er) => {
                                proof {
                                    lemma_extends_trans(*old(self), c1, *self);
                                }
                                self.rollback(n0);
                                proof {
                                    assert(self.cur_fn().insts@ =~= old(self).cur_fn().insts@);
                                }
                                return Err(er);
                            },
                        }
                        let ghost c2 = *self;
                        let tl = self.emit(Inst::Load(VarType::Float, tmp));
                        let ghost c3 = *self;
                        let tc = self.create_float(*other);
                        let ghost c4 = *self;
                        let tv = self.emit(Inst::FloatBin(op, tl, tc));
                        let ghost c5 = *self;
                        self.emit(Inst::Store(dest, tv));
                        proof {
                            lemma_extends_trans(*old(self), c1, c2);
                            lemma_extends_trans(*old(self), c2, c3);
                            lemma_extends_trans(*old(self), c3, c4);
                            lemma_extends_trans(*old(self), c4, c5);
                            lemma_extends_trans(*old(self), c5, *self);
                            lemma_eval_insts_nested_float(
                                *e,
                                **l,
                                *other,
                                op,
                                false,
                                dest,
                                old(self).base(),
                            );
                            let o = old(self).cur_fn().insts@;
                            let n = eval_insts(**l, tmp, c1.base());
                            let k = old(self).base() + 1 + n.len() as int;
                            assert(tmp == old(self).base() as usize);
                            assert(c1.base() == old(self).base() + 1);
                            assert(tl as int == k);
                            assert(tc as int == k + 1);
                            assert(tv as int == k + 2);
                            lemma_assemble_nested_float(
                                o,
                                Inst::Alloca(VarType::Float),
                                n,
                                Inst::Load(VarType::Float, tmp),
                                Inst::ConstFloat(*other),
                                Inst::FloatBin(op, tl, tc),
                                Inst::Store(dest, tv),
                            );
                            assert(self.cur_fn().insts@ == (o.push(Inst::Alloca(VarType::Float))
                                + n).push(Inst::Load(VarType::Float, tmp)).push(
                                Inst::ConstFloat(*other),
                            ).push(Inst::FloatBin(op, tl, tc)).push(Inst::Store(dest, tv)));
                            assert(nested_float_insts(n, *other, op, dest, old(self).base())
                                == seq![Inst::Alloca(VarType::Float)] + n + seq![
                                Inst::Load(VarType::Float, tmp),
                                Inst::ConstFloat(*other),
                                Inst::FloatBin(op, tl, tc),
                                Inst::Store(dest, tv),
                            ]);
                        }
                        Ok(())
                    },
                    (ExprKind::Float(other), ExprKind::Binary(..)) => {
                        let nty = match infer(&**r) {
                            Ok(t) => t,
                            Err(er) => {
                                return Err(er);
                            },
                        };
                        if !matches!(nty, VarType::Float) {
                            return Err(CgError { kind: CgErrorKind::Shape, span: e.span });
                        }
                        let tmp = self.alloca(VarType::Float);
                        let ghost c1 = *self;
                        match self.eval(&**r, tmp) {
                            Ok(()) => {},
                            Err(er) => {
                                proof {
                                    lemma_extends_trans(*old(self), c1, *self);
                                }
                                self.rollback(n0);
                                proof {
                                    assert(self.cur_fn().insts@ =~= old(self).cur_fn().insts@);
                                }
                                return Err(er);
                            },
                        }
                        let ghost c2 = *self;
                        let tl = self.emit(Inst::Load(VarType::Float, tmp));
                        let ghost c3 = *self;
                        let tc = self.create_float(*other);
                        let ghost c4 = *self;
                        let tv = self.emit(Inst::FloatBin(op, tl, tc));
                        let ghost c5 = *self;
                        self.emit(Inst::Store(dest, tv));
                        proof {
                            lemma_extends_trans(*old(self), c1, c2);
                            lemma_extends_trans(*old(self), c2, c3);
                            lemma_extends_trans(*old(self), c3, c4);
                            lemma_extends_trans(*old(self), c4, c5);
                            lemma_extends_trans(*old(self), c5, *self);
                            lemma_eval_insts_nested_float(
                                *e,
                                **r,
                                *other,
                                op,
                                true,
                                dest,
                                old(self).base(),
                            );
                            let o = old(self).cur_fn().insts@;
                            let n = eval_insts(**r, tmp, c1.base());
                            let k = old(self).base() + 1 + n.len() as int;
                            assert(tmp == old(self).base() as usize);
                            assert(c1.base() == old(self).base() + 1);
                            assert(tl as int == k);
                            assert(tc as int == k + 1);
                            assert(tv as int == k + 2);
                            lemma_assemble_nested_float(
                                o,
                                Inst::Alloca(VarType::Float),
                                n,
                                Inst::Load(VarType::Float, tmp),
                                Inst::ConstFloat(*other),
                                Inst::FloatBin(op, tl, tc),
                                Inst::Store(dest, tv),
                            );
                            assert(self.cur_fn().insts@ == (o.push(Inst::Alloca(VarType::Float))
                                + n).push(Inst::Load(VarType::Float, tmp)).push(
                                Inst::ConstFloat(*other),
                            ).push(Inst::FloatBin(op, tl, tc)).push(Inst::Store(dest, tv)));
                            assert(nested_float_insts(n, *other, op, dest, old(self).base())
                                == seq![Inst::Alloca(VarType::Float)] + n + seq![
                                Inst::Load(VarType::Float, tmp),
                                Inst::ConstFloat(*other),
                                Inst::FloatBin(op, tl, tc),
                                Inst::Store(dest, tv),
                            ]);
                        }
                        Ok(())
                    },
                    _ => vstd::pervasive::unreached(),
                }
            },
            _ => vstd::pervasive::unreached(),
        }
    }

    /// The evaluator's case of two nested binaries.
    #[verifier::rlimit(100)]
    fn eval_two_nested(&mut self, e: &Expr, dest: usize) -> (r: Result<(), CgError>)
        requires
            old(self).wf(),
            e.inner matches ExprKind::Binary(lb, op0, rb) && (*lb).inner is Binary
                && (*rb).inner is Binary,
        ensures
            final(self).wf(),
            extends(*old(self), *final(self)),
            r is Ok <==> eval_ok(*e),
            r matches Err(er) ==> er == eval_err(*e),
            r is Err ==> final(self).cur_fn().insts@ == old(self).cur_fn().insts@,
            r is Ok ==> final(self).cur_fn().insts@ == old(self).cur_fn().insts@ + eval_insts(
                *e,
                dest,
                old(self).base(),
            ),
        decreases *e, 1int,
    {
        let n0 = self.cur_len();
        match &e.inner {
            ExprKind::Binary(l, op0, r) => {
                let op = *op0;
                let lt = match infer(&**l) {
                    Ok(t) => t,
                    Err(er) => {
                        return Err(er);
                    },
                };
                let rt = match infer(&**r) {
                    Ok(t) => t,
                    Err(er) => {
                        return Err(er);
                    },
                };
                if lt != rt {
                    return Err(CgError { kind: CgErrorKind::Shape, span: e.span });
                }
                let pl = self.alloca(lt);
                let ghost c1 = *self;
                let pr = self.alloca(lt);
                let ghost c2 = *self;
                match self.eval(&**l, pl) {
                    Ok(()) => {},
                    Err(er) => {
                        proof {
                            lemma_extends_trans(*old(self), c1, c2);
                            lemma_extends_trans(*old(self), c2, *self);
                        }
                        self.rollback(n0);
                        proof {
                            assert(self.cur_fn().insts@ =~= old(self).cur_fn().insts@);
                        }
                        return Err(er);
                    },
                }
                let ghost c3 = *self;
                match self.eval(&**r, pr) {
                    Ok(()) => {},
                    Err(er) => {
                        proof {
                            lemma_extends_trans(*old(self), c1, c2);
                            lemma_extends_trans(*old(self), c2, c3);
                            lemma_extends_trans(*old(self), c3, *self);
                        }
                        self.rollback(n0);
                        proof {
                            assert(self.cur_fn().insts@ =~= old(self).cur_fn().insts@);
                        }
                        return Err(er);
                    },
                }
                let ghost c4 = *self;
                let vl = self.emit(Inst::Load(lt, pl));
                let ghost c5 = *self;
                let vr = self.emit(Inst::Load(lt, pr));
                let ghost c6 = *self;
                let tv = match lt {
                    VarType::Int => self.emit(Inst::IntBin(op, vl, vr)),
                    VarType::Float => self.emit(Inst::FloatBin(op, vl, vr)),
                    VarType::Bool => {
                        proof {
                            crate::ty::lemma_infer_not_bool(**l);
                        }
                        vstd::pervasive::unreached()
                    },
                };
                let ghost c7 = *self;
                self.emit(Inst::Store(dest, tv));
                proof {
                    lemma_extends_trans(*old(self), c1, c2);
                    lemma_extends_trans(*old(self), c2, c3);
                    lemma_extends_trans(*old(self), c3, c4);
                    lemma_extends_trans(*old(self), c4, c5);
                    lemma_extends_trans(*old(self), c5, c6);
                    lemma_extends_trans(*old(self), c6, c7);
                    lemma_extends_trans(*old(self), c7, *self);
                    lemma_eval_insts_two_nested(*e, lt, op, dest, old(self).base());
                    let o = old(self).cur_fn().insts@;
                    let nl = eval_insts(**l, pl, c2.base());
                    let nr = eval_insts(**r, pr, c3.base());
                    let k = old(self).base() + 2 + nl.len() as int + nr.len() as int;
                    assert(pl == old(self).base() as usize);
                    assert(pr == (old(self).base() + 1) as usize);
                    assert(c2.base() == old(self).base() + 2);
                    assert(c3.base() == old(self).base() + 2 + nl.len() as int);
                    assert(vl as int == k);
                    assert(vr as int == k + 1);
                    assert(tv as int == k + 2);
                    let bop = if lt == VarType::Int {
                        Inst::IntBin(op, vl, vr)
                    } else {
                        Inst::FloatBin(op, vl, vr)
                    };
                    lemma_assemble_two_nested(
                        o,
                        Inst::Alloca(lt),
                        Inst::Alloca(lt),
                        nl,
                        nr,
                        Inst::Load(lt, pl),
                        Inst::Load(lt, pr),
                        bop,
                        Inst::Store(dest, tv),
                    );
                    assert(self.cur_fn().insts@ == ((o.push(Inst::Alloca(lt)).push(
                        Inst::Alloca(lt),
                    ) + nl) + nr).push(Inst::Load(lt, pl)).push(Inst::Load(lt, pr)).push(bop).push(
                        Inst::Store(dest, tv),
                    ));
                    assert(two_nested_insts(nl, nr, lt, op, dest, old(self).base()) == seq![
                        Inst::Alloca(lt),
                        Inst::Alloca(lt),
                    ] + nl + nr + seq![
                        Inst::Load(lt, pl),
                        Inst::Load(lt, pr),
                        bop,
                        Inst::Store(dest, tv),
                    ]);
                }
                Ok(())
            },
            _ => vstd::pervasive::unreached(),
        }
    }
}

/// Is a floating literal's bit pattern strictly negative (sign bit set, not
/// the negative zero, not a NaN)? This is the test a negative-initializer
/// check makes on the literal.
pub open spec fn float_bits_is_neg(bits: u64) -> bool {
    &&& bits >= 0x8000000000000000
    &&& bits != 0x8000000000000000
    &&& bits - 0x8000000000000000 <= 0x7FF0000000000000
}

fn float_neg(bits: u64) -> (r: bool)
    ensures
        r == float_bits_is_neg(bits),
{
    bits >= 0x8000000000000000 && bits != 0x8000000000000000 && (bits - 0x8000000000000000)
        <= 0x7FF0000000000000
}

/// The declarations `Let` lowering accepts: a resolvable annotation, and no
/// initializer, or a non-negative integer or floating literal initializer of
/// the annotated type.
pub open spec fn let_ok(ty_bytes: Seq<u8>, value: Option<Box<Expr>>) -> bool {
    match resolve_ty(ty_bytes) {
        None => false,
        Some(t) => match value {
            None => true,
            Some(e) => match (*e).inner {
                ExprKind::Int(i) => i >= 0 && t == VarType::Int,
                ExprKind::Float(bits) => !float_bits_is_neg(bits) && t == VarType::Float,
                _ => false,
            },
        },
    }
}

/// The error `Let` lowering reports: an unresolvable annotation is a
/// configuration error, a negative or binary initializer an unsupported
/// feature, a literal against the annotation or any other initializer shape
/// structural.
pub open spec fn let_err(ty_bytes: Seq<u8>, value: Option<Box<Expr>>, span: Span) -> CgError {
    match resolve_ty(ty_bytes) {
        None => CgError { kind: CgErrorKind::Configuration, span },
        Some(t) => match value {
            None => CgError { kind: CgErrorKind::Shape, span },
            Some(e) => match (*e).inner {
                ExprKind::Int(i) => if i < 0 {
                    CgError { kind: CgErrorKind::UnsupportedFeature, span: (*e).span }
                } else {
                    CgError { kind: CgErrorKind::Shape, span: (*e).span }
                },
                ExprKind::Float(bits) => if float_bits_is_neg(bits) {
                    CgError { kind: CgErrorKind::UnsupportedFeature, span: (*e).span }
                } else {
                    CgError { kind: CgErrorKind::Shape, span: (*e).span }
                },
                ExprKind::Binary(..) => CgError {
                    kind: CgErrorKind::UnsupportedFeature,
                    span: (*e).span,
                },
                _ => CgError { kind: CgErrorKind::Shape, span: (*e).span },
            },
        },
    }
}

/// What lowering an accepted `Let` emits: the slot, and for a literal
/// initializer its materialization and the store.
pub open spec fn let_insts(t: VarType, value: Option<Box<Expr>>, base: int) -> Seq<Inst> {
    match value {
        None => seq![Inst::Alloca(t)],
        Some(e) => match (*e).inner {
            ExprKind::Int(i) => seq![
                Inst::Alloca(t),
                Inst::ConstIntMag(mag_of(i)),
                Inst::Store(base as usize, (base + 1) as usize),
            ],
            ExprKind::Float(bits) => seq![
                Inst::Alloca(t),
                Inst::ConstFloat(bits),
                Inst::Store(base as usize, (base + 1) as usize),
            ],
            _ => seq![Inst::Alloca(t)],
        },
    }
}

/// What lowering an accepted `Return` emits: a bare literal materialized and
/// returned directly; a binary tree evaluated into a fresh slot of its
/// inferred type, loaded back and returned.
pub open spec fn return_insts(v: Option<Box<Expr>>, base: int) -> Seq<Inst> {
    match v {
        None => Seq::empty(),
        Some(e) => match (*e).inner {
            ExprKind::Int(i) => const_int_insts(i, base) + seq![
                Inst::RetVal((base + const_int_insts(i, base).len() - 1) as usize),
            ],
            ExprKind::Float(b) => seq![Inst::ConstFloat(b), Inst::RetVal(base as usize)],
            ExprKind::Bool(b) => seq![Inst::ConstBool(b), Inst::RetVal(base as usize)],
            ExprKind::Binary(..) => match infer_ty(*e) {
                Some(t) => {
                    let n = eval_insts(*e, base as usize, base + 1);
                    let k = base + 1 + n.len() as int;
                    seq![Inst::Alloca(t)] + n + seq![
                        Inst::Load(t, base as usize),
                        Inst::RetVal(k as usize),
                    ]
                },
                None => Seq::empty(),
            },
            _ => Seq::empty(),
        },
    }
}

/// Shape of the binary-return emission.
proof fn lemma_assemble_ret(o: Seq<Inst>, a: Inst, n: Seq<Inst>, b: Inst, c: Inst)
    ensures
        ((o.push(a) + n).push(b)).push(c) =~= o + (seq![a] + n + seq![b, c]),
{
}

/// The operands `Return` lowering accepts: a bare literal, or a binary tree
/// the evaluator lowers.
pub open spec fn return_ok(value: Option<Box<Expr>>) -> bool {
    match value {
        None => false,
        Some(e) => match (*e).inner {
            ExprKind::Binary(..) => infer_ty(*e) is Some && eval_ok(*e),
            ExprKind::Int(_) => true,
            ExprKind::Float(_) => true,
            ExprKind::Bool(_) => true,
            _ => false,
        },
    }
}

/// The error `Return` lowering reports; a bare variable or a missing operand
/// is a structural error.
pub open spec fn return_err(value: Option<Box<Expr>>, span: Span) -> CgError {
    match value {
        None => CgError { kind: CgErrorKind::Shape, span },
        Some(e) => match (*e).inner {
            ExprKind::Binary(..) => if infer_ty(*e) is None {
                infer_err(*e)
            } else {
                eval_err(*e)
            },
            ExprKind::Int(_) => CgError { kind: CgErrorKind::Shape, span },
            ExprKind::Float(_) => CgError { kind: CgErrorKind::Shape, span },
            ExprKind::Bool(_) => CgError { kind: CgErrorKind::Shape, span },
            _ => CgError { kind: CgErrorKind::Shape, span: (*e).span },
        },
    }
}

impl CodeGen {
    /// Lowers a variable declaration: resolves the annotation, allocates the
    /// slot, stores a literal initializer, and binds the name in the frame.
    /// Returns the pointer temporary addressing the slot. A rejected
    /// declaration emits nothing and binds nothing.
    pub fn define_var(
        &mut self,
        frame: &mut Frame,
        var_name: &str,
        var_type: &str,
        var_value: &Option<Box<Expr>>,
        span: Span,
    ) -> (r: Result<usize, CgError>)
        requires
            old(self).wf(),
        ensures
            final(self).wf(),
            extends(*old(self), *final(self)),
            r is Ok <==> let_ok(var_type.spec_bytes(), *var_value),
            r matches Err(er) ==> er == let_err(var_type.spec_bytes(), *var_value, span)
                && *final(frame) == *old(frame),
            r is Err ==> final(self).cur_fn().insts@ == old(self).cur_fn().insts@,
            r matches Ok(slot) ==> slot as int == old(self).base()
                && final(frame)@ == old(frame)@.insert(var_name@, slot),
            resolve_ty(var_type.spec_bytes()) matches Some(t) ==> (r is Ok
                ==> final(self).cur_fn().insts@ == old(self).cur_fn().insts@ + let_insts(
                t,
                *var_value,
                old(self).base(),
            )),
    {
        let n0 = self.cur_len();
        let t = match VarType::from_str(var_type) {
            Some(t) => t,
            None => {
                return Err(CgError { kind: CgErrorKind::Configuration, span });
            },
        };
        let slot = self.alloca(t);
        let ghost c1 = *self;
        match var_value {
            None => {},
            Some(e) => {
                match &e.inner {
                    ExprKind::Int(i) => {
                        if *i < 0 {
                            self.rollback(n0);
                            proof {
                                assert(self.cur_fn().insts@ =~= old(self).cur_fn().insts@);
                            }
                            return Err(
                                CgError { kind: CgErrorKind::UnsupportedFeature, span: e.span },
                            );
                        }
                        if !matches!(t, VarType::Int) {
                            self.rollback(n0);
                            proof {
                                assert(self.cur_fn().insts@ =~= old(self).cur_fn().insts@);
                            }
                            return Err(CgError { kind: CgErrorKind::Shape, span: e.span });
                        }
                        let c = self.emit(Inst::ConstIntMag(*i as u64));
                        let ghost c2 = *self;
                        self.emit(Inst::Store(slot, c));
                        proof {
                            lemma_extends_trans(*old(self), c1, c2);
                            lemma_extends_trans(*old(self), c2, *self);
                            assert(self.cur_fn().insts@ =~= old(self).cur_fn().insts@ + let_insts(
                                t,
                                *var_value,
                                old(self).base(),
                            ));
                        }
                    },
                    ExprKind::Float(bits) => {
                        if float_neg(*bits) {
                            self.rollback(n0);
                            proof {
                                assert(self.cur_fn().insts@ =~= old(self).cur_fn().insts@);
                            }
                            return Err(
                                CgError { kind: CgErrorKind::UnsupportedFeature, span: e.span },
                            );
                        }
                        if !matches!(t, VarType::Float) {
                            self.rollback(n0);
                            proof {
                                assert(self.cur_fn().insts@ =~= old(self).cur_fn().insts@);
                            }
                            return Err(CgError { kind: CgErrorKind::Shape, span: e.span });
                        }
                        let c = self.emit(Inst::ConstFloat(*bits));
                        let ghost c2 = *self;
                        self.emit(Inst::Store(slot, c));
                        proof {
                            lemma_extends_trans(*old(self), c1, c2);
                            lemma_extends_trans(*old(self), c2, *self);
                            assert(self.cur_fn().insts@ =~= old(self).cur_fn().insts@ + let_insts(
                                t,
                                *var_value,
                                old(self).base(),
                            ));
                        }
                    },
                    ExprKind::Binary(..) => {
                        self.rollback(n0);
                        proof {
                            assert(self.cur_fn().insts@ =~= old(self).cur_fn().insts@);
                        }
                        return Err(
                            CgError { kind: CgErrorKind::UnsupportedFeature, span: e.span },
                        );
                    },
                    _ => {
                        self.rollback(n0);
                        proof {
                            assert(self.cur_fn().insts@ =~= old(self).cur_fn().insts@);
                        }
                        return Err(CgError { kind: CgErrorKind::Shape, span: e.span });
                    },
                }
            },
        }
        frame.bind(var_name.to_owned(), slot);
        Ok(slot)
    }

    /// Lowers a return statement: a bare literal is materialized and returned
    /// directly; a binary tree is evaluated into a fresh slot of its inferred
    /// type, loaded back and returned. The emission is exactly
    /// [`return_insts`]; a rejected statement emits nothing.
    pub fn lower_return(&mut self, value: &Option<Box<Expr>>, span: Span) -> (r: Result<
        (),
        CgError,
    >)
        requires
            old(self).wf(),
        ensures
            final(self).wf(),
            extends(*old(self), *final(self)),
            r is Ok <==> return_ok(*value),
            r matches Err(er) ==> er == return_err(*value, span),
            r is Err ==> final(self).cur_fn().insts@ == old(self).cur_fn().insts@,
            r is Ok ==> final(self).cur_fn().insts@ == old(self).cur_fn().insts@ + return_insts(
                *value,
                old(self).base(),
            ),
    {
        let n0 = self.cur_len();
        match value {
            None => Err(CgError { kind: CgErrorKind::Shape, span }),
            Some(e) => match &e.inner {
                ExprKind::Binary(..) => {
                    let ty = match infer(&**e) {
                        Ok(t) => t,
                        Err(er) => {
                            return Err(er);
                        },
                    };
                    let tmp = self.alloca(ty);
                    let ghost c1 = *self;
                    match self.eval(&**e, tmp) {
                        Ok(()) => {},
                        Err(er) => {
                            proof {
                                lemma_extends_trans(*old(self), c1, *self);
                            }
                            self.rollback(n0);
                            proof {
                                assert(self.cur_fn().insts@ =~= old(self).cur_fn().insts@);
                            }
                            return Err(er);
                        },
                    }
                    let ghost c2 = *self;
                    let lv = self.emit(Inst::Load(ty, tmp));
                    let ghost c3 = *self;
                    self.emit(Inst::RetVal(lv));
                    proof {
                        lemma_extends_trans(*old(self), c1, c2);
                        lemma_extends_trans(*old(self), c2, c3);
                        lemma_extends_trans(*old(self), c3, *self);
                        let o = old(self).cur_fn().insts@;
                        let n = eval_insts(**e, tmp, c1.base());
                        let k = old(self).base() + 1 + n.len() as int;
                        assert(tmp == old(self).base() as usize);
                        assert(c1.base() == old(self).base() + 1);
                        assert(lv as int == k);
                        lemma_assemble_ret(
                            o,
                            Inst::Alloca(ty),
                            n,
                            Inst::Load(ty, tmp),
                            Inst::RetVal(lv),
                        );
                        assert(self.cur_fn().insts@ == ((o.push(Inst::Alloca(ty)) + n).push(
                            Inst::Load(ty, tmp),
                        )).push(Inst::RetVal(lv)));
                        assert(return_insts(*value, old(self).base()) == seq![Inst::Alloca(ty)]
                            + n + seq![Inst::Load(ty, tmp), Inst::RetVal(lv)]);
                    }
                    Ok(())
                },
                ExprKind::Int(i) => {
                    let t = self.create_int(*i);
                    let ghost c1 = *self;
                    self.emit(Inst::RetVal(t));
                    proof {
                        lemma_extends_trans(*old(self), c1, *self);
                        assert(self.cur_fn().insts@ =~= old(self).cur_fn().insts@ + return_insts(
                            *value,
                            old(self).base(),
                        ));
                    }
                    Ok(())
                },
                ExprKind::Float(bits) => {
                    let t = self.create_float(*bits);
                    let ghost c1 = *self;
                    self.emit(Inst::RetVal(t));
                    proof {
                        lemma_extends_trans(*old(self), c1, *self);
                        assert(self.cur_fn().insts@ =~= old(self).cur_fn().insts@ + return_insts(
                            *value,
                            old(self).base(),
                        ));
                    }
                    Ok(())
                },
                ExprKind::Bool(v) => {
                    let t = self.create_bool(*v);
                    let ghost c1 = *self;
                    self.emit(Inst::RetVal(t));
                    proof {
                        lemma_extends_trans(*old(self), c1, *self);
                        assert(self.cur_fn().insts@ =~= old(self).cur_fn().insts@ + return_insts(
                            *value,
                            old(self).base(),
                        ));
                    }
                    Ok(())
                },
                _ => Err(CgError { kind: CgErrorKind::Shape, span: e.span }),
            },
        }
    }
}

/// Every parameter annotation of a function resolves.
pub open spec fn params_ok(args: Seq<(String, String)>) -> bool {
    forall|i: int| 0 <= i < args.len() ==> resolve_ty(encode_utf8(args[i].1@)) is Some
}

/// A function signature resolves: every parameter annotation and, if given,
/// the return annotation.
pub open spec fn fn_sig_ok(args: Seq<(String, String)>, ret: Option<String>) -> bool {
    params_ok(args) && match ret {
        Some(s) => resolve_ty(encode_utf8(s@)) is Some,
        None => true,
    }
}

/// The return type a signature resolves to: void when no annotation is given.
pub open spec fn spec_ret_ty(ret: Option<String>) -> Option<VarType> {
    match ret {
        None => None,
        Some(s) => resolve_ty(encode_utf8(s@)),
    }
}

/// What a statement appends to the function under the cursor: a declaration
/// its slot and store, a return its emission; a function definition and an
/// ignored statement kind append nothing there.
pub open spec fn stmt_insts(e: Expr, base: int) -> Seq<Inst> {
    match e.inner {
        ExprKind::Let(_name, ty, val) => match resolve_ty(encode_utf8(ty@)) {
            Some(t) => let_insts(t, val, base),
            None => Seq::empty(),
        },
        ExprKind::Return(v) => return_insts(v, base),
        _ => Seq::empty(),
    }
}

/// What the first `i` statements of a list append, in order, starting at
/// position `base0`.
pub open spec fn stmts_insts_upto(s: Seq<Expr>, i: int, base0: int) -> Seq<Inst>
    decreases i,
{
    if i <= 0 {
        Seq::empty()
    } else {
        let prev = stmts_insts_upto(s, i - 1, base0);
        prev + stmt_insts(s[i - 1], base0 + prev.len() as int)
    }
}

/// The function statements among the first `i` of a list, in order.
pub open spec fn fn_stmts_upto(s: Seq<Expr>, i: int) -> Seq<Expr>
    decreases i,
{
    if i <= 0 {
        Seq::empty()
    } else if s[i - 1].inner is Function {
        fn_stmts_upto(s, i - 1) + seq![s[i - 1]]
    } else {
        fn_stmts_upto(s, i - 1)
    }
}

/// The parameter-reading prologue of a compiled function.
pub open spec fn params_insts(n: int) -> Seq<Inst> {
    Seq::new(n as nat, |i: int| Inst::Param(i as usize))
}

/// A registered function matches its defining statement: the name, the
/// resolved parameter and return types, and the lowered body — the parameter
/// prologue followed by the body statements' emissions.
pub open spec fn fn_matches_stmt(fc: FuncCode, e: Expr) -> bool {
    e.inner matches ExprKind::Function(name, args, ret, body) ==> {
        &&& fc.name@ == name@
        &&& fc.params@.len() == args@.len()
        &&& forall|i: int|
            0 <= i < args@.len() ==> Some(fc.params@[i]) == resolve_ty(encode_utf8(args@[i].1@))
        &&& fc.ret_ty == spec_ret_ty(ret)
        &&& fc.insts@ == params_insts(args@.len() as int) + stmts_insts_upto(
            body@,
            body@.len() as int,
            args@.len() as int,
        )
    }
}

/// The statements accepted inside a function body: declarations and returns;
/// nesting a function beyond one level is unsupported; other expression kinds
/// are ignored.
pub open spec fn inner_stmt_ok(e: Expr) -> bool {
    match e.inner {
        ExprKind::Let(_name, ty, val) => let_ok(encode_utf8(ty@), val),
        ExprKind::Return(v) => return_ok(v),
        ExprKind::Function(..) => false,
        _ => true,
    }
}

/// The error an inner statement reports.
pub open spec fn inner_stmt_err(e: Expr) -> CgError {
    match e.inner {
        ExprKind::Let(_name, ty, val) => let_err(encode_utf8(ty@), val, e.span),
        ExprKind::Return(v) => return_err(v, e.span),
        ExprKind::Function(..) => CgError { kind: CgErrorKind::UnsupportedFeature, span: e.span },
        _ => CgError { kind: CgErrorKind::Shape, span: e.span },
    }
}

/// All inner statements from position `i` on are accepted.
pub open spec fn inner_stmts_ok_from(s: Seq<Expr>, i: int) -> bool
    decreases s.len() - i,
{
    i >= s.len() || (inner_stmt_ok(s[i]) && inner_stmts_ok_from(s, i + 1))
}

/// The first error among the inner statements from position `i` on.
pub open spec fn inner_stmts_err_from(s: Seq<Expr>, i: int) -> CgError
    decreases s.len() - i,
{
    if i < 0 || i >= s.len() {
        CgError { kind: CgErrorKind::Shape, span: Span { start: 0, end: 0 } }
    } else if !inner_stmt_ok(s[i]) {
        inner_stmt_err(s[i])
    } else {
        inner_stmts_err_from(s, i + 1)
    }
}

/// The statements accepted at the top level: as inside a body, and one level
/// of function declarations.
pub open spec fn top_stmt_ok(e: Expr) -> bool {
    match e.inner {
        ExprKind::Let(_name, ty, val) => let_ok(encode_utf8(ty@), val),
        ExprKind::Return(v) => return_ok(v),
        ExprKind::Function(_name, args, ret, body) => fn_sig_ok(args@, ret)
            && inner_stmts_ok_from(body@, 0),
        _ => true,
    }
}

/// The error a top-level statement reports.
pub open spec fn top_stmt_err(e: Expr) -> CgError {
    match e.inner {
        ExprKind::Let(_name, ty, val) => let_err(encode_utf8(ty@), val, e.span),
        ExprKind::Return(v) => return_err(v, e.span),
        ExprKind::Function(_name, args, ret, body) => if !fn_sig_ok(args@, ret) {
            CgError { kind: CgErrorKind::Configuration, span: e.span }
        } else {
            inner_stmts_err_from(body@, 0)
        },
        _ => CgError { kind: CgErrorKind::Shape, span: e.span },
    }
}

/// All top-level statements from position `i` on are accepted.
pub open spec fn top_stmts_ok_from(s: Seq<Expr>, i: int) -> bool
    decreases s.len() - i,
{
    i >= s.len() || (top_stmt_ok(s[i]) && top_stmts_ok_from(s, i + 1))
}

/// The first error among the top-level statements from position `i` on.
pub open spec fn top_stmts_err_from(s: Seq<Expr>, i: int) -> CgError
    decreases s.len() - i,
{
    if i < 0 || i >= s.len() {
        CgError { kind: CgErrorKind::Shape, span: Span { start: 0, end: 0 } }
    } else if !top_stmt_ok(s[i]) {
        top_stmt_err(s[i])
    } else {
        top_stmts_err_from(s, i + 1)
    }
}

impl CodeGen {
    /// Lowers the statements of a function body, in order, against the given
    /// frame, into the function under the cursor. The first failing statement
    /// aborts the rest.
    fn process_body(&mut self, body: &Vec<Expr>, frame: &mut Frame) -> (r: Result<(), CgError>)
        requires
            old(self).wf(),
        ensures
            final(self).wf(),
            extends(*old(self), *final(self)),
            r is Ok <==> inner_stmts_ok_from(body@, 0),
            r matches Err(er) ==> er == inner_stmts_err_from(body@, 0),
            r is Ok ==> final(self).cur_fn().insts@ == old(self).cur_fn().insts@
                + stmts_insts_upto(body@, body@.len() as int, old(self).base()),
            old(frame)@.dom().subset_of(final(frame)@.dom()),
    {
        let mut i: usize = 0;
        proof {
            assert(self.cur_fn().insts@ =~= old(self).cur_fn().insts@ + stmts_insts_upto(
                body@,
                0,
                old(self).base(),
            ));
        }
        while i < body.len()
            invariant
                old(self).wf(),
                self.wf(),
                extends(*old(self), *self),
                i <= body@.len(),
                inner_stmts_ok_from(body@, 0) == inner_stmts_ok_from(body@, i as int),
                !inner_stmts_ok_from(body@, i as int) ==> inner_stmts_err_from(body@, 0)
                    == inner_stmts_err_from(body@, i as int),
                self.cur_fn().insts@ == old(self).cur_fn().insts@ + stmts_insts_upto(
                    body@,
                    i as int,
                    old(self).base(),
                ),
                old(frame)@.dom().subset_of(frame@.dom()),
            decreases body@.len() - i,
        {
            let stmt = slice_index_get(body.as_slice(), i);
            let ghost pre = *self;
            match &stmt.inner {
                ExprKind::Let(nm, ty, val) => {
                    match self.define_var(frame, nm.as_str(), ty.as_str(), val, stmt.span) {
                        Ok(_) => {
                            proof {
                                lemma_extends_trans(*old(self), pre, *self);
                            }
                        },
                        Err(er) => {
                            proof {
                                lemma_extends_trans(*old(self), pre, *self);
                            }
                            return Err(er);
                        },
                    }
                },
                ExprKind::Return(v) => {
                    match self.lower_return(v, stmt.span) {
                        Ok(()) => {
                            proof {
                                lemma_extends_trans(*old(self), pre, *self);
                            }
                        },
                        Err(er) => {
                            proof {
                                lemma_extends_trans(*old(self), pre, *self);
                            }
                            return Err(er);
                        },
                    }
                },
                ExprKind::Function(..) => {
                    return Err(
                        CgError { kind: CgErrorKind::UnsupportedFeature, span: stmt.span },
                    );
                },
                _ => {},
            }
            proof {
                assert(inner_stmt_ok(body@[i as int]));
                let b0 = old(self).base();
                let prev = stmts_insts_upto(body@, i as int, b0);
                assert(stmts_insts_upto(body@, i + 1, b0) == prev + stmt_insts(
                    body@[i as int],
                    b0 + prev.len() as int,
                ));
                assert(self.cur_fn().insts@ =~= old(self).cur_fn().insts@ + stmts_insts_upto(
                    body@,
                    i + 1,
                    b0,
                ));
            }
            i = i + 1;
        }
        Ok(())
    }

    /// The function compiler: resolves the signature, creates the function
    /// and its entry, moves the emission cursor there, binds the parameters
    /// in a snapshot of the enclosing frame, lowers the body, and restores
    /// the cursor to the program-entry function on every exit path. On any
    /// failure the new function is discarded, so no partially lowered
    /// callable is ever registered.
    fn compile_function(
        &mut self,
        name: &String,
        args: &Vec<(String, String)>,
        ret: &Option<String>,
        body: &Vec<Expr>,
        frame: &Frame,
        span: Span,
    ) -> (r: Result<(), CgError>)
        requires
            old(self).wf(),
            old(self).cur == 0,
        ensures
            final(self).wf(),
            final(self).cur == 0,
            final(self).funcs@.len() >= old(self).funcs@.len(),
            forall|j: int|
                0 <= j < old(self).funcs@.len() ==> final(self).funcs@[j] == old(self).funcs@[j],
            r is Ok <==> fn_sig_ok(args@, *ret) && inner_stmts_ok_from(body@, 0),
            r matches Err(er) ==> er == (if !fn_sig_ok(args@, *ret) {
                CgError { kind: CgErrorKind::Configuration, span }
            } else {
                inner_stmts_err_from(body@, 0)
            }),
            r is Err ==> final(self).funcs@ == old(self).funcs@,
            r is Ok ==> final(self).funcs@.len() == old(self).funcs@.len() + 1 && {
                let nf = final(self).funcs@[old(self).funcs@.len() as int];
                &&& nf.name@ == name@
                &&& nf.params@.len() == args@.len()
                &&& forall|i: int|
                    0 <= i < args@.len() ==> Some(nf.params@[i]) == resolve_ty(
                        encode_utf8(args@[i].1@),
                    )
                &&& nf.ret_ty == spec_ret_ty(*ret)
                &&& nf.insts@ == params_insts(args@.len() as int) + stmts_insts_upto(
                    body@,
                    body@.len() as int,
                    args@.len() as int,
                )
            },
    {
        let mut ptys: Vec<VarType> = Vec::new();
        let mut i: usize = 0;
        while i < args.len()
            invariant
                old(self).wf(),
                old(self).cur == 0,
                *self == *old(self),
                i <= args@.len(),
                ptys@.len() == i,
                forall|j: int|
                    0 <= j < i ==> Some(ptys@[j]) == resolve_ty(encode_utf8(args@[j].1@)),
            decreases args@.len() - i,
        {
            let a = slice_index_get(args.as_slice(), i);
            match VarType::from_str(a.1.as_str()) {
                Some(t) => {
                    ptys.push(t);
                },
                None => {
                    proof {
                        assert(!params_ok(args@));
                    }
                    return Err(CgError { kind: CgErrorKind::Configuration, span });
                },
            }
            i = i + 1;
        }
        proof {
            assert(params_ok(args@)) by {
                assert forall|j: int|
                    0 <= j < args@.len() implies resolve_ty(encode_utf8(args@[j].1@)) is Some by {
                    assert(Some(ptys@[j]) == resolve_ty(encode_utf8(args@[j].1@)));
                }
            }
        }
        let rty: Option<VarType> = match ret {
            None => None,
            Some(s) => match VarType::from_str(s.as_str()) {
                Some(t) => Some(t),
                None => {
                    return Err(CgError { kind: CgErrorKind::Configuration, span });
                },
            },
        };
        let ghost gp = ptys@;
        let nf = FuncCode { name: name.clone(), params: ptys, ret_ty: rty, insts: Vec::new() };
        let fidx = self.funcs.len();
        self.funcs.push(nf);
        self.cur = fidx;
        let mut inner = frame.snapshot();
        let mut k: usize = 0;
        proof {
            assert(self.cur_fn().insts@ =~= params_insts(0));
        }
        while k < args.len()
            invariant
                self.cur_fn().insts@ == params_insts(k as int),
                self.wf(),
                self.cur == fidx,
                fidx == old(self).funcs@.len(),
                self.funcs@.len() == old(self).funcs@.len() + 1,
                forall|j: int|
                    0 <= j < old(self).funcs@.len() ==> self.funcs@[j] == old(self).funcs@[j],
                self.cur_fn().name@ == name@,
                self.cur_fn().params@ == gp,
                self.cur_fn().ret_ty == rty,
                gp.len() == args@.len(),
                forall|j: int|
                    0 <= j < args@.len() ==> Some(gp[j]) == resolve_ty(encode_utf8(args@[j].1@)),
                k <= args@.len(),
            decreases args@.len() - k,
        {
            let t = self.emit(Inst::Param(k));
            let a = slice_index_get(args.as_slice(), k);
            inner.bind(a.0.clone(), t);
            proof {
                assert(self.cur_fn().insts@ =~= params_insts(k + 1));
            }
            k = k + 1;
        }
        let ghost mid = *self;
        let res = self.process_body(body, &mut inner);
        self.cur = 0;
        match res {
            Ok(()) => {
                proof {
                    assert(self.funcs@ == mid.funcs@.update(
                        fidx as int,
                        self.funcs@[fidx as int],
                    ));
                    assert(mid.base() == args@.len() as int);
                    assert(self.funcs@[fidx as int].insts@ =~= params_insts(args@.len() as int)
                        + stmts_insts_upto(body@, body@.len() as int, args@.len() as int));
                }
                Ok(())
            },
            Err(er) => {
                self.funcs.truncate(fidx);
                proof {
                    assert(self.funcs@ =~= old(self).funcs@);
                }
                Err(er)
            },
        }
    }

    /// The engine `b` is `a` after lowering exactly the first `k` top-level
    /// statements of `s`: they were accepted, the entry body grew by their
    /// emissions, and one function per function statement among them is
    /// registered, matching its statement.
    pub open spec fn lowered_prefix(s: Seq<Expr>, k: int, a: CodeGen, b: CodeGen) -> bool {
        &&& 0 <= k <= s.len()
        &&& forall|j: int| 0 <= j < k ==> top_stmt_ok(s[j])
        &&& b.funcs@[0].insts@ == a.funcs@[0].insts@ + stmts_insts_upto(
            s,
            k,
            a.funcs@[0].insts@.len() as int,
        )
        &&& b.funcs@.len() == a.funcs@.len() + fn_stmts_upto(s, k).len()
        &&& forall|j: int|
            0 <= j < fn_stmts_upto(s, k).len() ==> fn_matches_stmt(
                b.funcs@[a.funcs@.len() + j],
                fn_stmts_upto(s, k)[j],
            )
    }

    /// The statement driver: iterates the top-level statements under the
    /// given frame, dispatching declarations, function definitions and
    /// returns; any other statement kind is a no-op and emits nothing. The
    /// entry body grows by exactly the statements' emissions and one function
    /// per function statement is registered, matching its statement. The
    /// first failing statement aborts the rest and leaves the engine as the
    /// accepted prefix left it.
    pub fn process(&mut self, ast: &Vec<Expr>, frame: &mut Frame) -> (r: Result<(), CgError>)
        requires
            old(self).wf(),
            old(self).cur == 0,
        ensures
            final(self).wf(),
            final(self).cur == 0,
            final(self).funcs@.len() >= old(self).funcs@.len(),
            fn_code_extends(old(self).funcs@[0], final(self).funcs@[0]),
            forall|j: int|
                1 <= j < old(self).funcs@.len() ==> final(self).funcs@[j] == old(self).funcs@[j],
            r is Ok <==> top_stmts_ok_from(ast@, 0),
            r matches Err(er) ==> er == top_stmts_err_from(ast@, 0),
            r is Ok ==> final(self).funcs@[0].insts@ == old(self).funcs@[0].insts@
                + stmts_insts_upto(
                ast@,
                ast@.len() as int,
                old(self).funcs@[0].insts@.len() as int,
            ),
            r is Ok ==> final(self).funcs@.len() == old(self).funcs@.len() + fn_stmts_upto(
                ast@,
                ast@.len() as int,
            ).len(),
            r is Ok ==> forall|j: int|
                0 <= j < fn_stmts_upto(ast@, ast@.len() as int).len() ==> fn_matches_stmt(
                    final(self).funcs@[old(self).funcs@.len() + j],
                    fn_stmts_upto(ast@, ast@.len() as int)[j],
                ),
            r is Err ==> exists|k: int|
                Self::lowered_prefix(ast@, k, *old(self), *final(self)) && k < ast@.len()
                    && !top_stmt_ok(ast@[k]),
            old(frame)@.dom().subset_of(final(frame)@.dom()),
    {
        let mut i: usize = 0;
        proof {
            assert(self.funcs@[0].insts@ =~= old(self).funcs@[0].insts@ + stmts_insts_upto(
                ast@,
                0,
                old(self).funcs@[0].insts@.len() as int,
            ));
        }
        while i < ast.len()
            invariant
                old(self).wf(),
                old(self).cur == 0,
                self.wf(),
                self.cur == 0,
                self.funcs@.len() >= old(self).funcs@.len(),
                fn_code_extends(old(self).funcs@[0], self.funcs@[0]),
                forall|j: int|
                    1 <= j < old(self).funcs@.len() ==> self.funcs@[j] == old(self).funcs@[j],
                i <= ast@.len(),
                top_stmts_ok_from(ast@, 0) == top_stmts_ok_from(ast@, i as int),
                !top_stmts_ok_from(ast@, i as int) ==> top_stmts_err_from(ast@, 0)
                    == top_stmts_err_from(ast@, i as int),
                forall|j: int| 0 <= j < i ==> top_stmt_ok(ast@[j]),
                self.funcs@[0].insts@ == old(self).funcs@[0].insts@ + stmts_insts_upto(
                    ast@,
                    i as int,
                    old(self).funcs@[0].insts@.len() as int,
                ),
                self.funcs@.len() == old(self).funcs@.len() + fn_stmts_upto(
                    ast@,
                    i as int,
                ).len(),
                forall|j: int|
                    0 <= j < fn_stmts_upto(ast@, i as int).len() ==> fn_matches_stmt(
                        self.funcs@[old(self).funcs@.len() + j],
                        fn_stmts_upto(ast@, i as int)[j],
                    ),
                old(frame)@.dom().subset_of(frame@.dom()),
            decreases ast@.len() - i,
        {
            let stmt = slice_index_get(ast.as_slice(), i);
            let ghost pre = *self;
            match &stmt.inner {
                ExprKind::Let(nm, ty, val) => {
                    match self.define_var(frame, nm.as_str(), ty.as_str(), val, stmt.span) {
                        Ok(_) => {
                            proof {
                                lemma_fn_code_extends_trans(
                                    old(self).funcs@[0],
                                    pre.funcs@[0],
                                    self.funcs@[0],
                                );
                            }
                        },
                        Err(er) => {
                            proof {
                                lemma_fn_code_extends_trans(
                                    old(self).funcs@[0],
                                    pre.funcs@[0],
                                    self.funcs@[0],
                                );
                                assert(Self::lowered_prefix(ast@, i as int, *old(self), *self));
                            }
                            return Err(er);
                        },
                    }
                },
                ExprKind::Return(v) => {
                    match self.lower_return(v, stmt.span) {
                        Ok(()) => {
                            proof {
                                lemma_fn_code_extends_trans(
                                    old(self).funcs@[0],
                                    pre.funcs@[0],
                                    self.funcs@[0],
                                );
                            }
                        },
                        Err(er) => {
                            proof {
                                lemma_fn_code_extends_trans(
                                    old(self).funcs@[0],
                                    pre.funcs@[0],
                                    self.funcs@[0],
                                );
                                assert(Self::lowered_prefix(ast@, i as int, *old(self), *self));
                            }
                            return Err(er);
                        },
                    }
                },
                ExprKind::Function(nm, args, ret, body) => {
                    match self.compile_function(nm, args, ret, body, frame, stmt.span) {
                        Ok(()) => {},
                        Err(er) => {
                            proof {
                                assert(Self::lowered_prefix(ast@, i as int, *old(self), *self));
                            }
                            return Err(er);
                        },
                    }
                },
                _ => {},
            }
            proof {
                assert(top_stmt_ok(ast@[i as int]));
                let b0 = old(self).funcs@[0].insts@.len() as int;
                let prev = stmts_insts_upto(ast@, i as int, b0);
                assert(stmts_insts_upto(ast@, i + 1, b0) == prev + stmt_insts(
                    ast@[i as int],
                    b0 + prev.len() as int,
                ));
                assert(self.funcs@[0].insts@ =~= old(self).funcs@[0].insts@ + stmts_insts_upto(
                    ast@,
                    i + 1,
                    b0,
                ));
                let fprev = fn_stmts_upto(ast@, i as int);
                let fnext = fn_stmts_upto(ast@, i + 1);
                if ast@[i as int].inner is Function {
                    assert(fnext == fprev + seq![ast@[i as int]]);
                } else {
                    assert(fnext == fprev);
                }
                assert forall|j: int| 0 <= j < fnext.len() implies fn_matches_stmt(
                    self.funcs@[old(self).funcs@.len() + j],
                    fnext[j],
                ) by {
                    if j < fprev.len() {
                        assert(fnext[j] == fprev[j]);
                        assert(pre.funcs@.len() == old(self).funcs@.len() + fprev.len());
                        assert(self.funcs@[old(self).funcs@.len() + j] == pre.funcs@[old(
                            self,
                        ).funcs@.len() + j]);
                        assert(fn_matches_stmt(pre.funcs@[old(self).funcs@.len() + j], fprev[j]));
                    } else {
                        assert(fnext[j] == ast@[i as int]);
                    }
                }
            }
            i = i + 1;
        }
        Ok(())
    }

    /// The driver: lowers all top-level statements as the body of the
    /// program-entry function, appends a final return of the integer 0
    /// regardless of what the program computed, and runs the entry function
    /// on the machine. A paused or failed run is handed back in the outcome.
    pub fn jit_run(&mut self, ast: &Vec<Expr>) -> (r: Result<RunOutcome, CgError>)
        requires
            old(self).wf(),
            old(self).cur == 0,
        ensures
            final(self).wf(),
            final(self).cur == 0,
            r is Ok <==> top_stmts_ok_from(ast@, 0),
            r matches Err(er) ==> er == top_stmts_err_from(ast@, 0),
            r is Ok ==> ({
                let b0 = old(self).funcs@[0].insts@.len() as int;
                let emitted = stmts_insts_upto(ast@, ast@.len() as int, b0);
                let b2 = b0 + emitted.len() as int;
                final(self).funcs@[0].insts@ == old(self).funcs@[0].insts@ + emitted + seq![
                    Inst::ConstIntMag(0),
                    Inst::RetVal(b2 as usize),
                ]
            }),
            r is Ok ==> final(self).funcs@.len() == old(self).funcs@.len() + fn_stmts_upto(
                ast@,
                ast@.len() as int,
            ).len(),
            r is Ok ==> forall|j: int|
                0 <= j < fn_stmts_upto(ast@, ast@.len() as int).len() ==> fn_matches_stmt(
                    final(self).funcs@[old(self).funcs@.len() + j],
                    fn_stmts_upto(ast@, ast@.len() as int)[j],
                ),
            r is Err ==> exists|k: int|
                Self::lowered_prefix(ast@, k, *old(self), *final(self)) && k < ast@.len()
                    && !top_stmt_ok(ast@[k]),
            r matches Ok(out) ==> outcome_matches(
                out,
                final(self).funcs@[0].insts@,
                Seq::empty(),
                run_from(
                    final(self).funcs@[0].insts@,
                    Seq::empty(),
                    0,
                    Seq::empty(),
                    Seq::empty(),
                ),
            ),
    {
        let mut frame = Frame::new();
        match self.process(ast, &mut frame) {
            Err(er) => {
                return Err(er);
            },
            Ok(()) => {},
        }
        let ghost p1 = *self;
        let z = self.create_int(0);
        let ghost p2 = *self;
        self.emit(Inst::RetVal(z));
        proof {
            lemma_extends_trans(p1, p2, *self);
            assert(self.funcs@[0].insts@ =~= p1.funcs@[0].insts@ + seq![
                Inst::ConstIntMag(0),
                Inst::RetVal(z),
            ]);
            assert(self.funcs@[0].insts@ =~= old(self).funcs@[0].insts@ + stmts_insts_upto(
                ast@,
                ast@.len() as int,
                old(self).funcs@[0].insts@.len() as int,
            ) + seq![Inst::ConstIntMag(0), Inst::RetVal(z)]);
        }
        let main_fn = slice_index_get(self.funcs.as_slice(), 0);
        let out = run_insts(&main_fn.insts, Vec::new());
        Ok(out)
    }
}

/// The function the name denotes in the table: the latest definition wins.
pub open spec fn fn_lookup(fs: Seq<FuncCode>, key: Seq<char>) -> Option<int>
    decreases fs.len(),
{
    if fs.len() == 0 {
        None
    } else if fs.last().name@ == key {
        Some(fs.len() - 1)
    } else {
        fn_lookup(fs.drop_last(), key)
    }
}

impl CodeGen {
    /// Looks a function up by name.
    pub fn find_fn(&self, name: &String) -> (r: Option<usize>)
        ensures
            match r {
                Some(i) => fn_lookup(self.funcs@, name@) == Some(i as int),
                None => fn_lookup(self.funcs@, name@) is None,
            },
    {
        let mut i = self.funcs.len();
        proof {
            assert(self.funcs@.subrange(0, i as int) =~= self.funcs@);
        }
        while i > 0
            invariant
                i <= self.funcs@.len(),
                fn_lookup(self.funcs@, name@) == fn_lookup(
                    self.funcs@.subrange(0, i as int),
                    name@,
                ),
            decreases i,
        {
            i = i - 1;
            let fc = slice_index_get(self.funcs.as_slice(), i);
            proof {
                assert(self.funcs@.subrange(0, i + 1).drop_last() =~= self.funcs@.subrange(
                    0,
                    i as int,
                ));
                assert(self.funcs@.subrange(0, i + 1).last() == self.funcs@[i as int]);
            }
            if fc.name.eq(name) {
                return Some(i);
            }
        }
        proof {
            assert(self.funcs@.subrange(0, 0) =~= Seq::<FuncCode>::empty());
        }
        None
    }
}

} // verus!
