use dynamik::ast::{BinaryOp, Expr, ExprKind, Span};
use dynamik::diag::{CgErrorKind, RtError};
use dynamik::inst::{Inst, Value};
use dynamik::lower::{CodeGen, Frame};
use dynamik::machine::{resume, run_insts, RunOutcome};
use dynamik::ty::{infer, VarType};

fn sp() -> Span {
    Span { start: 0, end: 0 }
}

fn ex(k: ExprKind) -> Expr {
    Expr { inner: k, span: sp() }
}

fn bx(k: ExprKind) -> Box<Expr> {
    Box::new(ex(k))
}

fn binary(l: ExprKind, op: BinaryOp, r: ExprKind) -> ExprKind {
    ExprKind::Binary(bx(l), op, bx(r))
}

/// Lowers a return of the given expression and runs the entry body.
fn lower_and_run(k: ExprKind) -> RunOutcome {
    let mut cg = CodeGen::new();
    cg.lower_return(&Some(bx(k)), sp()).expect("lowering should succeed");
    run_insts(&cg.funcs[0].insts, Vec::new())
}

fn returned(out: RunOutcome) -> Value {
    match out {
        RunOutcome::Done { ret: Some(v), .. } => v,
        other => panic!("expected a returned value, got {:?}", other),
    }
}

#[test]
fn materialize_min_round_trip() {
    // The minimum value: magnitude first, then the wrapping negation.
    let insts = vec![
        Inst::Alloca(VarType::Int),
        Inst::ConstIntMag(9223372036854775808u64),
        Inst::NegInt(1),
        Inst::Store(0, 2),
        Inst::Load(VarType::Int, 0),
    ];
    match run_insts(&insts, Vec::new()) {
        RunOutcome::Done { temps, mem, .. } => {
            assert_eq!(temps.last(), Some(&Value::IntV(i64::MIN)));
            assert_eq!(mem[0], Value::IntV(i64::MIN));
        }
        other => panic!("unexpected outcome {:?}", other),
    }
}

#[test]
fn materialize_negative_and_positive() {
    for v in [0i64, 1, -1, 42, -42, i64::MAX, i64::MIN, i64::MIN + 1] {
        let mut cg = CodeGen::new();
        cg.create_int(v);
        match run_insts(&cg.funcs[0].insts, Vec::new()) {
            RunOutcome::Done { temps, .. } => {
                assert_eq!(temps.last(), Some(&Value::IntV(v)), "literal {v}");
            }
            other => panic!("unexpected outcome {:?}", other),
        }
    }
}

#[test]
fn int_add_wraps() {
    let out = lower_and_run(binary(ExprKind::Int(i64::MAX), BinaryOp::Add, ExprKind::Int(1)));
    assert_eq!(returned(out), Value::IntV(i64::MIN));
}

#[test]
fn int_sub_wraps() {
    let out = lower_and_run(binary(ExprKind::Int(i64::MIN), BinaryOp::Sub, ExprKind::Int(1)));
    assert_eq!(returned(out), Value::IntV(i64::MAX));
}

#[test]
fn int_mul_wraps() {
    let out = lower_and_run(binary(
        ExprKind::Int(4611686018427387904),
        BinaryOp::Mul,
        ExprKind::Int(4),
    ));
    assert_eq!(returned(out), Value::IntV(0));
    let out = lower_and_run(binary(ExprKind::Int(-7), BinaryOp::Mul, ExprKind::Int(6)));
    assert_eq!(returned(out), Value::IntV(-42));
}

#[test]
fn int_div_truncates() {
    let out = lower_and_run(binary(ExprKind::Int(-7), BinaryOp::Div, ExprKind::Int(2)));
    assert_eq!(returned(out), Value::IntV(-3));
    let out = lower_and_run(binary(ExprKind::Int(7), BinaryOp::Div, ExprKind::Int(2)));
    assert_eq!(returned(out), Value::IntV(3));
}

#[test]
fn div_by_zero_is_reported() {
    for a in [0i64, 5, -7, i64::MIN, i64::MAX] {
        let out = lower_and_run(binary(ExprKind::Int(a), BinaryOp::Div, ExprKind::Int(0)));
        match out {
            RunOutcome::Failed(RtError::DivByZero) => {}
            other => panic!("dividing {a} by zero gave {:?}", other),
        }
    }
}

#[test]
fn div_overflow_trap_is_reported() {
    let out = lower_and_run(binary(ExprKind::Int(i64::MIN), BinaryOp::Div, ExprKind::Int(-1)));
    match out {
        RunOutcome::Failed(RtError::Overflow) => {}
        other => panic!("expected the overflow trap, got {:?}", other),
    }
}

#[test]
fn nested_binary_times_literal() {
    // (2 + 3) * 4 == 20
    let tree = binary(
        binary(ExprKind::Int(2), BinaryOp::Add, ExprKind::Int(3)),
        BinaryOp::Mul,
        ExprKind::Int(4),
    );
    assert_eq!(returned(lower_and_run(tree)), Value::IntV(20));
}

#[test]
fn nested_binary_chain() {
    // (10 - 3) - 2 == 5
    let tree = binary(
        binary(ExprKind::Int(10), BinaryOp::Sub, ExprKind::Int(3)),
        BinaryOp::Sub,
        ExprKind::Int(2),
    );
    assert_eq!(returned(lower_and_run(tree)), Value::IntV(5));
}

#[test]
fn literal_beside_nested_keeps_nested_on_the_left() {
    // The evaluator combines the loaded nested value with the literal, the
    // nested value on the left, in both orientations: 2 ⊕ (10 - 3) is
    // combined as (10 - 3) - 2 == 5.
    let tree = binary(
        ExprKind::Int(2),
        BinaryOp::Sub,
        binary(ExprKind::Int(10), BinaryOp::Sub, ExprKind::Int(3)),
    );
    assert_eq!(returned(lower_and_run(tree)), Value::IntV(5));
}

#[test]
fn binary_on_both_sides() {
    // (2 + 3) * (4 + 5) == 45
    let tree = binary(
        binary(ExprKind::Int(2), BinaryOp::Add, ExprKind::Int(3)),
        BinaryOp::Mul,
        binary(ExprKind::Int(4), BinaryOp::Add, ExprKind::Int(5)),
    );
    assert_eq!(returned(lower_and_run(tree)), Value::IntV(45));
}

#[test]
fn float_literal_multiplication() {
    // 1.5 * 2.0 == 3.0, computed by the caller when the machine pauses.
    let mut cg = CodeGen::new();
    let tree = binary(
        ExprKind::Float(1.5f64.to_bits()),
        BinaryOp::Mul,
        ExprKind::Float(2.0f64.to_bits()),
    );
    cg.lower_return(&Some(bx(tree)), sp()).expect("lowering should succeed");
    let out = run_insts(&cg.funcs[0].insts, Vec::new());
    match out {
        RunOutcome::NeedFloat { op: BinaryOp::Mul, a, b, st } => {
            let x = f64::from_bits(a);
            let y = f64::from_bits(b);
            assert_eq!(x, 1.5);
            assert_eq!(y, 2.0);
            match resume(st, (x * y).to_bits()) {
                RunOutcome::Done { ret: Some(Value::FloatV(bits)), .. } => {
                    assert_eq!(f64::from_bits(bits), 3.0);
                }
                other => panic!("unexpected outcome {:?}", other),
            }
        }
        other => panic!("expected a float pause, got {:?}", other),
    }
}

#[test]
fn float_nested_pauses_twice() {
    // (1.5 * 2.0) + 1.0 == 4.0 across two pauses.
    let tree = binary(
        binary(
            ExprKind::Float(1.5f64.to_bits()),
            BinaryOp::Mul,
            ExprKind::Float(2.0f64.to_bits()),
        ),
        BinaryOp::Add,
        ExprKind::Float(1.0f64.to_bits()),
    );
    let mut cg = CodeGen::new();
    cg.lower_return(&Some(bx(tree)), sp()).expect("lowering should succeed");
    let mut out = run_insts(&cg.funcs[0].insts, Vec::new());
    let mut pauses = 0;
    loop {
        match out {
            RunOutcome::NeedFloat { op, a, b, st } => {
                pauses += 1;
                let x = f64::from_bits(a);
                let y = f64::from_bits(b);
                let r = match op {
                    BinaryOp::Add => x + y,
                    BinaryOp::Sub => x - y,
                    BinaryOp::Mul => x * y,
                    BinaryOp::Div => x / y,
                };
                out = resume(st, r.to_bits());
            }
            RunOutcome::Done { ret: Some(Value::FloatV(bits)), .. } => {
                assert_eq!(pauses, 2);
                assert_eq!(f64::from_bits(bits), 4.0);
                return;
            }
            other => panic!("unexpected outcome {:?}", other),
        }
    }
}

#[test]
fn let_int_initializer_reaches_storage() {
    let mut cg = CodeGen::new();
    let mut frame = Frame::new();
    let slot = cg
        .define_var(&mut frame, "x", "int", &Some(bx(ExprKind::Int(5))), sp())
        .expect("lowering should succeed");
    assert_eq!(frame.get(&String::from("x")), Some(slot));
    match run_insts(&cg.funcs[0].insts, Vec::new()) {
        RunOutcome::Done { temps, mem, .. } => match temps[slot] {
            Value::PtrV(cell) => assert_eq!(mem[cell], Value::IntV(5)),
            other => panic!("slot temporary is {:?}", other),
        },
        other => panic!("unexpected outcome {:?}", other),
    }
}

#[test]
fn let_negative_initializer_is_unsupported() {
    let mut cg = CodeGen::new();
    let mut frame = Frame::new();
    let err = cg
        .define_var(&mut frame, "x", "int", &Some(bx(ExprKind::Int(-5))), sp())
        .expect_err("a negative initializer must fail");
    assert_eq!(err.kind, CgErrorKind::UnsupportedFeature);
    let err = cg
        .define_var(&mut frame, "y", "float", &Some(bx(ExprKind::Float((-2.5f64).to_bits()))), sp())
        .expect_err("a negative initializer must fail");
    assert_eq!(err.kind, CgErrorKind::UnsupportedFeature);
}

#[test]
fn let_float_initializer_reaches_storage() {
    let mut cg = CodeGen::new();
    let mut frame = Frame::new();
    let slot = cg
        .define_var(&mut frame, "f", "FLOAT", &Some(bx(ExprKind::Float(2.5f64.to_bits()))), sp())
        .expect("lowering should succeed");
    match run_insts(&cg.funcs[0].insts, Vec::new()) {
        RunOutcome::Done { temps, mem, .. } => match temps[slot] {
            Value::PtrV(cell) => assert_eq!(mem[cell], Value::FloatV(2.5f64.to_bits())),
            other => panic!("slot temporary is {:?}", other),
        },
        other => panic!("unexpected outcome {:?}", other),
    }
}

#[test]
fn let_errors_by_kind() {
    let mut cg = CodeGen::new();
    let mut frame = Frame::new();
    // unknown annotation
    let err = cg.define_var(&mut frame, "x", "custom", &None, sp()).unwrap_err();
    assert_eq!(err.kind, CgErrorKind::Configuration);
    // literal against the annotation
    let err = cg
        .define_var(&mut frame, "x", "float", &Some(bx(ExprKind::Int(1))), sp())
        .unwrap_err();
    assert_eq!(err.kind, CgErrorKind::Shape);
    // binary initializer
    let err = cg
        .define_var(
            &mut frame,
            "x",
            "int",
            &Some(bx(binary(ExprKind::Int(1), BinaryOp::Add, ExprKind::Int(2)))),
            sp(),
        )
        .unwrap_err();
    assert_eq!(err.kind, CgErrorKind::UnsupportedFeature);
    // boolean initializer shape
    let err = cg
        .define_var(&mut frame, "x", "bool", &Some(bx(ExprKind::Bool(true))), sp())
        .unwrap_err();
    assert_eq!(err.kind, CgErrorKind::Shape);
}

#[test]
fn function_lowering_and_invocation() {
    // let f() -> int { return 10 - 3 }, then invoking f returns 7.
    let ast = vec![ex(ExprKind::Function(
        String::from("f"),
        Vec::new(),
        Some(String::from("int")),
        vec![ex(ExprKind::Return(Some(bx(binary(
            ExprKind::Int(10),
            BinaryOp::Sub,
            ExprKind::Int(3),
        )))))],
    ))];
    let mut cg = CodeGen::new();
    let out = cg.jit_run(&ast).expect("lowering should succeed");
    // the program entry returns the hardcoded exit value 0
    assert_eq!(returned(out), Value::IntV(0));
    let idx = cg.find_fn(&String::from("f")).expect("f should be in the table");
    assert_eq!(cg.funcs[idx].ret_ty, Some(VarType::Int));
    let out = run_insts(&cg.funcs[idx].insts, Vec::new());
    assert_eq!(returned(out), Value::IntV(7));
}

#[test]
fn function_parameters_are_bound() {
    let ast = vec![ex(ExprKind::Function(
        String::from("g"),
        vec![(String::from("a"), String::from("int")), (String::from("b"), String::from("Bool"))],
        None,
        Vec::new(),
    ))];
    let mut cg = CodeGen::new();
    cg.jit_run(&ast).expect("lowering should succeed");
    let idx = cg.find_fn(&String::from("g")).unwrap();
    assert_eq!(cg.funcs[idx].params, vec![VarType::Int, VarType::Bool]);
    assert_eq!(cg.funcs[idx].ret_ty, None);
}

#[test]
fn nested_function_is_unsupported() {
    let inner = ex(ExprKind::Function(String::from("h"), Vec::new(), None, Vec::new()));
    let ast = vec![ex(ExprKind::Function(
        String::from("f"),
        Vec::new(),
        None,
        vec![inner],
    ))];
    let mut cg = CodeGen::new();
    let err = cg.jit_run(&ast).unwrap_err();
    assert_eq!(err.kind, CgErrorKind::UnsupportedFeature);
}

#[test]
fn unknown_parameter_annotation_is_configuration() {
    let ast = vec![ex(ExprKind::Function(
        String::from("f"),
        vec![(String::from("a"), String::from("matrix"))],
        None,
        Vec::new(),
    ))];
    let mut cg = CodeGen::new();
    let err = cg.jit_run(&ast).unwrap_err();
    assert_eq!(err.kind, CgErrorKind::Configuration);
}

#[test]
fn bool_arithmetic_is_rejected() {
    let mut cg = CodeGen::new();
    let err = cg
        .lower_return(
            &Some(bx(binary(ExprKind::Bool(true), BinaryOp::Add, ExprKind::Bool(false)))),
            sp(),
        )
        .expect_err("boolean arithmetic must fail");
    assert_eq!(err.kind, CgErrorKind::UnsupportedFeature);
}

#[test]
fn variable_operands_are_rejected() {
    let mut cg = CodeGen::new();
    let err = cg
        .lower_return(
            &Some(bx(binary(
                ExprKind::Ident(String::from("x")),
                BinaryOp::Add,
                ExprKind::Int(1),
            ))),
            sp(),
        )
        .expect_err("variable operands must fail");
    assert_eq!(err.kind, CgErrorKind::UnsupportedFeature);
}

#[test]
fn returning_a_bare_variable_is_structural() {
    let mut cg = CodeGen::new();
    let err = cg
        .lower_return(&Some(bx(ExprKind::Ident(String::from("x")))), sp())
        .unwrap_err();
    assert_eq!(err.kind, CgErrorKind::Shape);
    let err = cg.lower_return(&None, sp()).unwrap_err();
    assert_eq!(err.kind, CgErrorKind::Shape);
}

#[test]
fn mixed_literal_types_are_structural() {
    let mut cg = CodeGen::new();
    let err = cg
        .lower_return(
            &Some(bx(binary(
                ExprKind::Int(1),
                BinaryOp::Add,
                ExprKind::Float(1.0f64.to_bits()),
            ))),
            sp(),
        )
        .unwrap_err();
    assert_eq!(err.kind, CgErrorKind::Shape);
}

#[test]
fn literal_against_inferred_type_is_structural() {
    // (1 + 2) is an integer subtree; combining it with a float literal is
    // the mismatch the evaluator reports rather than lowering blindly.
    let mut cg = CodeGen::new();
    let err = cg
        .lower_return(
            &Some(bx(binary(
                binary(ExprKind::Int(1), BinaryOp::Add, ExprKind::Int(2)),
                BinaryOp::Add,
                ExprKind::Float(1.0f64.to_bits()),
            ))),
            sp(),
        )
        .unwrap_err();
    assert_eq!(err.kind, CgErrorKind::Shape);
}

#[test]
fn type_annotations_resolve_case_insensitively() {
    assert_eq!(VarType::from_str("int"), Some(VarType::Int));
    assert_eq!(VarType::from_str("INT"), Some(VarType::Int));
    assert_eq!(VarType::from_str("Float"), Some(VarType::Float));
    assert_eq!(VarType::from_str("bOoL"), Some(VarType::Bool));
    assert_eq!(VarType::from_str("custom"), None);
    assert_eq!(VarType::from_str(""), None);
    assert_eq!(VarType::from_str("ints"), None);
}

#[test]
fn inference_prefers_int_then_float_then_left() {
    // an immediate Int literal wins over a float subtree
    let t = infer(&ex(binary(
        binary(
            ExprKind::Float(1.0f64.to_bits()),
            BinaryOp::Mul,
            ExprKind::Float(2.0f64.to_bits()),
        ),
        BinaryOp::Mul,
        ExprKind::Int(1),
    )))
    .unwrap();
    assert_eq!(t, VarType::Int);
    // with two binaries, the left subtree decides
    let t = infer(&ex(binary(
        binary(ExprKind::Int(1), BinaryOp::Add, ExprKind::Int(2)),
        BinaryOp::Add,
        binary(
            ExprKind::Float(1.0f64.to_bits()),
            BinaryOp::Mul,
            ExprKind::Float(2.0f64.to_bits()),
        ),
    )))
    .unwrap();
    assert_eq!(t, VarType::Int);
    // no literal anchor
    let err = infer(&ex(binary(
        ExprKind::Ident(String::from("x")),
        BinaryOp::Add,
        ExprKind::Ident(String::from("y")),
    )))
    .unwrap_err();
    assert_eq!(err.kind, CgErrorKind::UnsupportedFeature);
}

#[test]
fn top_level_statements_run_in_the_entry_function() {
    // A top-level return overrides nothing: it ends the entry body before
    // the appended exit value.
    let ast = vec![ex(ExprKind::Return(Some(bx(binary(
        ExprKind::Int(2),
        BinaryOp::Mul,
        ExprKind::Int(21),
    )))))];
    let mut cg = CodeGen::new();
    let out = cg.jit_run(&ast).expect("lowering should succeed");
    assert_eq!(returned(out), Value::IntV(42));
}

#[test]
fn other_statement_kinds_are_ignored() {
    let ast = vec![
        ex(ExprKind::Int(7)),
        ex(ExprKind::Bool(true)),
        ex(ExprKind::Ident(String::from("x"))),
    ];
    let mut cg = CodeGen::new();
    let out = cg.jit_run(&ast).expect("no-op statements lower fine");
    assert_eq!(returned(out), Value::IntV(0));
}

#[test]
fn frame_snapshot_is_not_live() {
    let mut frame = Frame::new();
    frame.bind(String::from("a"), 1);
    let mut snap = frame.snapshot();
    snap.bind(String::from("b"), 2);
    frame.bind(String::from("c"), 3);
    assert_eq!(frame.get(&String::from("a")), Some(1));
    assert_eq!(frame.get(&String::from("b")), None);
    assert_eq!(frame.get(&String::from("c")), Some(3));
    assert_eq!(snap.get(&String::from("a")), Some(1));
    assert_eq!(snap.get(&String::from("b")), Some(2));
    assert_eq!(snap.get(&String::from("c")), None);
}

#[test]
fn frame_rebinding_shadows() {
    let mut frame = Frame::new();
    frame.bind(String::from("x"), 4);
    frame.bind(String::from("x"), 9);
    assert_eq!(frame.get(&String::from("x")), Some(9));
}

#[test]
fn later_function_definition_wins() {
    let mk = |ret: i64| {
        ex(ExprKind::Function(
            String::from("f"),
            Vec::new(),
            Some(String::from("int")),
            vec![ex(ExprKind::Return(Some(bx(ExprKind::Int(ret)))))],
        ))
    };
    let ast = vec![mk(1), mk(2)];
    let mut cg = CodeGen::new();
    cg.jit_run(&ast).expect("lowering should succeed");
    let idx = cg.find_fn(&String::from("f")).unwrap();
    let out = run_insts(&cg.funcs[idx].insts, Vec::new());
    assert_eq!(returned(out), Value::IntV(2));
}

#[test]
fn empty_program_returns_zero() {
    let mut cg = CodeGen::new();
    let out = cg.jit_run(&Vec::new()).expect("an empty program lowers");
    assert_eq!(returned(out), Value::IntV(0));
}

#[test]
fn top_level_float_return_pauses_the_driver() {
    let ast = vec![ex(ExprKind::Return(Some(bx(binary(
        ExprKind::Float(8.0f64.to_bits()),
        BinaryOp::Div,
        ExprKind::Float(2.0f64.to_bits()),
    )))))];
    let mut cg = CodeGen::new();
    let out = cg.jit_run(&ast).expect("lowering should succeed");
    match out {
        RunOutcome::NeedFloat { op: BinaryOp::Div, a, b, st } => {
            let r = f64::from_bits(a) / f64::from_bits(b);
            match resume(st, r.to_bits()) {
                RunOutcome::Done { ret: Some(Value::FloatV(bits)), .. } => {
                    assert_eq!(f64::from_bits(bits), 4.0);
                }
                other => panic!("unexpected outcome {:?}", other),
            }
        }
        other => panic!("expected a float pause, got {:?}", other),
    }
}

#[test]
fn let_without_initializer_leaves_storage_unset() {
    let mut cg = CodeGen::new();
    let mut frame = Frame::new();
    let slot = cg
        .define_var(&mut frame, "b", "bool", &None, sp())
        .expect("lowering should succeed");
    match run_insts(&cg.funcs[0].insts, Vec::new()) {
        RunOutcome::Done { temps, mem, .. } => match temps[slot] {
            Value::PtrV(cell) => assert_eq!(mem[cell], Value::Unit),
            other => panic!("slot temporary is {:?}", other),
        },
        other => panic!("unexpected outcome {:?}", other),
    }
}

#[test]
fn loading_unset_storage_is_stuck() {
    let insts = vec![Inst::Alloca(VarType::Bool), Inst::Load(VarType::Bool, 0)];
    match run_insts(&insts, Vec::new()) {
        RunOutcome::Stuck => {}
        other => panic!("expected a stuck run, got {:?}", other),
    }
}

#[test]
fn find_fn_misses_unknown_names() {
    let cg = CodeGen::new();
    assert_eq!(cg.find_fn(&String::from("missing")), None);
    assert!(cg.find_fn(&String::from("__main__")).is_some());
}

#[test]
fn function_parameters_reach_the_machine() {
    let insts = vec![Inst::Param(0), Inst::Param(1), Inst::IntBin(BinaryOp::Add, 0, 1), Inst::RetVal(2)];
    let out = run_insts(&insts, vec![Value::IntV(40), Value::IntV(2)]);
    assert_eq!(returned(out), Value::IntV(42));
}

#[test]
fn failed_statement_leaves_no_partial_emission() {
    // A rejected declaration rolls its allocation back.
    let mut cg = CodeGen::new();
    let mut frame = Frame::new();
    let before = cg.funcs[0].insts.len();
    cg.define_var(&mut frame, "x", "int", &Some(bx(ExprKind::Int(-5))), sp())
        .expect_err("a negative initializer must fail");
    assert_eq!(cg.funcs[0].insts.len(), before);
    // A rejected return with a boolean operand emits nothing either.
    cg.lower_return(
        &Some(bx(binary(ExprKind::Bool(true), BinaryOp::Add, ExprKind::Bool(false)))),
        sp(),
    )
    .expect_err("boolean arithmetic must fail");
    assert_eq!(cg.funcs[0].insts.len(), before);
}

#[test]
fn failed_function_is_not_registered() {
    // "f" lowers; "g" fails in its body, so only "f" stays in the table and
    // the earlier statements' work is kept.
    let good = ex(ExprKind::Function(
        String::from("f"),
        Vec::new(),
        Some(String::from("int")),
        vec![ex(ExprKind::Return(Some(bx(ExprKind::Int(1)))))],
    ));
    let bad = ex(ExprKind::Function(
        String::from("g"),
        Vec::new(),
        None,
        vec![ex(ExprKind::Return(Some(bx(ExprKind::Ident(String::from("x"))))))],
    ));
    let mut cg = CodeGen::new();
    let err = cg.jit_run(&vec![good, bad]).unwrap_err();
    assert_eq!(err.kind, CgErrorKind::Shape);
    assert_eq!(cg.funcs.len(), 2);
    assert!(cg.find_fn(&String::from("f")).is_some());
    assert_eq!(cg.find_fn(&String::from("g")), None);
}
