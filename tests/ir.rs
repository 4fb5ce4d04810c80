use apint::BitWidth;
use cwe_ir::{
    BinOpType, Bitvector, Blk, ByteSize, CastOpType, DatatypeProperties, Def, Expression, IrError, Jmp, Program,
    Project, Sub, Term, Tid, UnOpType, Value, Variable, Violation,
};

fn bv(width: u64, value: u64) -> Bitvector {
    Bitvector::new(width, value).unwrap()
}

fn var(name: &str, bytes: u64) -> Variable {
    Variable::new(name.to_string(), ByteSize::new(bytes), false)
}

fn tid(name: &str) -> Tid {
    Tid::new(name.to_string(), 0x1000)
}

fn properties(pointer: u64) -> DatatypeProperties {
    DatatypeProperties {
        char_size: ByteSize::new(1),
        double_size: ByteSize::new(8),
        float_size: ByteSize::new(4),
        integer_size: ByteSize::new(4),
        long_double_size: ByteSize::new(16),
        long_long_size: ByteSize::new(8),
        long_size: ByteSize::new(8),
        pointer_size: ByteSize::new(pointer),
        short_size: ByteSize::new(2),
    }
}

fn ret_jmp(name: &str) -> Term<Jmp> {
    Term { tid: tid(name), term: Jmp::Return(Expression::Var(var("LR", 8))) }
}

fn block(name: &str, defs: Vec<Term<Def>>, jmps: Vec<Term<Jmp>>) -> Term<Blk> {
    Term { tid: tid(name), term: Blk { defs, jmps } }
}

fn sub(name: &str, entry: &str, blocks: Vec<Term<Blk>>) -> Term<Sub> {
    Term { tid: tid(name), term: Sub { name: name.to_string(), blocks, entry: tid(entry) } }
}

fn project(subs: Vec<Term<Sub>>, entry: &str) -> Project {
    Project {
        program: Term { tid: tid("program"), term: Program { subs, entry_point: tid(entry) } },
        datatype_properties: properties(8),
        register_size: ByteSize::new(8),
        big_endian: false,
    }
}

#[test]
fn check_bit_to_byte_conversion() {
    let bits: BitWidth = BitWidth::new(8).unwrap();
    let bytes: ByteSize = bits.into();
    assert_eq!(u64::from(bytes), 1);
    let bits: BitWidth = bytes.to_bit_width().unwrap();
    assert_eq!(bits.to_usize(), 8);

    assert_eq!(ByteSize::new(2).as_bit_length(), 16);
}

#[test]
fn byte_size_example_conversions() {
    assert_eq!(ByteSize::new(1).to_bits(), 8);
    assert_eq!(ByteSize::from_bits(13), ByteSize::new(2));
    assert_eq!(ByteSize::from_bits(0), ByteSize::new(0));
    assert_eq!(ByteSize::from(7u64), ByteSize::new(7));
}

#[test]
fn byte_size_and_apint_bit_widths() {
    assert_eq!(ByteSize::from_bit_width(BitWidth::new(13).unwrap()), ByteSize::new(2));
    assert_eq!(ByteSize::from(BitWidth::new(1).unwrap()), ByteSize::new(1));
    assert_eq!(ByteSize::new(4).to_bit_width().unwrap().to_usize(), 32);
    assert_eq!(ByteSize::new(0).to_bit_width().err(), Some(IrError::ConstructionError));
}

#[test]
fn byte_size_round_trips() {
    for b in [0u64, 1, 5, 1 << 40] {
        let size = ByteSize::new(b);
        assert_eq!(ByteSize::from_bits(size.to_bits()), size);
    }
    assert_eq!(ByteSize::from_bits(12).to_bits(), 16);
    assert_eq!(ByteSize::from_bits(16).to_bits(), 16);
    assert_eq!(ByteSize::from_bits(u64::MAX).0, (u64::MAX / 8) + 1);
}

#[test]
fn byte_size_more_arithmetic() {
    assert_eq!(ByteSize::new(3).checked_mul(ByteSize::new(4)), Some(ByteSize::new(12)));
    assert_eq!(ByteSize::new(u64::MAX).checked_mul(ByteSize::new(2)), None);
    assert_eq!(ByteSize::new(13).checked_div(ByteSize::new(4)), Some(ByteSize::new(3)));
    assert_eq!(ByteSize::new(13).checked_div(ByteSize::new(0)), None);
    assert_eq!(ByteSize::new(13).checked_rem(ByteSize::new(4)), Some(ByteSize::new(1)));
    assert_eq!(ByteSize::new(13).checked_rem(ByteSize::new(0)), None);
    assert_eq!(ByteSize::new(3).checked_shl(2), Some(ByteSize::new(12)));
    assert_eq!(ByteSize::new(3).checked_shl(63), None);
    assert_eq!(ByteSize::new(3).checked_shl(64), None);
    assert_eq!(ByteSize::new(13).shr(2), ByteSize::new(3));
    assert_eq!(ByteSize::new(13).shr(64), ByteSize::new(0));
}

#[test]
fn byte_size_checked_arithmetic() {
    assert_eq!(ByteSize::new(3).checked_add(ByteSize::new(4)), Some(ByteSize::new(7)));
    assert_eq!(ByteSize::new(u64::MAX).checked_add(ByteSize::new(1)), None);
    assert_eq!(ByteSize::new(3).checked_sub(ByteSize::new(4)), None);
    assert_eq!(ByteSize::new(4).checked_sub(ByteSize::new(3)), Some(ByteSize::new(1)));
}

#[test]
fn bitvector_new_masks_to_width() {
    assert_eq!(bv(8, 0x1ff), Bitvector { width: 8, value: 0xff });
    assert_eq!(bv(64, u64::MAX).value, u64::MAX);
    assert_eq!(Bitvector::new(0, 1), Err(IrError::ConstructionError));
    assert_eq!(Bitvector::new(65, 1), Err(IrError::ConstructionError));
    assert!(bv(16, 0).is_zero());
}

#[test]
fn bitvector_arithmetic_keeps_width() {
    let x = bv(32, 0xffff_ffff);
    let y = bv(32, 1);
    for op in [
        BinOpType::IntAdd,
        BinOpType::IntSub,
        BinOpType::IntMult,
        BinOpType::IntDiv,
        BinOpType::IntSDiv,
        BinOpType::IntRem,
        BinOpType::IntSRem,
        BinOpType::IntAnd,
        BinOpType::IntOr,
        BinOpType::IntXor,
    ] {
        assert_eq!(x.bin_op(op, &y).unwrap().width, 32);
    }
    assert_eq!(x.bin_op(BinOpType::IntAdd, &y), Ok(bv(32, 0)));
    assert_eq!(y.bin_op(BinOpType::IntSub, &x), Ok(bv(32, 2)));
    assert_eq!(x.bin_op(BinOpType::IntMult, &x), Ok(bv(32, 1)));
    assert_eq!(bv(64, u64::MAX).bin_op(BinOpType::IntMult, &bv(64, 2)), Ok(bv(64, u64::MAX - 1)));
    assert_eq!(bv(8, 0x0f).bin_op(BinOpType::IntXor, &bv(8, 0xff)), Ok(bv(8, 0xf0)));
    assert_eq!(bv(8, 0x0f).bin_op(BinOpType::IntOr, &bv(8, 0xf0)), Ok(bv(8, 0xff)));
    assert_eq!(bv(8, 0x3c).bin_op(BinOpType::IntAnd, &bv(8, 0x0f)), Ok(bv(8, 0x0c)));
}

#[test]
fn bitvector_width_mismatch() {
    let x = bv(32, 5);
    let y = bv(16, 5);
    assert_eq!(x.bin_op(BinOpType::IntAdd, &y), Err(IrError::WidthMismatch));
    assert_eq!(x.bin_op(BinOpType::IntEqual, &y), Err(IrError::WidthMismatch));
    assert_eq!(x.bin_op(BinOpType::IntDiv, &bv(16, 0)), Err(IrError::WidthMismatch));
    assert_eq!(x.bin_op(BinOpType::IntLeft, &bv(8, 1)), Ok(bv(32, 10)));
}

#[test]
fn bitvector_division_by_zero() {
    let zero = bv(16, 0);
    for op in [BinOpType::IntDiv, BinOpType::IntSDiv, BinOpType::IntRem, BinOpType::IntSRem] {
        assert_eq!(bv(16, 1234).bin_op(op, &zero), Err(IrError::DivisionByZero));
    }
}

#[test]
fn bitvector_signed_division() {
    let minus_seven = bv(8, 0xf9);
    let two = bv(8, 2);
    assert_eq!(minus_seven.bin_op(BinOpType::IntSDiv, &two), Ok(bv(8, 0xfd)));
    assert_eq!(minus_seven.bin_op(BinOpType::IntSRem, &two), Ok(bv(8, 0xff)));
    assert_eq!(minus_seven.bin_op(BinOpType::IntDiv, &two), Ok(bv(8, 0x7c)));
    assert_eq!(minus_seven.bin_op(BinOpType::IntRem, &two), Ok(bv(8, 1)));
    assert_eq!(bv(8, 0x80).bin_op(BinOpType::IntSDiv, &bv(8, 0xff)), Ok(bv(8, 0x80)));
    assert_eq!(bv(8, 7).bin_op(BinOpType::IntSDiv, &bv(8, 0xfe)), Ok(bv(8, 0xfd)));
}

#[test]
fn bitvector_shifts() {
    assert_eq!(bv(8, 0x81).bin_op(BinOpType::IntLeft, &bv(8, 1)), Ok(bv(8, 0x02)));
    assert_eq!(bv(8, 0x80).bin_op(BinOpType::IntRight, &bv(32, 7)), Ok(bv(8, 1)));
    assert_eq!(bv(8, 0x80).bin_op(BinOpType::IntRight, &bv(8, 8)), Ok(bv(8, 0)));
    assert_eq!(bv(64, 1).bin_op(BinOpType::IntLeft, &bv(64, 63)), Ok(bv(64, 1 << 63)));
    assert_eq!(bv(8, 0x80).bin_op(BinOpType::IntSRight, &bv(8, 1)), Ok(bv(8, 0xc0)));
    assert_eq!(bv(8, 0xf9).bin_op(BinOpType::IntSRight, &bv(8, 1)), Ok(bv(8, 0xfc)));
    assert_eq!(bv(8, 0x40).bin_op(BinOpType::IntSRight, &bv(8, 1)), Ok(bv(8, 0x20)));
    assert_eq!(bv(8, 0x81).bin_op(BinOpType::IntSRight, &bv(16, 200)), Ok(bv(8, 0xff)));
    assert_eq!(bv(8, 0x7f).bin_op(BinOpType::IntSRight, &bv(8, 9)), Ok(bv(8, 0)));
    assert_eq!(bv(64, 1 << 63).bin_op(BinOpType::IntSRight, &bv(64, 63)), Ok(bv(64, u64::MAX)));
    assert_eq!(bv(8, 0x81).bin_op(BinOpType::IntRotLeft, &bv(8, 1)), Ok(bv(8, 0x03)));
    assert_eq!(bv(8, 0x81).bin_op(BinOpType::IntRotRight, &bv(8, 1)), Ok(bv(8, 0xc0)));
    assert_eq!(bv(8, 0x81).bin_op(BinOpType::IntRotLeft, &bv(8, 8)), Ok(bv(8, 0x81)));
    assert_eq!(bv(8, 0x12).bin_op(BinOpType::IntRotRight, &bv(8, 12)), Ok(bv(8, 0x21)));
    assert_eq!(bv(64, 1 << 63).bin_op(BinOpType::IntRotLeft, &bv(64, 1)), Ok(bv(64, 1)));
}

#[test]
fn bitvector_comparisons() {
    let minus_one = bv(8, 0xff);
    let one = bv(8, 1);
    assert_eq!(minus_one.bin_op(BinOpType::IntSLess, &one), Ok(bv(1, 1)));
    assert_eq!(minus_one.bin_op(BinOpType::IntLess, &one), Ok(bv(1, 0)));
    assert_eq!(one.bin_op(BinOpType::IntLessEqual, &one), Ok(bv(1, 1)));
    assert_eq!(one.bin_op(BinOpType::IntSLessEqual, &minus_one), Ok(bv(1, 0)));
    assert_eq!(one.bin_op(BinOpType::IntEqual, &one), Ok(bv(1, 1)));
    assert_eq!(one.bin_op(BinOpType::IntNotEqual, &one), Ok(bv(1, 0)));
}

#[test]
fn bitvector_unary_operations() {
    assert_eq!(bv(8, 0x0f).un_op(UnOpType::IntNegate), bv(8, 0xf0));
    assert_eq!(bv(8, 1).un_op(UnOpType::Int2Comp), bv(8, 0xff));
    assert_eq!(bv(8, 0).un_op(UnOpType::Int2Comp), bv(8, 0));
    assert_eq!(bv(64, 0).un_op(UnOpType::IntNegate), bv(64, u64::MAX));
}

#[test]
fn bitvector_casts_and_pieces() {
    assert_eq!(bv(8, 0x80).cast(CastOpType::IntSExt, 16), Ok(bv(16, 0xff80)));
    assert_eq!(bv(8, 0x80).cast(CastOpType::IntZExt, 16), Ok(bv(16, 0x0080)));
    assert_eq!(bv(8, 0x7f).cast(CastOpType::IntSExt, 64), Ok(bv(64, 0x7f)));
    assert_eq!(bv(16, 0x1234).cast(CastOpType::Trunc, 8), Ok(bv(8, 0x34)));
    assert_eq!(bv(16, 0x1234).cast(CastOpType::IntZExt, 8), Err(IrError::WidthMismatch));
    assert_eq!(bv(8, 1).cast(CastOpType::Trunc, 16), Err(IrError::WidthMismatch));
    assert_eq!(bv(8, 1).cast(CastOpType::IntZExt, 0), Err(IrError::ConstructionError));
    assert_eq!(bv(16, 0x1234).subpiece(8, 8), Ok(bv(8, 0x12)));
    assert_eq!(bv(16, 0x1234).subpiece(12, 8), Err(IrError::WidthMismatch));
}

#[test]
fn sub_register_construction() {
    let al = Variable::new_sub_register("AL".to_string(), ByteSize::new(1), 0, 8, 64).unwrap();
    assert_eq!(al.sub_register.unwrap().width, 8);
    assert!(Variable::new_sub_register("AH".to_string(), ByteSize::new(1), 60, 8, 64).is_err());
    assert_eq!(
        Variable::new_sub_register("X".to_string(), ByteSize::new(1), 0, 0, 64).err(),
        Some(IrError::ConstructionError)
    );
    assert_eq!(var("RAX", 8), var("RAX", 8));
    assert_ne!(var("RAX", 8), var("RAX", 4));
}

fn add(lhs: Expression, rhs: Expression) -> Expression {
    Expression::BinOp { op: BinOpType::IntAdd, lhs: Box::new(lhs), rhs: Box::new(rhs) }
}

#[test]
fn expression_width_inference() {
    let e = add(Expression::Var(var("EAX", 4)), Expression::Const(bv(32, 3)));
    assert_eq!(e.bit_width(), Ok(32));
    let bad = add(Expression::Var(var("EAX", 4)), Expression::Const(bv(16, 3)));
    assert_eq!(bad.bit_width(), Err(IrError::WidthMismatch));
    let cmp = Expression::BinOp {
        op: BinOpType::IntSLess,
        lhs: Box::new(Expression::Var(var("EAX", 4))),
        rhs: Box::new(Expression::Const(bv(32, 0))),
    };
    assert_eq!(cmp.bit_width(), Ok(1));
    let cast = Expression::Cast { op: CastOpType::IntSExt, size: ByteSize::new(8), arg: Box::new(cmp) };
    assert_eq!(cast.bit_width(), Ok(64));
    let piece = Expression::Subpiece {
        low_byte: ByteSize::new(2),
        size: ByteSize::new(2),
        arg: Box::new(Expression::Var(var("EAX", 4))),
    };
    assert_eq!(piece.bit_width(), Ok(16));
    let ite = Expression::IfThenElse {
        condition: Box::new(Expression::Const(bv(1, 1))),
        then_expr: Box::new(Expression::Const(bv(8, 1))),
        else_expr: Box::new(Expression::Const(bv(16, 1))),
    };
    assert_eq!(ite.bit_width(), Err(IrError::WidthMismatch));
    let unknown = Expression::Unknown { description: "stack".to_string(), size: ByteSize::new(0) };
    assert_eq!(unknown.bit_width(), Err(IrError::ConstructionError));
}

#[test]
fn expression_evaluation_matches_inferred_width() {
    let e = Expression::IfThenElse {
        condition: Box::new(Expression::BinOp {
            op: BinOpType::IntLess,
            lhs: Box::new(Expression::Var(var("EAX", 4))),
            rhs: Box::new(Expression::Const(bv(32, 10))),
        }),
        then_expr: Box::new(add(Expression::Var(var("EAX", 4)), Expression::Const(bv(32, 1)))),
        else_expr: Box::new(Expression::Subpiece {
            low_byte: ByteSize::new(0),
            size: ByteSize::new(4),
            arg: Box::new(Expression::Var(var("RBX", 8))),
        }),
    };
    assert_eq!(e.bit_width(), Ok(32));
    let env = vec![(var("EAX", 4), bv(32, 4)), (var("RBX", 8), bv(64, 0x1_0000_0007))];
    assert_eq!(e.evaluate(&env), Ok(Value::Known(bv(32, 5))));
    let env = vec![(var("EAX", 4), bv(32, 40)), (var("RBX", 8), bv(64, 0x1_0000_0007))];
    assert_eq!(e.evaluate(&env), Ok(Value::Known(bv(32, 7))));
    assert_eq!(e.evaluate(&vec![]), Ok(Value::Unknown(32)));
}

#[test]
fn expression_evaluation_errors() {
    let div = Expression::BinOp {
        op: BinOpType::IntDiv,
        lhs: Box::new(Expression::Var(var("EAX", 4))),
        rhs: Box::new(Expression::Const(bv(32, 0))),
    };
    let env = vec![(var("EAX", 4), bv(32, 4))];
    assert_eq!(div.evaluate(&env), Err(IrError::DivisionByZero));
    let wrong = vec![(var("EAX", 4), bv(16, 4))];
    assert_eq!(div.evaluate(&wrong), Err(IrError::WidthMismatch));
    let unknown = Expression::UnOp {
        op: UnOpType::Int2Comp,
        arg: Box::new(Expression::Unknown { description: "load".to_string(), size: ByteSize::new(2) }),
    };
    assert_eq!(unknown.evaluate(&env), Ok(Value::Unknown(16)));
    let shadowed = vec![(var("EAX", 4), bv(32, 1)), (var("EAX", 4), bv(32, 9))];
    assert_eq!(cwe_ir::lookup(&shadowed, &var("EAX", 4)), Some(bv(32, 9)));
}

fn call_project() -> Project {
    let call = Term {
        tid: tid("a_call"),
        term: Jmp::Call { target: tid("b_entry"), return_: Some(tid("a_ret")) },
    };
    let a = sub("A", "a_entry", vec![
        block("a_entry", vec![], vec![call]),
        block("a_ret", vec![], vec![ret_jmp("a_ret_jmp")]),
    ]);
    let b = sub("B", "b_entry", vec![block(
        "b_entry",
        vec![Term {
            tid: tid("b_def"),
            term: Def::Assign { var: var("RAX", 8), value: Expression::Const(bv(64, 0)) },
        }],
        vec![ret_jmp("b_ret_jmp")],
    )]);
    project(vec![a, b], "A")
}

#[test]
fn call_between_functions_verifies_and_resolves() {
    let p = call_project();
    assert!(p.verify().is_empty());
    let program = &p.program.term;
    let a = &program.subs[program.find_sub(&tid("A")).unwrap()].term;
    let entry = &a.blocks[a.find_block(&a.entry).unwrap()];
    match &entry.term.jmps[0].term {
        Jmp::Call { target, return_ } => {
            assert_eq!(program.call_destination(target), Ok(tid("b_entry")));
            let back = a.find_block(return_.as_ref().unwrap()).unwrap();
            assert_eq!(a.blocks[back].tid, tid("a_ret"));
        },
        _ => panic!("expected a call"),
    }
    assert_eq!(program.call_destination(&tid("B")), Ok(tid("b_entry")));
    let steps = program.successors(&entry.term.jmps[0].term);
    assert_eq!(steps, vec![tid("b_entry"), tid("a_ret")]);
    let b = &program.subs[program.find_sub(&tid("B")).unwrap()].term;
    let b_entry = &b.blocks[b.find_block(&steps[0]).unwrap()];
    assert!(program.successors(&b_entry.term.jmps[0].term).is_empty());
    let back = &a.blocks[a.find_block(&steps[1]).unwrap()];
    assert_eq!(back.tid, tid("a_ret"));
    let dangling = Jmp::Call { target: tid("nowhere"), return_: Some(tid("a_ret")) };
    assert_eq!(program.successors(&dangling), vec![tid("a_ret")]);
    assert_eq!(program.successors(&Jmp::Branch(tid("x"))), vec![tid("x")]);
    assert_eq!(program.call_destination(&tid("C")), Err(IrError::LookupError));
    assert_eq!(program.call_destination(&tid("a_ret")), Err(IrError::LookupError));
    assert_eq!(a.find_block(&tid("b_entry")), Err(IrError::LookupError));
}

#[test]
fn block_without_jump_is_reported() {
    let p = project(vec![sub("A", "a", vec![block("a", vec![], vec![])])], "A");
    let report = p.verify();
    assert_eq!(report.len(), 1);
    assert!(matches!(&report[0], Violation::NoJump(t) if *t == tid("a")));
}

#[test]
fn conditional_branch_without_fallthrough_is_reported() {
    let cbranch = Term {
        tid: tid("cb"),
        term: Jmp::CBranch { target: tid("a"), condition: Expression::Const(bv(1, 1)) },
    };
    let p = project(vec![sub("A", "a", vec![block("a", vec![], vec![cbranch])])], "A");
    let report = p.verify();
    assert_eq!(report.len(), 1);
    assert!(matches!(&report[0], Violation::MissingFallthrough(t) if *t == tid("a")));

    let cbranch = Term {
        tid: tid("cb"),
        term: Jmp::CBranch { target: tid("a"), condition: Expression::Const(bv(1, 1)) },
    };
    let fall = Term { tid: tid("fall"), term: Jmp::Branch(tid("a")) };
    let p = project(vec![sub("A", "a", vec![block("a", vec![], vec![cbranch, fall])])], "A");
    assert!(p.verify().is_empty());
}

#[test]
fn project_defects_are_all_reported() {
    let dangling = Term { tid: tid("j"), term: Jmp::Branch(tid("nowhere")) };
    let bad_def = Term {
        tid: tid("d"),
        term: Def::Assign { var: var("EAX", 4), value: Expression::Const(bv(16, 0)) },
    };
    let bad_cond = Term {
        tid: tid("c"),
        term: Jmp::CBranch { target: tid("x"), condition: Expression::Const(bv(8, 1)) },
    };
    let fall = Term { tid: tid("f"), term: Jmp::Branch(tid("x")) };
    let mut p = project(
        vec![
            sub("A", "missing", vec![block("x", vec![bad_def], vec![dangling]), block("x", vec![], vec![bad_cond, fall])]),
            sub("A", "y", vec![block("y", vec![], vec![ret_jmp("r")])]),
        ],
        "Z",
    );
    p.datatype_properties = properties(4);
    let report = p.verify();
    assert_eq!(report.len(), 10);
    assert!(matches!(report[0], Violation::PointerSizeMismatch));
    assert!(matches!(&report[1], Violation::InvalidEntry(t) if *t == tid("program")));
    assert!(matches!(&report[2], Violation::InvalidEntry(t) if *t == tid("A")));
    assert!(matches!(&report[3], Violation::IllTyped { term, error: IrError::WidthMismatch } if *term == tid("d")));
    assert!(matches!(&report[4], Violation::DanglingTarget { jmp, target } if *jmp == tid("j") && *target == tid("nowhere")));
    assert!(matches!(&report[5], Violation::DuplicateTid(t) if *t == tid("x")));
    assert!(matches!(&report[6], Violation::IllTyped { term, error: IrError::WidthMismatch } if *term == tid("c")));
    assert!(matches!(&report[7], Violation::UnreachableBlock(t) if *t == tid("x")));
    assert!(matches!(&report[8], Violation::UnreachableBlock(t) if *t == tid("x")));
    assert!(matches!(&report[9], Violation::DuplicateTid(t) if *t == tid("A")));
}

#[test]
fn tids_compare_by_full_identifier() {
    assert_eq!(Tid::new("a".to_string(), 1), Tid::with_sub_index("a".to_string(), 1, 0));
    assert_ne!(Tid::new("a".to_string(), 1), Tid::with_sub_index("a".to_string(), 1, 1));
    assert_ne!(Tid::new("a".to_string(), 1), Tid::new("a".to_string(), 2));
    assert_eq!(Tid::new("a".to_string(), 1).duplicate(), Tid::new("a".to_string(), 1));
}

#[test]
fn unreachable_blocks_are_reported() {
    let call = Term { tid: tid("call"), term: Jmp::Call { target: tid("A"), return_: Some(tid("after")) } };
    let p = project(
        vec![sub("A", "start", vec![
            block("start", vec![], vec![Term { tid: tid("j1"), term: Jmp::Branch(tid("middle")) }]),
            block("orphan", vec![], vec![Term { tid: tid("j2"), term: Jmp::Branch(tid("start")) }]),
            block("middle", vec![], vec![call]),
            block("after", vec![], vec![ret_jmp("j3")]),
            block("island", vec![], vec![Term { tid: tid("j4"), term: Jmp::Branch(tid("island")) }]),
        ])],
        "A",
    );
    let report = p.verify();
    assert_eq!(report.len(), 2);
    assert!(matches!(&report[0], Violation::UnreachableBlock(t) if *t == tid("orphan")));
    assert!(matches!(&report[1], Violation::UnreachableBlock(t) if *t == tid("island")));
}

#[test]
fn variable_sizes_must_agree_within_a_term() {
    let store = Def::Store { address: Expression::Var(var("RSP", 8)), value: Expression::Var(var("RSP", 4)) };
    assert_eq!(store.type_error(), Some(IrError::WidthMismatch));
    let assign = Def::Assign {
        var: var("EAX", 4),
        value: add(Expression::Var(var("EAX", 4)), Expression::Var(var("EBX", 4))),
    };
    assert_eq!(assign.type_error(), None);
    let ret = Jmp::Return(Expression::Subpiece {
        low_byte: ByteSize::new(0),
        size: ByteSize::new(4),
        arg: Box::new(add(Expression::Var(var("LR", 8)), Expression::Cast {
            op: CastOpType::IntZExt,
            size: ByteSize::new(8),
            arg: Box::new(Expression::Var(var("LR", 4))),
        })),
    });
    assert_eq!(ret.type_error(), Some(IrError::WidthMismatch));
    let mut vs = Vec::new();
    let sum = add(Expression::Var(var("A", 1)), Expression::Var(var("B", 1)));
    sum.collect_vars(&mut vs);
    assert_eq!(vs.len(), 2);
    assert!(cwe_ir::sizes_consistent(&vs));
}

#[test]
fn wide_variables_are_typed_in_bits() {
    let xmm = Expression::Var(var("XMM0", 16));
    assert_eq!(xmm.bit_width(), Ok(128));
    let bad = Def::Assign { var: var("XMM0", 16), value: Expression::Const(bv(64, 1)) };
    assert_eq!(bad.type_error(), Some(IrError::WidthMismatch));
    let widened = Expression::Cast {
        op: CastOpType::IntZExt,
        size: ByteSize::new(16),
        arg: Box::new(Expression::Const(bv(64, 1))),
    };
    assert_eq!(widened.bit_width(), Ok(128));
    assert_eq!(widened.evaluate(&vec![]), Ok(Value::Unknown(128)));
    let good = Def::Assign { var: var("XMM0", 16), value: widened };
    assert_eq!(good.type_error(), None);
    let low = Expression::Subpiece { low_byte: ByteSize::new(8), size: ByteSize::new(8), arg: Box::new(xmm) };
    assert_eq!(low.bit_width(), Ok(64));
    assert_eq!(low.evaluate(&vec![]), Ok(Value::Unknown(64)));
    let huge = Expression::Unknown { description: "huge".to_string(), size: ByteSize::new(u64::MAX) };
    assert_eq!(huge.bit_width(), Err(IrError::ConstructionError));
}
