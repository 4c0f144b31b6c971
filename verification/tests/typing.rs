use std::collections::HashMap;

use lasso::{Key, ThreadedRodeo};
use rue_air::air::{Air, AirInstData};
use rue_air::context::{AnalysisContext, AnalysisResult};
use rue_air::diag::{ErrorKind, PreviewFeatures};
use rue_air::rir::{Inst, InstData, Rir};
use rue_air::sema::Sema;
use rue_air::typing::{ArithOp, CompareOp, LogicOp};
use rue_air::types::{Span, StructDef, Type};

fn intern(rodeo: &mut ThreadedRodeo, s: &str) -> u32 {
    rodeo.get_or_intern(s).into_usize() as u32
}

fn push(rir: &mut Rir, data: InstData, start: u32) -> u32 {
    rir.add_inst(Inst { data, span: Span::new(0, start, start + 1) }).unwrap()
}

fn ctx_with(types: &[(u32, Type)]) -> AnalysisContext {
    let mut resolved = HashMap::new();
    for &(r, t) in types {
        resolved.insert(r, t);
    }
    AnalysisContext::new(HashMap::new(), resolved, Type::Unit)
}

#[test]
fn type_ranges() {
    assert!(Type::I8.literal_fits(127));
    assert!(!Type::I8.literal_fits(128));
    assert!(Type::U8.literal_fits(255));
    assert!(!Type::U8.literal_fits(256));
    assert!(Type::U64.literal_fits(u64::MAX));
    assert!(!Type::Bool.literal_fits(0));
    assert!(Type::I8.negated_literal_fits(128));
    assert!(!Type::I8.negated_literal_fits(129));
    assert!(Type::I64.negated_literal_fits(1u64 << 63));
    assert!(!Type::U32.negated_literal_fits(1));
    assert_eq!(Type::I32.name(), "i32");
    assert_eq!(Type::Unit.name(), "()");
    assert!(Type::U16.is_unsigned() && !Type::U16.is_signed() && Type::U16.is_integer());
}

#[test]
fn literals_take_their_inferred_types() {
    let mut rir = Rir::new();
    let mut rodeo = ThreadedRodeo::new();
    let hello = intern(&mut rodeo, "hello");
    let big = push(&mut rir, InstData::IntConst(300), 0);
    let small = push(&mut rir, InstData::IntConst(3), 2);
    let b = push(&mut rir, InstData::BoolConst(true), 4);
    let s = push(&mut rir, InstData::StringConst(hello), 6);
    let u = push(&mut rir, InstData::UnitConst, 8);
    let untyped = push(&mut rir, InstData::IntConst(1), 10);
    let neg = push(&mut rir, InstData::Neg { operand: small }, 12);
    let mut sema = Sema::new(&rir, rodeo, PreviewFeatures::new());
    sema.type_pool.structs.push(StructDef {
        name: "String".to_string(),
        fields: Vec::new(),
        is_copy: false,
        is_handle: false,
        is_linear: false,
        destructor: None,
        is_builtin: true,
        is_pub: true,
        file_id: 0,
    });
    sema.builtin_string_id = Some(0);
    let mut ctx = ctx_with(&[(big, Type::I8), (small, Type::U8)]);
    let mut air = Air::new(Type::Unit);

    let e = sema.analyze_literal(&mut air, big, &mut ctx).unwrap_err();
    match e.kind {
        ErrorKind::LiteralOutOfRange { value, ty } => assert_eq!((value, ty.as_str()), (300, "i8")),
        other => panic!("unexpected error {:?}", other),
    }
    assert_eq!(e.span, Span::new(0, 0, 1));
    assert_eq!(air.len(), 0);

    let r = sema.analyze_literal(&mut air, small, &mut ctx).unwrap();
    assert_eq!((r.air_ref, r.ty), (0, Type::U8));
    assert_eq!(air.instructions[0].data, AirInstData::IntConst(3));

    let r = sema.analyze_literal(&mut air, b, &mut ctx).unwrap();
    assert_eq!((r.air_ref, r.ty), (1, Type::Bool));

    let r = sema.analyze_literal(&mut air, s, &mut ctx).unwrap();
    assert_eq!((r.air_ref, r.ty), (2, Type::Struct(0)));
    assert_eq!(air.instructions[2].data, AirInstData::StringConst(0));
    assert_eq!(ctx.local_strings, vec!["hello".to_string()]);

    let r = sema.analyze_literal(&mut air, u, &mut ctx).unwrap();
    assert_eq!((r.air_ref, r.ty), (3, Type::Unit));

    let e = sema.analyze_literal(&mut air, untyped, &mut ctx).unwrap_err();
    match e.kind {
        ErrorKind::InternalError(m) => {
            assert_eq!(m, "type inference did not resolve type for integer literal (instruction 5)")
        }
        other => panic!("unexpected error {:?}", other),
    }
    assert!(matches!(sema.analyze_literal(&mut air, neg, &mut ctx).unwrap_err().kind, ErrorKind::InternalError(_)));
    assert_eq!(air.len(), 4);
}

#[test]
fn negation_rules() {
    let mut rir = Rir::new();
    let min8 = push(&mut rir, InstData::IntConst(128), 0);
    let neg = push(&mut rir, InstData::Neg { operand: min8 }, 2);
    let five = push(&mut rir, InstData::IntConst(5), 4);
    let neg_u = push(&mut rir, InstData::Neg { operand: five }, 6);
    let sema = Sema::new(&rir, ThreadedRodeo::new(), PreviewFeatures::new());
    let ctx = ctx_with(&[(neg, Type::I8), (neg_u, Type::U32)]);
    let span = Span::new(0, 2, 3);
    assert_eq!(Sema::negation_type(&ctx, neg, span).unwrap(), Type::I8);
    let e = Sema::negation_type(&ctx, neg_u, span).unwrap_err();
    match e.kind {
        ErrorKind::CannotNegateUnsigned(n) => assert_eq!(n, "u32"),
        other => panic!("unexpected error {:?}", other),
    }
    assert_eq!(e.note.as_deref(), Some("unsigned values cannot be negated"));

    let mut air = Air::new(Type::Unit);
    let folded = sema.fold_negated_min_literal(&mut air, min8, Type::I8, span).unwrap();
    assert_eq!((folded.air_ref, folded.ty), (0, Type::I8));
    assert_eq!(air.instructions[0].data, AirInstData::IntConst((i8::MIN as i64) as u64));
    assert!(sema.fold_negated_min_literal(&mut air, five, Type::I8, span).is_none());
    assert!(sema.fold_negated_min_literal(&mut air, min8, Type::I16, span).is_none());
    assert_eq!(air.len(), 1);
    let operand = AnalysisResult::new(0, Type::I16);
    let r = Sema::analyze_neg(&mut air, operand, Type::I16, span);
    assert_eq!(air.instructions[r.air_ref as usize].data, AirInstData::Neg(0));
}

#[test]
fn bitwise_not_needs_integers() {
    let ctx = ctx_with(&[(0, Type::I32), (1, Type::Bool), (2, Type::Error)]);
    let span = Span::new(0, 0, 1);
    assert_eq!(Sema::bit_not_type(&ctx, 0, span).unwrap(), Type::I32);
    assert_eq!(Sema::bit_not_type(&ctx, 2, span).unwrap(), Type::Error);
    match Sema::bit_not_type(&ctx, 1, span).unwrap_err().kind {
        ErrorKind::TypeMismatch { expected, found } => {
            assert_eq!((expected.as_str(), found.as_str()), ("integer type", "bool"))
        }
        other => panic!("unexpected error {:?}", other),
    }
    let mut air = Air::new(Type::Unit);
    let r = Sema::analyze_bit_not(&mut air, AnalysisResult::new(9, Type::I32), Type::I32, span);
    assert_eq!(air.instructions[r.air_ref as usize].data, AirInstData::BitNot(9));
    let r = Sema::analyze_not(&mut air, AnalysisResult::new(9, Type::Bool), span);
    assert_eq!((r.air_ref, r.ty), (1, Type::Bool));
    assert_eq!(air.instructions[1].data, AirInstData::Not(9));
}

#[test]
fn arithmetic_rules() {
    let mut air = Air::new(Type::Unit);
    let span = Span::new(0, 5, 6);
    let l = AnalysisResult::new(0, Type::I64);
    let r = AnalysisResult::new(1, Type::I64);
    let res = Sema::analyze_binary_arith(&mut air, ArithOp::Mul, l, r, span).unwrap();
    assert_eq!((res.air_ref, res.ty), (0, Type::I64));
    assert_eq!(air.instructions[0].data, AirInstData::Mul(0, 1));
    let res = Sema::analyze_binary_arith(&mut air, ArithOp::Shl, AnalysisResult::new(0, Type::Never), r, span).unwrap();
    assert_eq!(res.ty, Type::Never);
    assert_eq!(air.instructions[1].data, AirInstData::Shl(0, 1));
    let e = Sema::analyze_binary_arith(&mut air, ArithOp::Add, AnalysisResult::new(0, Type::Bool), r, span).unwrap_err();
    match e.kind {
        ErrorKind::TypeMismatch { expected, found } => {
            assert_eq!((expected.as_str(), found.as_str()), ("integer type", "bool"))
        }
        other => panic!("unexpected error {:?}", other),
    }
    assert_eq!(e.span, span);
    assert_eq!(air.len(), 2);
}

#[test]
fn comparison_rules() {
    let mut rir = Rir::new();
    let a = push(&mut rir, InstData::IntConst(1), 0);
    let b = push(&mut rir, InstData::IntConst(2), 2);
    let lt = push(&mut rir, InstData::Lt { lhs: a, rhs: b }, 4);
    let t = push(&mut rir, InstData::BoolConst(true), 6);
    let sema = Sema::new(&rir, ThreadedRodeo::new(), PreviewFeatures::new());
    let span = Span::new(0, 20, 21);
    let e = sema.check_chained_comparison(lt, span).unwrap_err();
    assert!(matches!(e.kind, ErrorKind::ChainedComparison));
    assert_eq!(e.help.as_deref(), Some("use `&&` to combine comparisons: `a < b && b < c`"));
    assert!(sema.check_chained_comparison(a, span).is_ok());

    let mut air = Air::new(Type::Unit);
    let bool_res = AnalysisResult::new(3, Type::Bool);
    let int_res = AnalysisResult::new(4, Type::U8);
    let r = sema.analyze_comparison(&mut air, CompareOp::Eq, t, bool_res, bool_res, span).unwrap();
    assert_eq!((r.air_ref, r.ty), (0, Type::Bool));
    assert_eq!(air.instructions[0].data, AirInstData::Eq(3, 3));
    let r = sema.analyze_comparison(&mut air, CompareOp::Ge, a, int_res, int_res, span).unwrap();
    assert_eq!(air.instructions[r.air_ref as usize].data, AirInstData::Ge(4, 4));
    let e = sema.analyze_comparison(&mut air, CompareOp::Lt, t, bool_res, bool_res, span).unwrap_err();
    match e.kind {
        ErrorKind::TypeMismatch { expected, found } => assert_eq!((expected.as_str(), found.as_str()), ("integer", "bool")),
        other => panic!("unexpected error {:?}", other),
    }
    assert_eq!(e.span, Span::new(0, 6, 7));
    let e = sema
        .analyze_comparison(&mut air, CompareOp::Ne, t, AnalysisResult::new(5, Type::Enum(0)), bool_res, span)
        .unwrap_err();
    match e.kind {
        ErrorKind::TypeMismatch { expected, .. } => assert_eq!(expected, "integer, bool, string, unit, or struct"),
        other => panic!("unexpected error {:?}", other),
    }
    assert_eq!(air.len(), 2);
}

#[test]
fn logical_rules() {
    let mut air = Air::new(Type::Unit);
    let span = Span::new(0, 0, 1);
    let r = Sema::analyze_logical_op(&mut air, LogicOp::Or, AnalysisResult::new(1, Type::Bool), AnalysisResult::new(2, Type::Bool), span);
    assert_eq!((r.air_ref, r.ty), (0, Type::Bool));
    assert_eq!(air.instructions[0].data, AirInstData::Or(1, 2));
}

#[test]
fn comptime_blocks_become_constants() {
    let mut rir = Rir::new();
    let six = push(&mut rir, InstData::IntConst(6), 0);
    let seven = push(&mut rir, InstData::IntConst(7), 1);
    let product = push(&mut rir, InstData::Mul { lhs: six, rhs: seven }, 2);
    let negative = push(&mut rir, InstData::Neg { operand: six }, 3);
    let t = push(&mut rir, InstData::BoolConst(true), 4);
    let u = push(&mut rir, InstData::UnitConst, 5);
    let var = push(&mut rir, InstData::VarRef { name: 0 }, 6);
    let large = push(&mut rir, InstData::IntConst(300), 7);
    let block = 100;
    let mut sema = Sema::new(&rir, ThreadedRodeo::new(), PreviewFeatures::new());
    let span = Span::new(0, 10, 20);
    let ctx = ctx_with(&[(block, Type::U8)]);
    let mut air = Air::new(Type::Unit);

    let r = sema.analyze_comptime_block(&mut air, block, product, span, &ctx).unwrap();
    assert_eq!(r, AnalysisResult::new(0, Type::U8));
    assert_eq!(air.instructions[0].data, AirInstData::IntConst(42));
    let r = sema.analyze_comptime_block(&mut air, block, t, span, &ctx).unwrap();
    assert_eq!((r.air_ref, r.ty), (1, Type::Bool));
    assert_eq!(air.instructions[1].data, AirInstData::BoolConst(true));
    // `()` is not a value compile-time evaluation computes.
    assert!(sema.analyze_comptime_block(&mut air, block, u, span, &ctx).is_err());

    let e = sema.analyze_comptime_block(&mut air, block, negative, span, &ctx).unwrap_err();
    assert_eq!(e.kind, ErrorKind::ComptimeEvaluationFailed { reason: "negative values not yet supported in comptime".to_string() });
    let e = sema.analyze_comptime_block(&mut air, block, var, span, &ctx).unwrap_err();
    assert_eq!(
        e.kind,
        ErrorKind::ComptimeEvaluationFailed {
            reason: "expression contains values that cannot be known at compile time".to_string()
        }
    );
    let e = sema.analyze_comptime_block(&mut air, block, large, span, &ctx).unwrap_err();
    assert_eq!((e.kind, e.span), (ErrorKind::LiteralOutOfRange { value: 300, ty: "u8".to_string() }, span));
    let e = sema.analyze_comptime_block(&mut air, 7, product, span, &ctx).unwrap_err();
    assert_eq!(e.kind, ErrorKind::InternalError("type inference did not resolve type for comptime block (instruction 7)".to_string()));
    assert_eq!(air.instructions.len(), 2);
}
