use std::collections::HashMap;

use lasso::{Key, ThreadedRodeo};
use rue_air::air::{Air, AirInstData};
use rue_air::arrays::{emit_array_init, emit_index_set};
use rue_air::context::{AnalysisContext, AnalysisResult, LocalVar, ParamInfo, ParamMode};
use rue_air::diag::{ErrorKind, PreviewFeatures};
use rue_air::moves::VariableMoveState;
use rue_air::rir::{Inst, InstData, Rir};
use rue_air::sema::Sema;
use rue_air::types::{ArrayDef, Span, Type};
use rue_air::variables::AssignTarget;

fn intern(rodeo: &mut ThreadedRodeo, s: &str) -> u32 {
    rodeo.get_or_intern(s).into_usize() as u32
}

fn push(rir: &mut Rir, data: InstData, at: u32) -> u32 {
    rir.add_inst(Inst { data, span: Span::new(0, at, at + 1) }).unwrap()
}

fn local(slot: u32, ty: Type, is_mut: bool) -> LocalVar {
    LocalVar { slot, ty, is_mut, span: Span::new(0, 0, 1), allow_unused: false }
}

#[test]
fn element_reads_check_bounds_and_copy() {
    let mut rir = Rir::new();
    let two = push(&mut rir, InstData::IntConst(2), 10);
    let three = push(&mut rir, InstData::IntConst(3), 20);
    let one = push(&mut rir, InstData::IntConst(1), 30);
    let minus_one = push(&mut rir, InstData::Neg { operand: one }, 40);
    let mut sema = Sema::new(&rir, ThreadedRodeo::new(), PreviewFeatures::new());
    // array 0: [i32; 3] (Copy); array 1: [<struct 0>; 2] (not Copy)
    sema.type_pool.arrays.push(ArrayDef { elem: Type::I32, len: 3, is_copy: true });
    sema.type_pool.arrays.push(ArrayDef { elem: Type::Struct(0), len: 2, is_copy: false });
    let mut air = Air::new(Type::Unit);
    let span = Span::new(0, 1, 50);
    let base = AnalysisResult::new(5, Type::Array(0));
    let index = AnalysisResult::new(6, Type::I32);

    let r = sema.finish_index_get(&mut air, base, two, index, span).unwrap();
    assert_eq!((r.air_ref, r.ty), (0, Type::I32));
    assert_eq!(air.instructions[0].data, AirInstData::IndexGet { base: 5, array_type: Type::Array(0), index: 6 });

    let e = sema.finish_index_get(&mut air, base, three, index, span).unwrap_err();
    assert_eq!(e.kind, ErrorKind::IndexOutOfBounds { index: 3, length: 3 });
    assert_eq!(e.span, Span::new(0, 20, 21));
    let e = sema.finish_index_get(&mut air, base, minus_one, index, span).unwrap_err();
    assert_eq!(e.kind, ErrorKind::IndexOutOfBounds { index: -1, length: 3 });

    let e = sema.finish_index_get(&mut air, AnalysisResult::new(5, Type::Array(1)), one, index, span).unwrap_err();
    assert_eq!(e.kind, ErrorKind::MoveOutOfIndex { element_type: "<struct>".to_string() });
    assert_eq!(e.help.as_deref(), Some("use explicit methods like swap() or take() to remove elements"));

    let e = sema.finish_index_get(&mut air, AnalysisResult::new(5, Type::Bool), one, index, span).unwrap_err();
    assert_eq!(e.kind, ErrorKind::IndexOnNonArray { found: "bool".to_string() });
    assert_eq!(air.instructions.len(), 1);
}

#[test]
fn element_stores_need_a_mutable_array_variable() {
    let mut rir = Rir::new();
    let mut rodeo = ThreadedRodeo::new();
    let a = intern(&mut rodeo, "a");
    let fixed = intern(&mut rodeo, "fixed");
    let n = intern(&mut rodeo, "n");
    let p = intern(&mut rodeo, "p");
    let q = intern(&mut rodeo, "q");
    let b = intern(&mut rodeo, "b");
    let ghost = intern(&mut rodeo, "ghost");
    let var_a = push(&mut rir, InstData::VarRef { name: a }, 0);
    let var_fixed = push(&mut rir, InstData::VarRef { name: fixed }, 0);
    let var_n = push(&mut rir, InstData::VarRef { name: n }, 0);
    let par_p = push(&mut rir, InstData::ParamRef { name: p }, 0);
    let par_q = push(&mut rir, InstData::ParamRef { name: q }, 0);
    let par_b = push(&mut rir, InstData::ParamRef { name: b }, 0);
    let var_ghost = push(&mut rir, InstData::VarRef { name: ghost }, 0);
    let lit = push(&mut rir, InstData::IntConst(4), 0);
    let mut params = HashMap::new();
    params.insert(p, ParamInfo { abi_slot: 2, ty: Type::Array(0), mode: ParamMode::Inout });
    params.insert(q, ParamInfo { abi_slot: 3, ty: Type::Array(0), mode: ParamMode::Normal });
    params.insert(b, ParamInfo { abi_slot: 4, ty: Type::Array(0), mode: ParamMode::Borrow });
    let mut sema = Sema::new(&rir, rodeo, PreviewFeatures::new());
    sema.type_pool.arrays.push(ArrayDef { elem: Type::I32, len: 4, is_copy: true });
    let mut ctx = AnalysisContext::new(params, HashMap::new(), Type::Unit);
    ctx.insert_local(a, local(7, Type::Array(0), true));
    ctx.insert_local(fixed, local(8, Type::Array(0), false));
    ctx.insert_local(n, local(9, Type::I64, true));
    let span = Span::new(0, 3, 9);

    assert_eq!(sema.index_set_target(&ctx, var_a, span).unwrap(), (AssignTarget::Local { slot: 7 }, Type::Array(0), 4));
    assert_eq!(sema.index_set_target(&ctx, par_p, span).unwrap(), (AssignTarget::Param { abi_slot: 2 }, Type::Array(0), 4));
    assert_eq!(sema.index_set_target(&ctx, var_fixed, span).unwrap_err().kind, ErrorKind::AssignToImmutable("fixed".to_string()));
    assert_eq!(sema.index_set_target(&ctx, var_n, span).unwrap_err().kind, ErrorKind::IndexOnNonArray { found: "i64".to_string() });
    let e = sema.index_set_target(&ctx, par_q, span).unwrap_err();
    assert_eq!(e.kind, ErrorKind::AssignToImmutable("q".to_string()));
    assert_eq!(e.help.as_deref(), Some("consider making parameter `q` inout: `inout q: <array>`"));
    assert_eq!(sema.index_set_target(&ctx, par_b, span).unwrap_err().kind, ErrorKind::MutateBorrowedValue { variable: "b".to_string() });
    assert_eq!(sema.index_set_target(&ctx, var_ghost, span).unwrap_err().kind, ErrorKind::UndefinedVariable("ghost".to_string()));
    assert_eq!(sema.index_set_target(&ctx, lit, span).unwrap_err().kind, ErrorKind::InvalidAssignmentTarget);

    // A moved array cannot be stored into.
    let moved_at = Span::new(0, 40, 41);
    let mut moved = VariableMoveState::new();
    moved.mark_path_moved(&[], moved_at);
    ctx.moved_vars.insert(a, moved);
    let e = sema.index_set_target(&ctx, var_a, span).unwrap_err();
    assert_eq!(e.kind, ErrorKind::UseAfterMove("a".to_string()));
    assert_eq!(e.label, Some(("value moved here".to_string(), moved_at)));

    // The constant index is checked once it is analyzed.
    assert_eq!(sema.check_const_index(lit, 4).unwrap_err().kind, ErrorKind::IndexOutOfBounds { index: 4, length: 4 });
    assert!(sema.check_const_index(lit, 5).is_ok());
    assert!(sema.check_const_index(var_a, 0).is_ok());

    let mut air = Air::new(Type::Unit);
    let r = emit_index_set(&mut air, AssignTarget::Param { abi_slot: 2 }, Type::Array(0), 1, 2, span);
    assert_eq!((r.air_ref, r.ty), (0, Type::Unit));
    assert_eq!(air.instructions[0].data, AirInstData::ParamIndexSet { param_slot: 2, array_type: Type::Array(0), index: 1, value: 2 });
    emit_index_set(&mut air, AssignTarget::Local { slot: 7 }, Type::Array(0), 1, 2, span);
    assert_eq!(air.instructions[1].data, AirInstData::IndexSet { slot: 7, array_type: Type::Array(0), index: 1, value: 2 });
}

#[test]
fn array_literals_match_their_length() {
    let rir = Rir::new();
    let mut sema = Sema::new(&rir, ThreadedRodeo::new(), PreviewFeatures::new());
    sema.type_pool.arrays.push(ArrayDef { elem: Type::U8, len: 2, is_copy: true });
    let span = Span::new(0, 0, 8);
    assert!(sema.check_array_init(Type::Array(0), 2, span).is_ok());
    assert_eq!(
        sema.check_array_init(Type::Array(0), 3, span).unwrap_err().kind,
        ErrorKind::ArrayLengthMismatch { expected: 2, found: 3 }
    );
    assert_eq!(
        sema.check_array_init(Type::I32, 0, span).unwrap_err().kind,
        ErrorKind::InternalError("Array literal inferred as non-array type: i32".to_string())
    );
    let mut air = Air::new(Type::Unit);
    air.add_extra(&[9]);
    let r = emit_array_init(&mut air, Type::Array(0), &vec![4, 5], span);
    assert_eq!((r.air_ref, r.ty), (0, Type::Array(0)));
    assert_eq!(air.extra, vec![9, 4, 5]);
    assert_eq!(air.instructions[0].data, AirInstData::ArrayInit { elems_start: 1, elems_len: 2 });
}
