use std::collections::HashMap;

use lasso::{Key, ThreadedRodeo};
use rue_air::air::{Air, AirInstData};
use rue_air::context::{AnalysisContext, AnalysisResult, LocalVar, ParamInfo, ParamMode};
use rue_air::diag::{ErrorKind, PreviewFeatures};
use rue_air::moves::VariableMoveState;
use rue_air::rir::{Inst, InstData, Rir};
use rue_air::sema::Sema;
use rue_air::types::{ArrayDef, Span, StructDef, StructField, Type};

fn intern(rodeo: &mut ThreadedRodeo, s: &str) -> u32 {
    rodeo.get_or_intern(s).into_usize() as u32
}

fn push(rir: &mut Rir, data: InstData, at: u32) -> u32 {
    rir.add_inst(Inst { data, span: Span::new(0, at, at + 1) }).unwrap()
}

#[test]
fn projections_do_not_move() {
    let rir = Rir::new();
    let mut rodeo = ThreadedRodeo::new();
    let a = intern(&mut rodeo, "a");
    let p = intern(&mut rodeo, "p");
    let gone = intern(&mut rodeo, "gone");
    let ghost = intern(&mut rodeo, "ghost");
    let x = intern(&mut rodeo, "x");
    let mut params = HashMap::new();
    params.insert(p, ParamInfo { abi_slot: 2, ty: Type::Struct(0), mode: ParamMode::Normal });
    let mut sema = Sema::new(&rir, rodeo, PreviewFeatures::new());
    sema.type_pool.structs.push(StructDef {
        name: "Pair".to_string(),
        fields: vec![StructField { name: "x".to_string(), ty: Type::I32 }],
        is_copy: false,
        is_handle: false,
        is_linear: false,
        destructor: None,
        is_builtin: false,
        is_pub: true,
        file_id: 0,
    });
    let mut ctx = AnalysisContext::new(params, HashMap::new(), Type::Unit);
    let local = |slot: u32| LocalVar { slot, ty: Type::Struct(0), is_mut: false, span: Span::new(0, 0, 1), allow_unused: false };
    ctx.insert_local(a, local(5));
    ctx.insert_local(gone, local(6));
    let moved_at = Span::new(0, 20, 21);
    let mut fully = VariableMoveState::new();
    fully.mark_path_moved(&[], moved_at);
    ctx.moved_vars.insert(gone, fully);
    // A partly moved variable can still be projected from.
    let mut partly = VariableMoveState::new();
    partly.mark_path_moved(&[x], moved_at);
    ctx.moved_vars.insert(a, partly);
    let mut air = Air::new(Type::Unit);
    let span = Span::new(0, 1, 2);

    let r = sema.project_var(&mut air, &mut ctx, a, span).unwrap();
    assert_eq!((r.air_ref, r.ty), (0, Type::Struct(0)));
    assert_eq!(air.instructions[0].data, AirInstData::Load { slot: 5 });
    assert!(ctx.used_locals.contains(&a));
    assert!(ctx.moved_vars[&a].full_move().is_none());
    let r = sema.project_var(&mut air, &mut ctx, p, span).unwrap();
    assert_eq!(air.instructions[r.air_ref as usize].data, AirInstData::Param { index: 2 });
    let e = sema.project_var(&mut air, &mut ctx, gone, span).unwrap_err();
    assert_eq!(e.kind, ErrorKind::UseAfterMove("gone".to_string()));
    assert_eq!(e.label, Some(("value moved here".to_string(), moved_at)));
    assert_eq!(sema.project_var(&mut air, &mut ctx, ghost, span).unwrap_err().kind, ErrorKind::UndefinedVariable("ghost".to_string()));

    let r = sema.project_field(&mut air, AnalysisResult::new(0, Type::Struct(0)), x, span).unwrap();
    assert_eq!(r.ty, Type::I32);
    assert_eq!(air.instructions[r.air_ref as usize].data, AirInstData::FieldGet { base: 0, struct_id: 0, field_index: 0 });
    assert_eq!(
        sema.project_field(&mut air, AnalysisResult::new(0, Type::Struct(0)), p, span).unwrap_err().kind,
        ErrorKind::UnknownField { struct_name: "Pair".to_string(), field_name: "p".to_string() }
    );
    assert_eq!(
        sema.project_field(&mut air, AnalysisResult::new(0, Type::Bool), x, span).unwrap_err().kind,
        ErrorKind::FieldAccessOnNonStruct { found: "bool".to_string() }
    );
}

#[test]
fn projected_elements_need_not_be_copy() {
    let mut rir = Rir::new();
    let seven = push(&mut rir, InstData::IntConst(7), 30);
    let one = push(&mut rir, InstData::IntConst(1), 40);
    let mut sema = Sema::new(&rir, ThreadedRodeo::new(), PreviewFeatures::new());
    sema.type_pool.arrays.push(ArrayDef { elem: Type::Struct(0), len: 2, is_copy: false });
    let mut air = Air::new(Type::Unit);
    let span = Span::new(0, 1, 2);
    let base = AnalysisResult::new(3, Type::Array(0));
    let r = sema.project_index(&mut air, base, one, AnalysisResult::new(4, Type::U64), span).unwrap();
    assert_eq!((r.air_ref, r.ty), (0, Type::Struct(0)));
    assert_eq!(air.instructions[0].data, AirInstData::IndexGet { base: 3, array_type: Type::Array(0), index: 4 });
    let e = sema.project_index(&mut air, base, seven, AnalysisResult::new(4, Type::U64), span).unwrap_err();
    assert_eq!((e.kind, e.span), (ErrorKind::IndexOutOfBounds { index: 7, length: 2 }, Span::new(0, 30, 31)));
    let e = sema.project_index(&mut air, base, one, AnalysisResult::new(4, Type::I32), span).unwrap_err();
    assert_eq!(e.kind, ErrorKind::TypeMismatch { expected: "unsigned integer type".to_string(), found: "i32".to_string() });
    assert_eq!(
        sema.project_index(&mut air, AnalysisResult::new(3, Type::U8), one, AnalysisResult::new(4, Type::U64), span).unwrap_err().kind,
        ErrorKind::IndexOnNonArray { found: "u8".to_string() }
    );
}
