use std::collections::HashMap;

use lasso::{Key, ThreadedRodeo};
use rue_air::air::{Air, AirInstData};
use rue_air::context::{AnalysisContext, AnalysisResult, LocalVar, ParamInfo, ParamMode};
use rue_air::diag::{ErrorKind, PreviewFeatures};
use rue_air::moves::VariableMoveState;
use rue_air::rir::{Inst, InstData, Rir};
use rue_air::sema::Sema;
use rue_air::stores::emit_field_set;
use rue_air::types::{Span, StructDef, StructField, Type};
use rue_air::variables::AssignTarget;

fn intern(rodeo: &mut ThreadedRodeo, s: &str) -> u32 {
    rodeo.get_or_intern(s).into_usize() as u32
}

fn push(rir: &mut Rir, data: InstData) -> u32 {
    rir.add_inst(Inst { data, span: Span::new(0, 0, 1) }).unwrap()
}

fn def(name: &str, fields: Vec<(&str, Type)>) -> StructDef {
    StructDef {
        name: name.to_string(),
        fields: fields.into_iter().map(|(n, ty)| StructField { name: n.to_string(), ty }).collect(),
        is_copy: false,
        is_handle: false,
        is_linear: false,
        destructor: None,
        is_builtin: false,
        is_pub: true,
        file_id: 0,
    }
}

#[test]
fn field_stores_go_through_mutable_variables() {
    let mut rir = Rir::new();
    let mut rodeo = ThreadedRodeo::new();
    let o = intern(&mut rodeo, "o");
    let fixed = intern(&mut rodeo, "fixed");
    let p = intern(&mut rodeo, "p");
    let q = intern(&mut rodeo, "q");
    let inner = intern(&mut rodeo, "inner");
    let x = intern(&mut rodeo, "x");
    let nope = intern(&mut rodeo, "nope");
    let var_o = push(&mut rir, InstData::VarRef { name: o });
    let o_inner = push(&mut rir, InstData::FieldGet { base: var_o, field: inner });
    let var_fixed = push(&mut rir, InstData::VarRef { name: fixed });
    let par_p = push(&mut rir, InstData::ParamRef { name: p });
    let par_q = push(&mut rir, InstData::ParamRef { name: q });
    let lit = push(&mut rir, InstData::IntConst(1));
    let mut params = HashMap::new();
    params.insert(p, ParamInfo { abi_slot: 6, ty: Type::Struct(0), mode: ParamMode::Inout });
    params.insert(q, ParamInfo { abi_slot: 7, ty: Type::Struct(0), mode: ParamMode::Normal });
    let mut sema = Sema::new(&rir, rodeo, PreviewFeatures::new());
    // struct 0: Inner { x: i32 }; struct 1: Outer { inner: Inner }
    sema.type_pool.structs.push(def("Inner", vec![("x", Type::I32)]));
    sema.type_pool.structs.push(def("Outer", vec![("inner", Type::Struct(0))]));
    let mut ctx = AnalysisContext::new(params, HashMap::new(), Type::Unit);
    let local = |slot: u32, ty: Type, is_mut: bool| LocalVar { slot, ty, is_mut, span: Span::new(0, 0, 1), allow_unused: false };
    ctx.insert_local(o, local(3, Type::Struct(1), true));
    ctx.insert_local(fixed, local(4, Type::Struct(0), false));
    let span = Span::new(0, 2, 8);

    // o.inner.x = ..
    let t = sema.field_set_target(&ctx, o_inner, x, span).unwrap();
    assert_eq!(t.root, AssignTarget::Local { slot: 3 });
    assert_eq!(t.steps, vec![(1, 0), (0, 0)]);
    // p.x = .. through an inout parameter
    let t = sema.field_set_target(&ctx, par_p, x, span).unwrap();
    assert_eq!((t.root, t.steps), (AssignTarget::Param { abi_slot: 6 }, vec![(0, 0)]));

    let e = sema.field_set_target(&ctx, par_q, x, span).unwrap_err();
    assert_eq!(e.kind, ErrorKind::AssignToImmutable("q".to_string()));
    assert_eq!(e.help.as_deref(), Some("consider making parameter `q` inout: `inout q: <struct>`"));
    assert_eq!(sema.field_set_target(&ctx, var_fixed, x, span).unwrap_err().kind, ErrorKind::AssignToImmutable("fixed".to_string()));
    assert_eq!(sema.field_set_target(&ctx, lit, x, span).unwrap_err().kind, ErrorKind::InvalidAssignmentTarget);
    assert_eq!(
        sema.field_set_target(&ctx, o_inner, nope, span).unwrap_err().kind,
        ErrorKind::UnknownField { struct_name: "Inner".to_string(), field_name: "nope".to_string() }
    );
    // o.x: Outer has no field x.
    assert_eq!(
        sema.field_set_target(&ctx, var_o, x, span).unwrap_err().kind,
        ErrorKind::UnknownField { struct_name: "Outer".to_string(), field_name: "x".to_string() }
    );

    // A partly moved variable cannot be stored into.
    let moved_at = Span::new(0, 30, 31);
    let mut moved = VariableMoveState::new();
    moved.mark_path_moved(&[inner], moved_at);
    ctx.moved_vars.insert(o, moved);
    let e = sema.field_set_target(&ctx, o_inner, x, span).unwrap_err();
    assert_eq!(e.kind, ErrorKind::UseAfterMove("o".to_string()));
    assert_eq!(e.label, Some(("value moved here".to_string(), moved_at)));

    let mut air = Air::new(Type::Unit);
    let r = emit_field_set(&mut air, AssignTarget::Local { slot: 3 }, 2, 0, 0, AnalysisResult::new(9, Type::I32), span);
    assert_eq!((r.air_ref, r.ty), (0, Type::Unit));
    assert_eq!(air.instructions[0].data, AirInstData::FieldSet { slot: 5, struct_id: 0, field_index: 0, value: 9 });
    emit_field_set(&mut air, AssignTarget::Param { abi_slot: 6 }, 2, 0, 0, AnalysisResult::new(9, Type::I32), span);
    assert_eq!(
        air.instructions[1].data,
        AirInstData::ParamFieldSet { param_slot: 6, inner_offset: 2, struct_id: 0, field_index: 0, value: 9 }
    );
}

#[test]
fn field_stores_need_structs() {
    let mut rir = Rir::new();
    let mut rodeo = ThreadedRodeo::new();
    let n = intern(&mut rodeo, "n");
    let x = intern(&mut rodeo, "x");
    let ghost = intern(&mut rodeo, "ghost");
    let var_n = push(&mut rir, InstData::VarRef { name: n });
    let var_ghost = push(&mut rir, InstData::VarRef { name: ghost });
    let sema = Sema::new(&rir, rodeo, PreviewFeatures::new());
    let mut ctx = AnalysisContext::new(HashMap::new(), HashMap::new(), Type::Unit);
    ctx.insert_local(n, LocalVar { slot: 0, ty: Type::I64, is_mut: true, span: Span::new(0, 0, 1), allow_unused: false });
    let span = Span::new(0, 2, 8);
    assert_eq!(
        sema.field_set_target(&ctx, var_n, x, span).unwrap_err().kind,
        ErrorKind::FieldAccessOnNonStruct { found: "i64".to_string() }
    );
    assert_eq!(sema.field_set_target(&ctx, var_ghost, x, span).unwrap_err().kind, ErrorKind::UndefinedVariable("ghost".to_string()));
}
