use std::collections::HashMap;

use lasso::{Key, ThreadedRodeo};
use rue_air::air::{Air, AirInstData};
use rue_air::context::{AnalysisContext, AnalysisResult, LocalVar, ParamInfo, ParamMode};
use rue_air::diag::{ErrorKind, PreviewFeatures};
use rue_air::moves::VariableMoveState;
use rue_air::rir::Rir;
use rue_air::sema::{GatherOutput, ParamArena, Sema};
use rue_air::types::{Span, StructDef, Type, TypePool};
use rue_air::variables::AssignTarget;

fn intern(rodeo: &mut ThreadedRodeo, s: &str) -> u32 {
    rodeo.get_or_intern(s).into_usize() as u32
}

fn handle_pool(sema: &mut Sema<'_>) {
    sema.type_pool.structs.push(StructDef {
        name: "Buf".to_string(),
        fields: Vec::new(),
        is_copy: false,
        is_handle: false,
        is_linear: false,
        destructor: None,
        is_builtin: false,
        is_pub: true,
        file_id: 0,
    });
}

fn local(slot: u32, ty: Type, is_mut: bool) -> LocalVar {
    LocalVar { slot, ty, is_mut, span: Span::new(0, 1, 2), allow_unused: false }
}

#[test]
fn reading_moves_non_copy_values() {
    let rir = Rir::new();
    let mut rodeo = ThreadedRodeo::new();
    let b = intern(&mut rodeo, "b");
    let n = intern(&mut rodeo, "n");
    let missing = intern(&mut rodeo, "missing");
    let mut sema = Sema::new(&rir, rodeo, PreviewFeatures::new());
    handle_pool(&mut sema);
    let mut ctx = AnalysisContext::new(HashMap::new(), HashMap::new(), Type::Unit);
    ctx.insert_local(b, local(3, Type::Struct(0), false));
    ctx.insert_local(n, local(4, Type::I32, false));
    let mut air = Air::new(Type::Unit);
    let first = Span::new(0, 10, 11);
    let r = sema.analyze_var_ref(&mut air, b, first, &mut ctx).unwrap();
    assert_eq!((r.air_ref, r.ty), (0, Type::Struct(0)));
    assert_eq!(air.instructions[0].data, AirInstData::Load { slot: 3 });
    assert!(ctx.used_locals.contains(&b));
    let e = sema.analyze_var_ref(&mut air, b, Span::new(0, 20, 21), &mut ctx).unwrap_err();
    assert!(matches!(e.kind, ErrorKind::UseAfterMove(ref x) if x == "b"));
    assert_eq!(e.span, Span::new(0, 20, 21));
    assert_eq!(e.label, Some(("value moved here".to_string(), first)));
    // Copy values can be read again and again.
    sema.analyze_var_ref(&mut air, n, first, &mut ctx).unwrap();
    sema.analyze_var_ref(&mut air, n, first, &mut ctx).unwrap();
    assert!(!ctx.moved_vars.contains_key(&n));
    assert!(matches!(
        sema.analyze_var_ref(&mut air, missing, first, &mut ctx).unwrap_err().kind,
        ErrorKind::UndefinedVariable(ref x) if x == "missing"
    ));
    assert_eq!(air.len(), 3);
}

#[test]
fn parameters_by_mode() {
    let rir = Rir::new();
    let mut rodeo = ThreadedRodeo::new();
    let p = intern(&mut rodeo, "p");
    let q = intern(&mut rodeo, "q");
    let mut sema = Sema::new(&rir, rodeo, PreviewFeatures::new());
    handle_pool(&mut sema);
    let mut params = HashMap::new();
    params.insert(p, ParamInfo { abi_slot: 0, ty: Type::Struct(0), mode: ParamMode::Normal });
    params.insert(q, ParamInfo { abi_slot: 1, ty: Type::Struct(0), mode: ParamMode::Borrow });
    let mut ctx = AnalysisContext::new(params, HashMap::new(), Type::Unit);
    let mut air = Air::new(Type::Unit);
    let s = Span::new(0, 5, 6);
    let r = sema.analyze_var_ref(&mut air, p, s, &mut ctx).unwrap();
    assert_eq!(air.instructions[r.air_ref as usize].data, AirInstData::Param { index: 0 });
    assert!(matches!(sema.analyze_var_ref(&mut air, p, s, &mut ctx).unwrap_err().kind, ErrorKind::UseAfterMove(_)));
    match sema.analyze_var_ref(&mut air, q, s, &mut ctx).unwrap_err().kind {
        ErrorKind::MoveOutOfBorrow { variable } => assert_eq!(variable, "q"),
        other => panic!("unexpected error {:?}", other),
    }
    let r = sema.analyze_param_ref(&mut air, q, s, &ctx).unwrap();
    assert_eq!(air.instructions[r.air_ref as usize].data, AirInstData::Param { index: 1 });
}

#[test]
fn assignment_targets() {
    let rir = Rir::new();
    let mut rodeo = ThreadedRodeo::new();
    let p = intern(&mut rodeo, "p");
    let io = intern(&mut rodeo, "io");
    let br = intern(&mut rodeo, "br");
    let x = intern(&mut rodeo, "x");
    let y = intern(&mut rodeo, "y");
    let z = intern(&mut rodeo, "z");
    let sema = Sema::new(&rir, rodeo, PreviewFeatures::new());
    let mut params = HashMap::new();
    params.insert(p, ParamInfo { abi_slot: 0, ty: Type::I32, mode: ParamMode::Normal });
    params.insert(io, ParamInfo { abi_slot: 1, ty: Type::I32, mode: ParamMode::Inout });
    params.insert(br, ParamInfo { abi_slot: 2, ty: Type::I32, mode: ParamMode::Borrow });
    let mut ctx = AnalysisContext::new(params, HashMap::new(), Type::Unit);
    ctx.insert_local(x, local(5, Type::I32, true));
    ctx.insert_local(y, local(6, Type::I32, false));
    let s = Span::new(0, 7, 8);
    assert_eq!(sema.assignment_target(&ctx, io, s).unwrap(), AssignTarget::Param { abi_slot: 1 });
    assert_eq!(sema.assignment_target(&ctx, x, s).unwrap(), AssignTarget::Local { slot: 5 });
    let e = sema.assignment_target(&ctx, p, s).unwrap_err();
    assert!(matches!(e.kind, ErrorKind::AssignToImmutable(ref n) if n == "p"));
    assert_eq!(e.help.as_deref(), Some("consider making parameter `p` inout: `inout p: i32`"));
    let e = sema.assignment_target(&ctx, y, s).unwrap_err();
    assert_eq!(e.help.as_deref(), Some("consider making `y` mutable: `let mut y`"));
    assert_eq!(e.label, Some(("variable declared as immutable here".to_string(), Span::new(0, 1, 2))));
    assert!(matches!(sema.assignment_target(&ctx, br, s).unwrap_err().kind, ErrorKind::MutateBorrowedValue { .. }));
    assert!(matches!(sema.assignment_target(&ctx, z, s).unwrap_err().kind, ErrorKind::UndefinedVariable(_)));

    // Assignment revives a moved variable.
    let mut moved = VariableMoveState::new();
    moved.mark_path_moved(&[], s);
    ctx.moved_vars.insert(x, moved);
    let mut air = Air::new(Type::Unit);
    let r = Sema::finish_assign(&mut air, &mut ctx, x, AssignTarget::Local { slot: 5 }, AnalysisResult::new(9, Type::I32), s);
    assert_eq!((r.air_ref, r.ty), (0, Type::Unit));
    assert_eq!(air.instructions[0].data, AirInstData::Store { slot: 5, value: 9 });
    assert!(!ctx.moved_vars.contains_key(&x));
}

#[test]
fn gathered_declarations_become_an_analyzer() {
    let rir = Rir::new();
    let mut rodeo = ThreadedRodeo::new();
    let s = intern(&mut rodeo, "S");
    let mut structs = HashMap::new();
    structs.insert(s, 0);
    let gathered = GatherOutput {
        rir: &rir,
        interner: rodeo,
        structs,
        enums: HashMap::new(),
        functions: HashMap::new(),
        methods: HashMap::new(),
        constants: HashMap::new(),
        builtin_string_id: None,
        builtin_arch_id: None,
        builtin_os_id: None,
        type_pool: TypePool::new(),
        param_arena: ParamArena::new(),
        preview_features: PreviewFeatures::new(),
    };
    let sema = gathered.into_sema();
    assert_eq!(sema.structs[&s], 0);
    assert!(!sema.has_imports());
    assert!(sema.file_paths.is_empty());
}

#[test]
fn let_bindings_take_the_next_slots() {
    let mut air = Air::new(Type::Unit);
    let mut ctx = AnalysisContext::new(HashMap::new(), HashMap::new(), Type::Unit);
    ctx.push_scope();
    let span = Span::new(0, 4, 9);
    // `let _ = init;` is the value itself.
    let r = rue_air::variables::finish_alloc(&mut air, &mut ctx, None, false, false, AnalysisResult::new(3, Type::I32), 1, span);
    assert_eq!((r.air_ref, r.ty), (3, Type::Unit));
    assert!(air.instructions.is_empty());
    ctx.next_slot = 2;
    let r = rue_air::variables::finish_alloc(&mut air, &mut ctx, Some(7), true, true, AnalysisResult::new(3, Type::I64), 3, span);
    assert_eq!((r.air_ref, r.ty), (2, Type::Unit));
    assert_eq!(ctx.next_slot, 5);
    let l = ctx.locals[&7];
    assert_eq!((l.slot, l.ty, l.is_mut, l.allow_unused), (2, Type::I64, true, true));
    assert_eq!(air.instructions[0].data, AirInstData::StorageLive { slot: 2 });
    assert_eq!(air.instructions[1].data, AirInstData::Alloc { slot: 2, init: 3 });
    assert_eq!(air.instructions[2].data, AirInstData::Block { stmts_start: 0, stmts_len: 1, value: 1 });
    assert_eq!(air.extra, vec![0]);
}

#[test]
fn comptime_type_variables() {
    let mut rir = Rir::new();
    let p = 4;
    let var_p = rir.add_inst(rue_air::rir::Inst { data: rue_air::rir::InstData::VarRef { name: p }, span: Span::new(0, 0, 1) }).unwrap();
    let lit = rir.add_inst(rue_air::rir::Inst { data: rue_air::rir::InstData::IntConst(1), span: Span::new(0, 0, 1) }).unwrap();
    let sema = Sema::new(&rir, ThreadedRodeo::new(), PreviewFeatures::new());
    let mut ctx = AnalysisContext::new(HashMap::new(), HashMap::new(), Type::Unit);
    assert!(!sema.is_comptime_type_var(var_p, &ctx));
    ctx.comptime_type_vars.insert(p, Type::Struct(0));
    assert!(sema.is_comptime_type_var(var_p, &ctx));
    assert!(!sema.is_comptime_type_var(lit, &ctx));
}
