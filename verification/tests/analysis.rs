use std::collections::HashMap;

use lasso::{Key, ThreadedRodeo};
use rue_air::calls::{extract_arg_var_name_ctx, extract_field_path_ctx};
use rue_air::context::{AnalysisContext, AnalysisResult, ConstValue, LocalVar, WarningKind};
use rue_air::diag::{ErrorKind, PreviewFeatures};
use rue_air::moves::VariableMoveState;
use rue_air::rir::{ArgMode, CallArg, Directive, Inst, InstData, Rir};
use rue_air::sema::{AnonMethodSig, Sema};
use rue_air::types::{EnumDef, Span, StructDef, StructField, Type};

fn intern(rodeo: &mut ThreadedRodeo, s: &str) -> u32 {
    rodeo.get_or_intern(s).into_usize() as u32
}

fn push(rir: &mut Rir, data: InstData, start: u32) -> u32 {
    rir.add_inst(Inst { data, span: Span::new(0, start, start + 1) }).unwrap()
}

fn local(slot: u32, ty: Type, start: u32) -> LocalVar {
    LocalVar { slot, ty, is_mut: false, span: Span::new(0, start, start + 1), allow_unused: false }
}

fn struct_def(name: &str, is_linear: bool) -> StructDef {
    StructDef {
        name: name.to_string(),
        fields: Vec::new(),
        is_copy: false,
        is_handle: false,
        is_linear,
        destructor: None,
        is_builtin: false,
        is_pub: true,
        file_id: 0,
    }
}

#[test]
fn analysis_result_and_const_values() {
    let r = AnalysisResult::new(7, Type::Bool);
    assert_eq!((r.air_ref, r.ty), (7, Type::Bool));
    assert_eq!(ConstValue::Integer(-4).as_integer(), Some(-4));
    assert_eq!(ConstValue::Bool(true).as_integer(), None);
    assert_eq!(ConstValue::Bool(false).as_bool(), Some(false));
    assert_eq!(ConstValue::Unit.as_bool(), None);
}

#[test]
fn path_moves_cover_descendants() {
    let mut st = VariableMoveState::new();
    assert!(st.is_empty());
    let sp = Span::new(0, 10, 11);
    st.mark_path_moved(&[1, 2], sp);
    assert_eq!(st.is_path_moved(&[1, 2]), Some(sp));
    assert_eq!(st.is_path_moved(&[1, 2, 3]), Some(sp));
    assert_eq!(st.is_path_moved(&[1]), None);
    assert_eq!(st.is_path_moved(&[2]), None);
    assert_eq!(st.is_partially_moved(), Some(sp));
    assert_eq!(st.is_any_part_moved(), Some(sp));
    assert_eq!(st.full_move(), None);
    let whole = Span::new(0, 20, 21);
    st.mark_path_moved(&[], whole);
    assert_eq!(st.full_move(), Some(whole));
    assert_eq!(st.is_path_moved(&[5]), Some(whole));
    assert_eq!(st.is_partially_moved(), None);
    st.clear();
    assert!(st.is_empty());
    assert_eq!(st.is_path_moved(&[1, 2]), None);
}

#[test]
fn branch_union_moves_in_either() {
    let mut a = VariableMoveState::new();
    let mut b = VariableMoveState::new();
    a.mark_path_moved(&[1], Span::new(0, 1, 2));
    b.mark_path_moved(&[2], Span::new(0, 3, 4));
    let u = VariableMoveState::merge_union(&a, &b);
    assert_eq!(u.is_path_moved(&[1]), Some(Span::new(0, 1, 2)));
    assert_eq!(u.is_path_moved(&[2, 9]), Some(Span::new(0, 3, 4)));
    assert_eq!(u.is_path_moved(&[3]), None);
    assert_eq!(u.duplicate().is_path_moved(&[1]), Some(Span::new(0, 1, 2)));
}

#[test]
fn pop_scope_restores_shadowed_bindings() {
    let mut ctx = AnalysisContext::new(HashMap::new(), HashMap::new(), Type::Unit);
    ctx.insert_local(1, local(0, Type::I32, 0));
    ctx.push_scope();
    ctx.insert_local(1, local(1, Type::Bool, 5));
    ctx.insert_local(2, local(2, Type::I64, 6));
    assert_eq!(ctx.locals[&1].ty, Type::Bool);
    ctx.pop_scope();
    assert_eq!(ctx.locals[&1].ty, Type::I32);
    assert!(!ctx.locals.contains_key(&2));
    assert!(ctx.scope_stack.is_empty());
}

#[test]
fn merged_branches_keep_moves_of_either() {
    let mut ctx = AnalysisContext::new(HashMap::new(), HashMap::new(), Type::Unit);
    let mut then_moves = HashMap::new();
    let mut else_moves = HashMap::new();
    let mut m = VariableMoveState::new();
    m.mark_path_moved(&[], Span::new(0, 1, 2));
    then_moves.insert(5, m);
    let mut n = VariableMoveState::new();
    n.mark_path_moved(&[3], Span::new(0, 7, 8));
    else_moves.insert(6, n);
    ctx.merge_branch_moves(then_moves, else_moves, false, false);
    assert_eq!(ctx.moved_vars.len(), 2);
    assert_eq!(ctx.moved_vars[&5].full_move(), Some(Span::new(0, 1, 2)));
    assert_eq!(ctx.moved_vars[&6].is_path_moved(&[3]), Some(Span::new(0, 7, 8)));

    // A diverging branch contributes nothing.
    let mut ctx2 = AnalysisContext::new(HashMap::new(), HashMap::new(), Type::Unit);
    let mut then_moves = HashMap::new();
    let mut m = VariableMoveState::new();
    m.mark_path_moved(&[], Span::new(0, 1, 2));
    then_moves.insert(5, m);
    ctx2.merge_branch_moves(then_moves, HashMap::new(), true, false);
    assert!(ctx2.moved_vars.is_empty());
}

#[test]
fn unused_locals_are_warned_about() {
    let rir = Rir::new();
    let mut rodeo = ThreadedRodeo::new();
    let x = intern(&mut rodeo, "x");
    let used = intern(&mut rodeo, "used");
    let quiet = intern(&mut rodeo, "_quiet");
    let sema = Sema::new(&rir, rodeo, PreviewFeatures::new());
    let mut ctx = AnalysisContext::new(HashMap::new(), HashMap::new(), Type::Unit);
    ctx.push_scope();
    ctx.insert_local(x, local(0, Type::I32, 3));
    ctx.insert_local(used, local(1, Type::I32, 4));
    ctx.insert_local(quiet, local(2, Type::I32, 5));
    ctx.used_locals.insert(used);
    sema.check_unused_locals_in_current_scope(&mut ctx);
    assert_eq!(ctx.warnings.len(), 1);
    let w = &ctx.warnings[0];
    match &w.kind {
        WarningKind::UnusedVariable(name) => assert_eq!(name, "x"),
        other => panic!("unexpected warning {:?}", other),
    }
    assert_eq!(w.span, Span::new(0, 3, 4));
    assert_eq!(w.help.as_deref(), Some("if this is intentional, prefix it with an underscore: `_x`"));
}

#[test]
fn linear_values_must_be_consumed() {
    let rir = Rir::new();
    let mut rodeo = ThreadedRodeo::new();
    let h = intern(&mut rodeo, "h");
    let mut sema = Sema::new(&rir, rodeo, PreviewFeatures::new());
    sema.type_pool.structs.push(struct_def("Handle", true));
    let mut ctx = AnalysisContext::new(HashMap::new(), HashMap::new(), Type::Unit);
    ctx.push_scope();
    ctx.insert_local(h, local(0, Type::Struct(0), 9));
    let err = sema.check_unconsumed_linear_values(&ctx).unwrap_err();
    match err.kind {
        ErrorKind::LinearValueNotConsumed(name) => assert_eq!(name, "h"),
        other => panic!("unexpected error {:?}", other),
    }
    assert_eq!(err.span, Span::new(0, 9, 10));
    let mut moved = VariableMoveState::new();
    moved.mark_path_moved(&[], Span::new(0, 12, 13));
    ctx.moved_vars.insert(h, moved);
    assert!(sema.check_unconsumed_linear_values(&ctx).is_ok());
}

#[test]
fn exclusive_access_rules() {
    let mut rir = Rir::new();
    let mut rodeo = ThreadedRodeo::new();
    let a = intern(&mut rodeo, "a");
    let f = intern(&mut rodeo, "f");
    let var_a = push(&mut rir, InstData::VarRef { name: a }, 0);
    let field = push(&mut rir, InstData::FieldGet { base: var_a, field: f }, 2);
    let lit = push(&mut rir, InstData::IntConst(3), 4);
    let cmp = push(&mut rir, InstData::Lt { lhs: lit, rhs: lit }, 6);
    let sema = Sema::new(&rir, rodeo, PreviewFeatures::new());
    assert_eq!(sema.extract_root_variable(field), Some(a));
    assert_eq!(sema.extract_root_variable(lit), None);
    assert!(sema.is_comparison(cmp));
    assert!(!sema.is_comparison(lit));
    let call = Span::new(0, 20, 30);
    let arg = |value, mode| CallArg { value, mode };

    assert!(sema.check_exclusive_access(&[arg(var_a, ArgMode::Inout), arg(lit, ArgMode::Normal)], call).is_ok());
    let e = sema.check_exclusive_access(&[arg(lit, ArgMode::Inout)], call).unwrap_err();
    assert!(matches!(e.kind, ErrorKind::InoutNonLvalue));
    assert_eq!(e.span, Span::new(0, 4, 5));
    let e = sema.check_exclusive_access(&[arg(lit, ArgMode::Borrow)], call).unwrap_err();
    assert!(matches!(e.kind, ErrorKind::BorrowNonLvalue));
    let e = sema.check_exclusive_access(&[arg(var_a, ArgMode::Inout), arg(field, ArgMode::Inout)], call).unwrap_err();
    match e.kind {
        ErrorKind::InoutExclusiveAccess { variable } => assert_eq!(variable, "a"),
        other => panic!("unexpected error {:?}", other),
    }
    assert_eq!(e.span, call);
    let e = sema.check_exclusive_access(&[arg(field, ArgMode::Borrow), arg(var_a, ArgMode::Inout)], call).unwrap_err();
    match e.kind {
        ErrorKind::BorrowInoutConflict { variable } => assert_eq!(variable, "a"),
        other => panic!("unexpected error {:?}", other),
    }
    // Several borrows of one variable are fine.
    assert!(sema.check_exclusive_access(&[arg(var_a, ArgMode::Borrow), arg(field, ArgMode::Borrow)], call).is_ok());
}

#[test]
fn allow_directives() {
    let rir = Rir::new();
    let mut rodeo = ThreadedRodeo::new();
    let allow = intern(&mut rodeo, "allow");
    let unused = intern(&mut rodeo, "unused_variable");
    let other = intern(&mut rodeo, "inline");
    let sema = Sema::new(&rir, rodeo, PreviewFeatures::new());
    let dirs = vec![Directive { name: other, args: vec![unused] }, Directive { name: allow, args: vec![other, unused] }];
    assert!(sema.has_allow_directive(&dirs, "unused_variable"));
    assert!(!sema.has_allow_directive(&dirs, "dead_code"));
    assert!(!sema.has_allow_directive(&dirs[..1], "unused_variable"));
}

#[test]
fn module_identity_and_visibility() {
    assert_eq!(Sema::get_module_identity("/p/utils/strings.rue").as_deref(), Some("/p/utils"));
    assert_eq!(Sema::get_module_identity("/p/_utils.rue").as_deref(), Some("/p/utils"));
    let rir = Rir::new();
    let mut sema = Sema::new(&rir, ThreadedRodeo::new(), PreviewFeatures::new());
    let mut paths = HashMap::new();
    paths.insert(0, "/p/main.rue".to_string());
    paths.insert(1, "/p/utils/a.rue".to_string());
    paths.insert(2, "/p/utils/b.rue".to_string());
    paths.insert(3, "/p/_utils.rue".to_string());
    sema.set_file_paths(paths);
    assert_eq!(sema.get_file_path(1), Some("/p/utils/a.rue"));
    assert_eq!(sema.get_source_path(Span::new(9, 0, 0)), None);
    assert!(sema.is_accessible(0, 1, true));
    assert!(!sema.is_accessible(0, 1, false));
    assert!(sema.is_accessible(1, 2, false));
    assert!(sema.is_accessible(3, 1, false));
    assert!(sema.is_accessible(0, 7, false));
    assert!(!sema.has_imports());
}

#[test]
fn enums_resolve_through_modules() {
    let rir = Rir::new();
    let mut rodeo = ThreadedRodeo::new();
    let color = intern(&mut rodeo, "Color");
    let secret = intern(&mut rodeo, "Secret");
    let missing = intern(&mut rodeo, "Missing");
    let mut sema = Sema::new(&rir, rodeo, PreviewFeatures::new());
    let mut paths = HashMap::new();
    paths.insert(0, "/p/main.rue".to_string());
    paths.insert(1, "/p/lib/colors.rue".to_string());
    sema.set_file_paths(paths);
    sema.type_pool.enums.push(EnumDef { name: "Color".to_string(), variants: vec!["Red".to_string()], is_pub: true, file_id: 1 });
    sema.type_pool.enums.push(EnumDef { name: "Secret".to_string(), variants: Vec::new(), is_pub: false, file_id: 1 });
    sema.enums.insert(color, 0);
    sema.enums.insert(secret, 1);
    let span = Span::new(0, 1, 2);
    assert_eq!(sema.resolve_enum_through_module(0, color, span).unwrap(), 0);
    match sema.resolve_enum_through_module(0, secret, span).unwrap_err().kind {
        ErrorKind::PrivateMemberAccess { item_kind, name } => assert_eq!((item_kind.as_str(), name.as_str()), ("enum", "Secret")),
        other => panic!("unexpected error {:?}", other),
    }
    match sema.resolve_enum_through_module(0, missing, span).unwrap_err().kind {
        ErrorKind::UnknownEnumType(name) => assert_eq!(name, "Missing"),
        other => panic!("unexpected error {:?}", other),
    }
    // From inside the module the private enum is visible.
    assert_eq!(sema.resolve_enum_through_module(0, secret, Span::new(1, 0, 0)).unwrap(), 1);
}

#[test]
fn builtin_string_queries() {
    let rir = Rir::new();
    let mut sema = Sema::new(&rir, ThreadedRodeo::new(), PreviewFeatures::new());
    sema.type_pool.structs.push(struct_def("String", false));
    assert!(!sema.is_builtin_string(Type::Struct(0)));
    sema.builtin_string_id = Some(0);
    assert!(sema.is_builtin_string(Type::Struct(0)));
    assert!(!sema.is_builtin_string(Type::I32));
    assert_eq!(sema.builtin_string_type(), Type::Struct(0));
    assert_eq!(sema.builtin_air_type(4), Type::Struct(4));
    assert!(!sema.is_type_linear(Type::Struct(0)));
}

#[test]
fn anonymous_structs_are_structural() {
    let rir = Rir::new();
    let mut rodeo = ThreadedRodeo::new();
    let get = intern(&mut rodeo, "get");
    let i32_sym = intern(&mut rodeo, "i32");
    let mut sema = Sema::new(&rir, rodeo, PreviewFeatures::new());
    let fields = vec![StructField { name: "x".to_string(), ty: Type::I32 }, StructField { name: "y".to_string(), ty: Type::I32 }];
    let sig = || vec![AnonMethodSig { name: get, has_self: true, param_types: Vec::new(), return_type: i32_sym }];
    let (t1, new1) = sema.find_or_create_anon_struct(&fields, &sig());
    let (t2, new2) = sema.find_or_create_anon_struct(&fields, &sig());
    let (t3, new3) = sema.find_or_create_anon_struct(&fields, &[]);
    let swapped = vec![StructField { name: "y".to_string(), ty: Type::I32 }, StructField { name: "x".to_string(), ty: Type::I32 }];
    let (t4, new4) = sema.find_or_create_anon_struct(&swapped, &sig());
    assert!(new1 && !new2 && new3 && new4);
    assert_eq!(t1, t2);
    assert_ne!(t1, t3);
    assert_ne!(t1, t4);
    assert_eq!(t1, Type::Struct(0));
    assert_eq!(sema.type_pool.structs[0].name, "__anon_struct_0");
    assert!(sema.type_pool.structs[0].is_copy);
}

#[test]
fn field_paths_follow_field_accesses() {
    let mut rir = Rir::new();
    let mut rodeo = ThreadedRodeo::new();
    let p = intern(&mut rodeo, "p");
    let x = intern(&mut rodeo, "x");
    let y = intern(&mut rodeo, "y");
    let var = push(&mut rir, InstData::ParamRef { name: p }, 0);
    let fx = push(&mut rir, InstData::FieldGet { base: var, field: x }, 1);
    let fy = push(&mut rir, InstData::FieldGet { base: fx, field: y }, 2);
    let idx = push(&mut rir, InstData::IndexGet { base: fy, index: var }, 3);
    assert_eq!(extract_field_path_ctx(&rir, fy), Some((p, vec![x, y])));
    assert_eq!(extract_field_path_ctx(&rir, var), Some((p, vec![])));
    assert_eq!(extract_field_path_ctx(&rir, idx), None);
    assert_eq!(extract_arg_var_name_ctx(&rir, var), Some(p));
    assert_eq!(extract_arg_var_name_ctx(&rir, fx), None);
}

#[test]
fn leaving_a_scope_restores_a_name_declared_twice_in_it() {
    // Leaving a scope gives back the bindings from before it, also for a
    // name declared twice inside the scope.
    let mut ctx = AnalysisContext::new(HashMap::new(), HashMap::new(), Type::Unit);
    ctx.insert_local(1, local(9, Type::I32, 0));
    ctx.push_scope();
    ctx.insert_local(1, local(0, Type::I32, 2));
    ctx.insert_local(1, local(1, Type::I32, 4));
    ctx.insert_local(2, local(2, Type::I32, 6));
    ctx.insert_local(2, local(3, Type::I32, 8));
    ctx.pop_scope();
    assert_eq!(ctx.locals.get(&1).map(|l| l.slot), Some(9));
    assert_eq!(ctx.locals.get(&2), None);
    assert_eq!(ctx.locals.len(), 1);
}
