use std::collections::HashMap;

use lasso::{Key, ThreadedRodeo};
use rue_air::air::{Air, AirInstData};
use rue_air::context::{AnalysisContext, AnalysisResult, LocalVar, WarningKind};
use rue_air::diag::{ErrorKind, PreviewFeatures};
use rue_air::moves::VariableMoveState;
use rue_air::rir::Rir;
use rue_air::sema::Sema;
use rue_air::types::{Span, StructDef, Type};

fn intern(rodeo: &mut ThreadedRodeo, s: &str) -> u32 {
    rodeo.get_or_intern(s).into_usize() as u32
}

fn ctx() -> AnalysisContext {
    AnalysisContext::new(HashMap::new(), HashMap::new(), Type::I32)
}

fn local(slot: u32, ty: Type, start: u32) -> LocalVar {
    LocalVar { slot, ty, is_mut: false, span: Span::new(0, start, start + 1), allow_unused: false }
}

#[test]
fn break_and_continue_need_a_loop() {
    let mut air = Air::new(Type::Unit);
    let mut c = ctx();
    let span = Span::new(0, 1, 2);
    assert!(matches!(Sema::analyze_break(&mut air, &c, span).unwrap_err().kind, ErrorKind::BreakOutsideLoop));
    assert!(matches!(Sema::analyze_continue(&mut air, &c, span).unwrap_err().kind, ErrorKind::ContinueOutsideLoop));
    assert_eq!(air.len(), 0);
    Sema::enter_loop_body(&mut c);
    assert_eq!(c.loop_depth, 1);
    let r = Sema::analyze_break(&mut air, &c, span).unwrap();
    assert_eq!((r.air_ref, r.ty), (0, Type::Never));
    let r = Sema::analyze_continue(&mut air, &c, span).unwrap();
    assert_eq!(air.instructions[r.air_ref as usize].data, AirInstData::Continue);
    Sema::leave_loop_body(&mut c);
    assert_eq!(c.loop_depth, 0);
    assert!(c.scope_stack.is_empty());
}

#[test]
fn branch_types_coerce_never() {
    let a = Span::new(0, 1, 2);
    let b = Span::new(0, 3, 4);
    assert_eq!(Sema::branch_result_type(Type::Never, Type::Never, a, b).unwrap(), Type::Never);
    assert_eq!(Sema::branch_result_type(Type::Never, Type::Bool, a, b).unwrap(), Type::Bool);
    assert_eq!(Sema::branch_result_type(Type::I64, Type::Never, a, b).unwrap(), Type::I64);
    assert_eq!(Sema::branch_result_type(Type::I64, Type::I64, a, b).unwrap(), Type::I64);
    assert_eq!(Sema::branch_result_type(Type::Error, Type::I64, a, b).unwrap(), Type::Error);
    let e = Sema::branch_result_type(Type::I64, Type::Bool, a, b).unwrap_err();
    match &e.kind {
        ErrorKind::TypeMismatch { expected, found } => assert_eq!((expected.as_str(), found.as_str()), ("i64", "bool")),
        other => panic!("unexpected error {:?}", other),
    }
    assert_eq!(e.span, b);
    assert_eq!(e.label, Some(("this is of type `i64`".to_string(), a)));
    assert_eq!(e.note.as_deref(), Some("if and else branches must have compatible types"));
}

#[test]
fn if_without_else_needs_unit() {
    let s = Span::new(0, 5, 6);
    assert!(Sema::check_if_without_else(Type::Unit, s).is_ok());
    assert!(Sema::check_if_without_else(Type::Never, s).is_ok());
    let e = Sema::check_if_without_else(Type::I32, s).unwrap_err();
    assert!(matches!(e.kind, ErrorKind::TypeMismatch { .. }));
    assert_eq!(
        e.help.as_deref(),
        Some("if expressions without else must have unit type; consider adding an else branch or making the body return ()")
    );
}

#[test]
fn if_without_else_moves() {
    let mut c = ctx();
    let mut moved = VariableMoveState::new();
    moved.mark_path_moved(&[], Span::new(0, 1, 2));
    let mut then_moves = HashMap::new();
    then_moves.insert(4, moved);
    Sema::merge_if_without_else_moves(&mut c, then_moves, HashMap::new(), true);
    assert!(c.moved_vars.is_empty());
    let mut moved = VariableMoveState::new();
    moved.mark_path_moved(&[], Span::new(0, 1, 2));
    let mut then_moves = HashMap::new();
    then_moves.insert(4, moved);
    Sema::merge_if_without_else_moves(&mut c, then_moves, HashMap::new(), false);
    assert_eq!(c.moved_vars[&4].full_move(), Some(Span::new(0, 1, 2)));
}

#[test]
fn emitted_control_instructions() {
    let mut air = Air::new(Type::Unit);
    let s = Span::new(0, 0, 1);
    let c = AnalysisResult::new(0, Type::Bool);
    let t = AnalysisResult::new(1, Type::I32);
    let r = Sema::emit_branch(&mut air, c, t, None, Type::Unit, s);
    assert_eq!(air.instructions[r.air_ref as usize].data, AirInstData::Branch { cond: 0, then_value: 1, else_value: None });
    let r = Sema::emit_while_loop(&mut air, c, t, s);
    assert_eq!(r.ty, Type::Unit);
    let r = Sema::emit_infinite_loop(&mut air, t, s);
    assert_eq!(r.ty, Type::Never);
    let r = Sema::emit_return(&mut air, Some(1), s);
    assert_eq!((r.air_ref, r.ty), (3, Type::Never));
    assert_eq!(air.instructions[3].data, AirInstData::Ret(Some(1)));
}

#[test]
fn return_types() {
    let s = Span::new(0, 0, 1);
    assert!(Sema::check_return(Type::I32, Some(Type::I32), s).is_ok());
    assert!(Sema::check_return(Type::I32, Some(Type::Never), s).is_ok());
    assert!(Sema::check_return(Type::Error, Some(Type::Bool), s).is_ok());
    assert!(Sema::check_return(Type::Unit, None, s).is_ok());
    match Sema::check_return(Type::I32, Some(Type::Bool), s).unwrap_err().kind {
        ErrorKind::TypeMismatch { expected, found } => assert_eq!((expected.as_str(), found.as_str()), ("i32", "bool")),
        other => panic!("unexpected error {:?}", other),
    }
    match Sema::check_return(Type::U8, None, s).unwrap_err().kind {
        ErrorKind::TypeMismatch { expected, found } => assert_eq!((expected.as_str(), found.as_str()), ("u8", "()")),
        other => panic!("unexpected error {:?}", other),
    }
}

#[test]
fn blocks_finish() {
    let rir = Rir::new();
    let mut rodeo = ThreadedRodeo::new();
    let x = intern(&mut rodeo, "x");
    let h = intern(&mut rodeo, "h");
    let mut sema = Sema::new(&rir, rodeo, PreviewFeatures::new());
    sema.type_pool.structs.push(StructDef {
        name: "Handle".to_string(),
        fields: Vec::new(),
        is_copy: false,
        is_handle: false,
        is_linear: true,
        destructor: None,
        is_builtin: false,
        is_pub: true,
        file_id: 0,
    });
    let span = Span::new(0, 10, 20);

    // An empty block is unit.
    let mut air = Air::new(Type::Unit);
    let mut c = ctx();
    c.push_scope();
    let r = sema.finish_block(&mut air, &mut c, &Vec::new(), None, span).unwrap();
    assert_eq!((r.air_ref, r.ty), (0, Type::Unit));
    assert_eq!(air.instructions[0].data, AirInstData::UnitConst);
    assert!(c.scope_stack.is_empty());

    // Statements and a value make a block instruction; unused locals are warned about.
    let mut air = Air::new(Type::Unit);
    let mut c = ctx();
    c.push_scope();
    c.insert_local(x, local(0, Type::I32, 3));
    let r = sema.finish_block(&mut air, &mut c, &vec![7, 8], Some(AnalysisResult::new(9, Type::Bool)), span).unwrap();
    assert_eq!((r.air_ref, r.ty), (0, Type::Bool));
    assert_eq!(air.instructions[0].data, AirInstData::Block { stmts_start: 0, stmts_len: 2, value: 9 });
    assert_eq!(air.extra, vec![7, 8]);
    assert_eq!(c.warnings.len(), 1);
    assert!(matches!(&c.warnings[0].kind, WarningKind::UnusedVariable(n) if n == "x"));
    assert!(!c.locals.contains_key(&x));

    // A block without statements is its value.
    let mut air = Air::new(Type::Unit);
    let mut c = ctx();
    c.push_scope();
    let r = sema.finish_block(&mut air, &mut c, &Vec::new(), Some(AnalysisResult::new(4, Type::I32)), span).unwrap();
    assert_eq!((r.air_ref, r.ty), (4, Type::I32));
    assert_eq!(air.len(), 0);

    // An unconsumed linear value is an error.
    let mut air = Air::new(Type::Unit);
    let mut c = ctx();
    c.push_scope();
    c.insert_local(h, local(0, Type::Struct(0), 5));
    let e = sema.finish_block(&mut air, &mut c, &Vec::new(), None, span).unwrap_err();
    assert!(matches!(e.kind, ErrorKind::LinearValueNotConsumed(ref n) if n == "h"));
    assert_eq!(c.scope_stack.len(), 1);
    assert_eq!(air.len(), 0);
}
