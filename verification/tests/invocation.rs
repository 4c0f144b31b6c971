use std::collections::HashMap;

use lasso::{Key, ThreadedRodeo};
use rue_air::air::{Air, AirArgMode, AirInstData};
use rue_air::context::{AnalysisContext, ParamMode};
use rue_air::diag::{ErrorKind, PreviewFeatures};
use rue_air::invocation::emit_call;
use rue_air::moves::VariableMoveState;
use rue_air::rir::{ArgMode, CallArg, Inst, InstData, Rir};
use rue_air::sema::{FunctionInfo, ParamRange, Sema};
use rue_air::types::{Span, Type};

fn intern(rodeo: &mut ThreadedRodeo, s: &str) -> u32 {
    rodeo.get_or_intern(s).into_usize() as u32
}

fn push(rir: &mut Rir, data: InstData, at: u32) -> u32 {
    rir.add_inst(Inst { data, span: Span::new(0, at, at + 1) }).unwrap()
}

fn function(start: u32, len: u32, return_type: Type) -> FunctionInfo {
    FunctionInfo {
        params: ParamRange { start, len },
        return_type,
        return_type_sym: 0,
        body: 0,
        span: Span::new(0, 0, 1),
        is_generic: false,
        is_pub: true,
        file_id: 0,
    }
}

fn arg(value: u32, mode: ArgMode) -> CallArg {
    CallArg { value, mode }
}

#[test]
fn calls_are_checked_before_their_arguments() {
    let mut rir = Rir::new();
    let mut rodeo = ThreadedRodeo::new();
    let f = intern(&mut rodeo, "f");
    let g = intern(&mut rodeo, "g");
    let nope = intern(&mut rodeo, "nope");
    let x = intern(&mut rodeo, "x");
    let y = intern(&mut rodeo, "y");
    let n = intern(&mut rodeo, "n");
    let var_x = push(&mut rir, InstData::VarRef { name: x }, 10);
    let var_y = push(&mut rir, InstData::VarRef { name: y }, 20);
    let three = push(&mut rir, InstData::IntConst(3), 30);
    let mut sema = Sema::new(&rir, rodeo, PreviewFeatures::new());
    // f(inout a, borrow b, c); g(comptime n)
    sema.param_arena.names = vec![x, y, x, n];
    sema.param_arena.types = vec![Type::I32, Type::I32, Type::I32, Type::I32];
    sema.param_arena.modes = vec![ParamMode::Inout, ParamMode::Borrow, ParamMode::Normal, ParamMode::Comptime];
    sema.param_arena.comptime = vec![false, false, false, true];
    sema.functions.insert(f, function(0, 3, Type::Bool));
    sema.functions.insert(g, function(3, 1, Type::Unit));
    let span = Span::new(0, 0, 40);
    let mut cx = AnalysisContext::new(HashMap::new(), HashMap::new(), Type::Unit);

    let ok = sema.check_call(&mut cx, f, &[arg(var_x, ArgMode::Inout), arg(var_y, ArgMode::Borrow), arg(three, ArgMode::Normal)], span).unwrap();
    assert_eq!(ok.return_type, Type::Bool);
    assert_eq!(sema.check_call(&mut cx, nope, &[], span).unwrap_err().kind, ErrorKind::UndefinedFunction("nope".to_string()));
    assert_eq!(
        sema.check_call(&mut cx, f, &[arg(var_x, ArgMode::Inout)], span).unwrap_err().kind,
        ErrorKind::WrongArgumentCount { expected: 3, found: 1 }
    );
    // The same variable passed inout and borrowed.
    let e = sema.check_call(&mut cx, f, &[arg(var_x, ArgMode::Inout), arg(var_x, ArgMode::Borrow), arg(three, ArgMode::Normal)], span).unwrap_err();
    assert_eq!(e.kind, ErrorKind::BorrowInoutConflict { variable: "x".to_string() });
    // Marks missing: the first one decides, at the argument.
    let e = sema.check_call(&mut cx, f, &[arg(var_x, ArgMode::Normal), arg(var_y, ArgMode::Normal), arg(three, ArgMode::Normal)], span).unwrap_err();
    assert_eq!((e.kind, e.span), (ErrorKind::InoutKeywordMissing, Span::new(0, 10, 11)));
    let e = sema.check_call(&mut cx, f, &[arg(var_x, ArgMode::Inout), arg(var_y, ArgMode::Normal), arg(three, ArgMode::Normal)], span).unwrap_err();
    assert_eq!((e.kind, e.span), (ErrorKind::BorrowKeywordMissing, Span::new(0, 20, 21)));
    // A comptime parameter needs a constant.
    assert!(sema.check_call(&mut cx, g, &[arg(three, ArgMode::Normal)], span).is_ok());
    let e = sema.check_call(&mut cx, g, &[arg(var_y, ArgMode::Normal)], span).unwrap_err();
    assert_eq!(e.kind, ErrorKind::ComptimeArgNotConst { param_name: "n".to_string() });
    assert_eq!(e.help.as_deref(), Some("parameter 'n' is declared as 'comptime' and requires a compile-time known value"));
    // Every call of a known function records it, whatever else is wrong with it.
    assert_eq!(cx.referenced_functions.len(), 2);
    assert!(cx.referenced_functions.contains(&f) && cx.referenced_functions.contains(&g));
    assert!(!cx.referenced_functions.contains(&nope));
}

#[test]
fn borrowed_arguments_stay_usable() {
    let mut rir = Rir::new();
    let mut rodeo = ThreadedRodeo::new();
    let x = intern(&mut rodeo, "x");
    let var_x = push(&mut rir, InstData::VarRef { name: x }, 10);
    let sema = Sema::new(&rir, rodeo, PreviewFeatures::new());
    let mut ctx = AnalysisContext::new(HashMap::new(), HashMap::new(), Type::Unit);
    let mut moved = VariableMoveState::new();
    moved.mark_path_moved(&[], Span::new(0, 10, 11));
    ctx.moved_vars.insert(x, moved);
    // A value argument leaves the move in place.
    sema.release_borrowed_arg(&mut ctx, arg(var_x, ArgMode::Normal));
    assert!(ctx.moved_vars.contains_key(&x));
    sema.release_borrowed_arg(&mut ctx, arg(var_x, ArgMode::Borrow));
    assert!(!ctx.moved_vars.contains_key(&x));
}

#[test]
fn calls_encode_their_arguments() {
    let mut air = Air::new(Type::Unit);
    let r = emit_call(&mut air, 7, &vec![(4, AirArgMode::Normal), (5, AirArgMode::Inout), (6, AirArgMode::Borrow)], Type::I64, Span::new(0, 0, 9));
    assert_eq!((r.air_ref, r.ty), (0, Type::I64));
    assert_eq!(air.extra, vec![4, 0, 5, 1, 6, 2]);
    assert_eq!(air.instructions[0].data, AirInstData::Call { name: 7, args_start: 0, args_len: 3 });
}

#[test]
fn module_functions_must_be_visible() {
    let mut rir = Rir::new();
    let mut rodeo = ThreadedRodeo::new();
    let f = intern(&mut rodeo, "f");
    let hidden = intern(&mut rodeo, "hidden");
    let x = intern(&mut rodeo, "x");
    let var_x = push(&mut rir, InstData::VarRef { name: x }, 10);
    let mut sema = Sema::new(&rir, rodeo, PreviewFeatures::new());
    let mut paths = HashMap::new();
    paths.insert(0, "src/main.rue".to_string());
    paths.insert(1, "src/util/math.rue".to_string());
    sema.set_file_paths(paths);
    sema.param_arena.names = vec![x];
    sema.param_arena.types = vec![Type::I32];
    sema.param_arena.modes = vec![ParamMode::Inout];
    sema.param_arena.comptime = vec![false];
    let mut info = function(0, 1, Type::Unit);
    info.file_id = 1;
    sema.functions.insert(f, info);
    let mut private = function(0, 0, Type::Unit);
    private.file_id = 1;
    private.is_pub = false;
    sema.functions.insert(hidden, private);
    let span = Span::new(0, 0, 30);
    let mut cx = AnalysisContext::new(HashMap::new(), HashMap::new(), Type::Unit);
    assert!(sema.check_module_member_call(&mut cx, f, &[arg(var_x, ArgMode::Inout)], span).is_ok());
    let e = sema.check_module_member_call(&mut cx, f, &[arg(var_x, ArgMode::Normal)], span).unwrap_err();
    assert_eq!((e.kind, e.span), (ErrorKind::InoutKeywordMissing, Span::new(0, 10, 11)));
    assert_eq!(
        sema.check_module_member_call(&mut cx, hidden, &[], span).unwrap_err().kind,
        ErrorKind::PrivateMemberAccess { item_kind: "function".to_string(), name: "hidden".to_string() }
    );
    // From the module's own file it is visible.
    assert!(sema.check_module_member_call(&mut cx, hidden, &[], Span::new(1, 0, 3)).is_ok());
}
